//! Source text as nodes.
use dioxus_lints::layout::{lay, Mark};
use dioxus_lints::lower::{parse_source, parse_type};
use dioxus_lints::tape::{operand_of, Kind, Node};
use dioxus_lints::tokens::{spell, Shape, Token};

fn nodes(text: &str) -> Vec<Node> {
    parse_source(text).unwrap()
}

fn names(t: &[Node], kind: Kind) -> Vec<&str> {
    t.iter().filter(|n| n.kind == kind).map(|n| n.name.as_str()).collect()
}

/// Each subtree lies within that of its parent.
fn is_tree(t: &[Node]) -> bool {
    t[0].end == t.len()
        && (1..t.len()).all(|i| t[i].parent < i && i < t[i].end && t[i].end <= t[t[i].parent].end)
}

#[test]
fn marks_become_a_tree() {
    let marks = vec![
        Mark::Open(Kind::Call, 3, 5),
        Mark::Open(Kind::Path, 3, 5),
        Mark::Name("f".to_string()),
        Mark::Close,
        Mark::Open(Kind::Path, 3, 7),
        Mark::Name("x".to_string()),
        Mark::Close,
        Mark::Close,
    ];
    let t = lay(&marks);
    assert_eq!(t.len(), 3);
    assert_eq!((t[0].line, t[0].column, t[0].end), (3, 5, 3));
    assert_eq!((t[1].name.as_str(), t[1].parent, t[1].end), ("f", 0, 2));
    assert_eq!((t[2].name.as_str(), t[2].parent, t[2].end), ("x", 0, 3));
    assert!(is_tree(&t));
}

#[test]
fn marks_that_are_left_open_are_closed() {
    let t = lay(&vec![Mark::Open(Kind::Call, 1, 0), Mark::Open(Kind::Path, 1, 0)]);
    assert_eq!(t.len(), 2);
    assert!(is_tree(&t));
    assert!(lay(&vec![Mark::Close, Mark::Name("x".to_string())]).is_empty());
}

#[test]
fn every_segment_and_argument_is_laid_out() {
    let t = parse_type("std::collections::HashMap<String, Vec<u8>>").unwrap();
    assert_eq!(
        names(&t, Kind::Segment),
        ["std", "collections", "HashMap", "String", "Vec", "u8"]
    );
    assert_eq!(t.iter().filter(|n| n.kind == Kind::GenType).count(), 3);
    assert_eq!(t[t[0].last].name, "HashMap");
    assert!(is_tree(&t));
    assert!(parse_type("Vec<").is_none());
}

#[test]
fn expressions_in_types_and_items_are_laid_out() {
    for text in [
        "enum E { A = f(1) }",
        "trait T { const C: u32 = f(1); }",
        "struct S { a: [u8; f(1)] }",
        "struct S { a: G<{ f(1) }> }",
    ] {
        let t = nodes(text);
        let calls = t.iter().filter(|n| n.kind == Kind::Call).count();
        assert_eq!(calls, 1, "{text}");
        assert!(is_tree(&t), "{text}");
    }
}

#[test]
fn generic_arguments_of_a_method_stand_behind_its_receiver() {
    let t = nodes("fn f() { a.m::<T, { n() }>(b, c); }");
    let m = t.iter().position(|n| n.kind == Kind::MethodCall).unwrap();
    let named: Vec<&str> = (0..3).map(|k| t[operand_of(&t, m, k).unwrap()].name.as_str()).collect();
    assert_eq!(named, ["a", "b", "c"]);
    assert_eq!(t[m].count, 3);
    assert_eq!(operand_of(&t, m, 3), None);
    let turbofish = t.iter().position(|n| n.kind == Kind::Turbofish).unwrap();
    assert!(operand_of(&t, m, 0).unwrap() < turbofish);
    assert_eq!(t[turbofish].end, operand_of(&t, m, 1).unwrap());
    assert!(is_tree(&t));
}

fn token(shape: Shape, text: &str, joint: bool) -> Token {
    Token { shape, text: text.to_string(), joint }
}

#[test]
fn tokens_are_printed_as_a_stream_prints_them() {
    let v = vec![
        token(Shape::Ident, "f", false),
        token(Shape::Open, "(", false),
        token(Shape::Ident, "a", false),
        token(Shape::Punct, "=", true),
        token(Shape::Punct, "=", false),
        token(Shape::Literal, "1", false),
        token(Shape::Close, ")", false),
        token(Shape::Open, "{", false),
        token(Shape::Ident, "b", false),
        token(Shape::Close, "}", false),
    ];
    assert_eq!(spell(&v), "f (a == 1) { b }");
    assert_eq!(spell(&Vec::new()), "");
    assert_eq!(spell(&vec![token(Shape::Open, "(", false)]), "( ");
}
