//! The root file of a crate and the modules that it declares.
use vstd::prelude::*;

use crate::scaffold::mods::{mod_line, mod_line_of};
use crate::paths::{join_path, path_join};
use crate::text::{
    begins, ends, ends_with, join, joined, lemma_lines, lemma_parts_joined, lines, lines_of, owned,
    parts, same, starts_with, trim, trim_front, trim_start, trimmed, without_return,
};

verus! {

/// The line that declares a module for the crate alone.
pub open spec fn private_line(name: Seq<char>) -> Seq<char> {
    "mod "@
        + name
        + ";"@
}

fn private_line_of(name: &str) -> (r: String)
    ensures
        r@ == private_line(name@),
{
    let mut s = owned("mod ");
    s.append(name);
    s.append(";");
    s
}


/// The crate root under `crate_root`: `src/main.rs` if it is there, else
/// `src/lib.rs` if that is.
pub open spec fn root_file(crate_root: Seq<char>, main: bool, library: bool) -> Option<Seq<char>> {
    if main {
        Some(path_join(crate_root, "src/main.rs"@))
    } else if library {
        Some(path_join(crate_root, "src/lib.rs"@))
    } else {
        None
    }
}

/// Finds the crate root file, told which of the two candidates exist.
pub fn find_crate_root_file(crate_root: &str, main: bool, library: bool) -> (r: Option<String>)
    ensures
        r.deep_view() == root_file(crate_root@, main, library),
{
    if main {
        Some(join_path(crate_root, "src/main.rs"))
    } else if library {
        Some(join_path(crate_root, "src/lib.rs"))
    } else {
        None
    }
}

/// Line `l` declares the module, public or not.
pub open spec fn declares(l: Seq<char>, module: Seq<char>) -> bool {
    trimmed(l) == mod_line(module) || trimmed(l) == private_line(module)
}

/// Some line declares the module.
pub open spec fn declared(ls: Seq<Seq<char>>, module: Seq<char>) -> bool {
    exists|k: int| 0 <= k < ls.len() && declares(#[trigger] ls[k], module)
}

fn is_declared(ls: &Vec<String>, module: &str) -> (r: bool)
    ensures
        r == declared(ls.deep_view(), module@),
{
    let public = mod_line_of(module);
    let private = private_line_of(module);
    let mut k: usize = 0;
    while k < ls.len()
        invariant
            k <= ls.len(),
            public@ == mod_line(module@),
            private@ == private_line(module@),
            forall|j: int| 0 <= j < k ==> !declares(#[trigger] ls.deep_view()[j], module@),
        decreases ls.len() - k,
    {
        assert(ls.deep_view()[k as int] == ls@[k as int]@);
        let t = trim(ls[k].as_str());
        if same(t.as_str(), public.as_str()) || same(t.as_str(), private.as_str()) {
            assert(declares(ls.deep_view()[k as int], module@));
            return true;
        }
        k += 1;
    }
    false
}

/// The place after the last line that starts with `a` or `b`.
pub open spec fn after_last(ls: Seq<Seq<char>>, a: Seq<char>, b: Seq<char>) -> Option<int>
    decreases ls.len(),
{
    if ls.len() == 0 {
        None
    } else if begins(trim_start(ls.last()), a) || begins(trim_start(ls.last()), b) {
        Some(ls.len() as int)
    } else {
        after_last(ls.drop_last(), a, b)
    }
}

fn after_last_of(ls: &Vec<String>, a: &str, b: &str) -> (r: Option<usize>)
    ensures
        match r {
            Some(k) => after_last(ls.deep_view(), a@, b@) == Some(k as int) && k <= ls.len(),
            None => after_last(ls.deep_view(), a@, b@) is None,
        },
{
    let mut k: usize = ls.len();
    assert(ls.deep_view().take(k as int) =~= ls.deep_view());
    while k > 0
        invariant
            k <= ls.len(),
            after_last(ls.deep_view(), a@, b@) == after_last(
                ls.deep_view().take(k as int),
                a@,
                b@,
            ),
        decreases k,
    {
        let ghost now = ls.deep_view().take(k as int);
        assert(now.last() == ls@[k - 1]@);
        assert(now.drop_last() =~= ls.deep_view().take(k - 1));
        let t = trim_front(ls[k - 1].as_str());
        if starts_with(t.as_str(), a) || starts_with(t.as_str(), b) {
            return Some(k);
        }
        k -= 1;
    }
    None
}

/// A line that may stand above all items: blank, an inner attribute, a comment.
pub open spec fn preliminary(l: Seq<char>) -> bool {
    trimmed(l).len() == 0 || begins(trimmed(l), "#!["@) || begins(trimmed(l), "//"@)
}

/// The first line from `i` on that is not preliminary.
pub open spec fn after_preamble(ls: Seq<Seq<char>>, i: int) -> int
    decreases ls.len() - i,
{
    if 0 <= i < ls.len() && preliminary(ls[i]) {
        after_preamble(ls, i + 1)
    } else {
        i
    }
}

/// A first line that names an interpreter.
pub open spec fn shebang(l: Seq<char>) -> bool {
    begins(l, "#!"@) && !begins(l, "#!["@)
}

/// Where a new declaration goes: after the last `mod`, else after the last
/// `use`, else below what stands above all items.
pub open spec fn insertion(ls: Seq<Seq<char>>) -> int {
    match after_last(ls, "mod "@, "pub mod "@) {
        Some(k) => k,
        None => match after_last(ls, "use "@, "pub use "@) {
            Some(k) => k,
            None => after_preamble(
                ls,
                if ls.len() > 0 && shebang(ls[0]) {
                    1int
                } else {
                    0int
                },
            ),
        },
    }
}

fn insertion_of(ls: &Vec<String>) -> (r: usize)
    ensures
        r == insertion(ls.deep_view()),
        r <= ls.len(),
{
    match after_last_of(ls, "mod ", "pub mod ") {
        Some(k) => return k,
        None => {},
    }
    match after_last_of(ls, "use ", "pub use ") {
        Some(k) => return k,
        None => {},
    }
    let mut i: usize = 0;
    if ls.len() > 0 {
        assert(ls.deep_view()[0] == ls@[0]@);
        if starts_with(ls[0].as_str(), "#!") && !starts_with(ls[0].as_str(), "#![") {
            i = 1;
        }
    }
    while i < ls.len()
        invariant
            i <= ls.len(),
            insertion(ls.deep_view()) == after_preamble(ls.deep_view(), i as int),
        decreases ls.len() - i,
    {
        assert(ls.deep_view()[i as int] == ls@[i as int]@);
        let t = trim(ls[i].as_str());
        if t.as_str().unicode_len() == 0 || starts_with(t.as_str(), "#![") || starts_with(
            t.as_str(),
            "//",
        ) {
            i += 1;
        } else {
            return i;
        }
    }
    i
}

/// `ls` with a declaration of the module among them.
pub open spec fn with_declaration(ls: Seq<Seq<char>>, module: Seq<char>) -> Seq<Seq<char>> {
    ls.insert(insertion(ls), mod_line(module))
}

/// `ls` as a text that ends in a line feed if `text` does.
pub open spec fn rebuilt(text: Seq<char>, ls: Seq<Seq<char>>) -> Seq<char> {
    let whole = joined(ls, "\n"@);
    if ends(text, "\n"@) && !ends(whole, "\n"@) {
        whole + "\n"@
    } else {
        whole
    }
}

/// The text of the crate root with the module declared, unless it is already.
pub open spec fn crate_mod(text: Seq<char>, module: Seq<char>) -> Option<Seq<char>> {
    let new = rebuilt(text, with_declaration(lines(text), module));
    if declared(lines(text), module) || new == text {
        None
    } else {
        Some(new)
    }
}

/// Declares `pub mod module;` in the crate root that holds `current`. Gives the
/// new text, or nothing if the text stays as it is.
pub fn upsert_crate_mod(current: &str, module: &str) -> (r: Option<String>)
    ensures
        r.deep_view() == crate_mod(current@, module@),
{
    let ls = lines_of(current);
    if is_declared(&ls, module) {
        return None;
    }
    let at = insertion_of(&ls);
    let ghost before = ls.deep_view();
    let mut new = ls;
    new.insert(at, mod_line_of(module));
    assert(new.deep_view() =~= with_declaration(before, module@));
    let mut text = join(&new, "\n");
    if ends_with(current, "\n") && !ends_with(text.as_str(), "\n") {
        text.append("\n");
    }
    if same(text.as_str(), current) {
        None
    } else {
        Some(text)
    }
}

/// The place after the last such line is a place in the file.
proof fn lemma_after_last(ls: Seq<Seq<char>>, a: Seq<char>, b: Seq<char>)
    ensures
        after_last(ls, a, b) matches Some(k) ==> 0 <= k <= ls.len(),
    decreases ls.len(),
{
    if ls.len() > 0 {
        lemma_after_last(ls.drop_last(), a, b);
    }
}

proof fn lemma_after_preamble(ls: Seq<Seq<char>>, i: int)
    requires
        0 <= i <= ls.len(),
    ensures
        i <= after_preamble(ls, i) <= ls.len(),
    decreases ls.len() - i,
{
    if i < ls.len() && preliminary(ls[i]) {
        lemma_after_preamble(ls, i + 1);
    }
}

/// A module is declared once: when the declaration is in the crate root, asking
/// for it again changes nothing. That holds of a name without line feeds.
pub proof fn law_declared_once(text: Seq<char>, module: Seq<char>)
    requires
        !module.contains('\n'),
    ensures
        crate_mod(text, module) matches Some(new) ==> declared(lines(new), module) && crate_mod(
            new,
            module,
        ) is None,
{
    let ls = lines(text);
    let at = insertion(ls);
    let d = mod_line(module);
    let new = with_declaration(ls, module);
    lemma_lines(text);
    lemma_after_last(ls, "mod "@, "pub mod "@);
    lemma_after_last(ls, "use "@, "pub use "@);
    lemma_after_preamble(
        ls,
        if ls.len() > 0 && shebang(ls[0]) {
            1int
        } else {
            0int
        },
    );
    reveal_strlit("pub mod ");
    reveal_strlit(";");
    reveal_strlit("\n");
    assert(d[0] == 'p' && d.last() == ';');
    assert(!d.contains('\n')) by {
        if d.contains('\n') {
            let k = choose|k: int| 0 <= k < d.len() && d[k] == '\n';
            if 8 <= k < 8 + module.len() {
                assert(module[k - 8] == d[k]);
            }
            assert(module.contains('\n'));
        }
    }
    assert(trimmed(d) == d);
    assert forall|k: int| 0 <= k < new.len() implies !(#[trigger] new[k]).contains('\n') by {
        if k < at {
            assert(new[k] == ls[k]);
        } else if k > at {
            assert(new[k] == ls[k - 1]);
        }
    }
    lemma_parts_joined(new);
    let whole = joined(new, "\n"@);
    let result = rebuilt(text, new);
    let p = parts(result, '\n');
    if result != whole {
        assert(result.drop_last() =~= whole);
        assert(result.last() == '\n');
        assert(p =~= new.push(Seq::empty()));
    }
    assert(new[at] == d);
    assert(p[at] == d);
    assert(without_return(d) == d);
    assert(lines(result)[at] == d);
    assert(declares(lines(result)[at], module));
}

} // verus!
