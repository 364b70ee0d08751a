//! What the functions on text do, in terms of the characters.
use vstd::prelude::*;

use crate::text::{
    after_prefix, at, before_suffix, begins, decimal, ends, fields, joined, lemma_parts,
    lemma_parts_between, lemma_parts_longer, lines, lower, occurs, parts, plural, replaced,
    squeezed, strip_back, strip_front, tight, trim_end, trim_start, trimmed, white_space, without,
};

verus! {

/// Among the characters of ASCII, the blank, the tab, the line feed, the vertical tab,
/// the form feed and the carriage return are white space, and no others are.
pub proof fn law_ascii_white_space(c: char)
    requires
        c <= '\u{7f}',
    ensures
        white_space(c) <==> c == ' ' || c == '\t' || c == '\n' || c == '\u{b}' || c == '\u{c}' || c
            == '\r',
{
}

/// A text begins with what stands at its front, ends with what stands at its back, and
/// holds what stands within it; and these are the only ways.
pub proof fn law_where_a_text_stands(a: Seq<char>, p: Seq<char>, b: Seq<char>)
    ensures
        begins(p + b, p),
        ends(a + p, p),
        occurs(a + p + b, p),
        after_prefix(p + b, p) == Some(b),
        before_suffix(a + p, p) == Some(a),
{
    assert((p + b).subrange(0, p.len() as int) =~= p);
    assert((a + p).subrange(a.len() as int, (a.len() + p.len()) as int) =~= p);
    assert((a + p + b).subrange(a.len() as int, (a.len() + p.len()) as int) =~= p);
    assert(at(a + p + b, p, a.len() as int));
    assert((p + b).skip(p.len() as int) =~= b);
    assert((a + p).take(a.len() as int) =~= a);
}

/// What a text begins with is at its front, and the rest follows; likewise at its end.
pub proof fn law_what_is_cut_off(s: Seq<char>, p: Seq<char>)
    ensures
        begins(s, p) <==> after_prefix(s, p) is Some,
        after_prefix(s, p) matches Some(x) ==> s == p + x,
        ends(s, p) <==> before_suffix(s, p) is Some,
        before_suffix(s, p) matches Some(x) ==> s == x + p,
{
    if begins(s, p) {
        assert(s =~= p + s.skip(p.len() as int));
    }
    if ends(s, p) {
        assert(s =~= s.take(s.len() - p.len()) + p);
    }
}

// ---------------------------------------------------------------------------
// Trimming
// ---------------------------------------------------------------------------

/// Nothing but white space stands in `s`.
pub open spec fn blank(s: Seq<char>) -> bool {
    forall|k: int| 0 <= k < s.len() ==> white_space(#[trigger] s[k])
}

/// Trimming at the front takes the white space there off, and no more.
pub proof fn law_trim_start(gap: Seq<char>, s: Seq<char>)
    requires
        blank(gap),
        s.len() > 0 ==> !white_space(s[0]),
    ensures
        trim_start(gap + s) == s,
    decreases gap.len(),
{
    if gap.len() == 0 {
        assert(gap + s =~= s);
    } else {
        assert(white_space(gap[0]));
        assert((gap + s).first() == gap[0]);
        assert((gap + s).drop_first() =~= gap.drop_first() + s);
        law_trim_start(gap.drop_first(), s);
    }
}

proof fn lemma_trim_end(s: Seq<char>, gap: Seq<char>)
    requires
        blank(gap),
        s.len() > 0 ==> !white_space(s.last()),
    ensures
        trim_end(s + gap) == s,
    decreases gap.len(),
{
    if gap.len() == 0 {
        assert(s + gap =~= s);
    } else {
        assert(white_space(gap[gap.len() - 1]));
        assert((s + gap).last() == gap.last());
        assert((s + gap).drop_last() =~= s + gap.drop_last());
        lemma_trim_end(s, gap.drop_last());
    }
}

/// Trimming takes the white space off both ends, and no more.
pub proof fn law_trimmed(front: Seq<char>, s: Seq<char>, back: Seq<char>)
    requires
        blank(front),
        blank(back),
        s.len() > 0 ==> !white_space(s[0]) && !white_space(s.last()),
    ensures
        trimmed(front + s + back) == s,
{
    if s.len() == 0 {
        let none = Seq::<char>::empty();
        assert forall|k: int| 0 <= k < (front + back).len() implies white_space(
            #[trigger] (front + back)[k],
        ) by {
            if k < front.len() {
                assert(white_space(front[k]));
            } else {
                assert(white_space(back[k - front.len()]));
            }
        }
        law_trim_start(front + back, none);
        assert(front + s + back =~= (front + back) + none);
        assert(trim_end(none) =~= none);
        assert(s =~= none);
    } else {
        law_trim_start(front, s + back);
        assert(front + s + back =~= front + (s + back));
        lemma_trim_end(s, back);
    }
}

/// Stripping takes every `c` off both ends, and no more.
pub proof fn law_stripped(n: nat, s: Seq<char>, m: nat, c: char)
    requires
        s.len() > 0,
        s[0] != c,
        s.last() != c,
    ensures
        strip_back(
            strip_front(Seq::new(n, |k: int| c) + s + Seq::new(m, |k: int| c), c),
            c,
        ) == s,
{
    let back = Seq::new(m, |k: int| c);
    lemma_strip_front(n, s + back, c);
    assert(Seq::new(n, |k: int| c) + s + back =~= Seq::new(n, |k: int| c) + (s + back));
    lemma_strip_back(s, m, c);
}

proof fn lemma_strip_front(n: nat, s: Seq<char>, c: char)
    requires
        s.len() > 0,
        s[0] != c,
    ensures
        strip_front(Seq::new(n, |k: int| c) + s, c) == s,
    decreases n,
{
    let all = Seq::new(n, |k: int| c) + s;
    if n == 0 {
        assert(all =~= s);
    } else {
        assert(all.drop_first() =~= Seq::new((n - 1) as nat, |k: int| c) + s);
        lemma_strip_front((n - 1) as nat, s, c);
    }
}

proof fn lemma_strip_back(s: Seq<char>, m: nat, c: char)
    requires
        s.len() > 0,
        s.last() != c,
    ensures
        strip_back(s + Seq::new(m, |k: int| c), c) == s,
    decreases m,
{
    let all = s + Seq::new(m, |k: int| c);
    if m == 0 {
        assert(all =~= s);
    } else {
        assert(all.drop_last() =~= s + Seq::new((m - 1) as nat, |k: int| c));
        lemma_strip_back(s, (m - 1) as nat, c);
    }
}

// ---------------------------------------------------------------------------
// Characters
// ---------------------------------------------------------------------------

/// Leaving out a character keeps all the others, in order.
pub proof fn law_without(s: Seq<char>, c: char)
    ensures
        without(s, c) == s.filter(|x: char| x != c),
    decreases s.len(),
{
    reveal(Seq::filter);
    if s.len() > 0 {
        law_without(s.drop_last(), c);
    }
}

/// In small letters, each letter from `A` to `Z` becomes the one that many places on,
/// and every other character stays.
pub proof fn law_lower(s: Seq<char>, k: int)
    requires
        0 <= k < s.len(),
    ensures
        lower(s).len() == s.len(),
        'A' <= s[k] <= 'Z' ==> lower(s)[k] as int - 'a' as int == s[k] as int - 'A' as int,
        !('A' <= s[k] <= 'Z') ==> lower(s)[k] == s[k],
{
}

// ---------------------------------------------------------------------------
// Splitting and joining
// ---------------------------------------------------------------------------

/// A text without the separator is one part, and a separator parts what stands before
/// it from what stands after it.
pub proof fn law_parts(a: Seq<char>, b: Seq<char>, c: char)
    ensures
        !a.contains(c) ==> parts(a, c) == seq![a],
        parts(a + seq![c] + b, c) == parts(a, c) + parts(b, c),
{
    lemma_parts_between(a, b, c);
    if !a.contains(c) {
        let none = Seq::<char>::empty();
        lemma_parts_longer(none, a, c);
        assert(none + a =~= a);
        assert(parts(a, c) =~= seq![a]);
    }
}

/// The words of a text are parted by white space: a text without any is one word, and
/// white space parts what stands before it from what stands after it.
pub proof fn law_fields(a: Seq<char>, b: Seq<char>, gap: char)
    requires
        white_space(gap),
    ensures
        fields(Seq::<char>::empty()) == Seq::<Seq<char>>::empty(),
        a.len() > 0 && (forall|k: int| 0 <= k < a.len() ==> !white_space(#[trigger] a[k]))
            ==> fields(a) == seq![a],
        fields(a + seq![gap] + b) == fields(a) + fields(b),
{
    lemma_fields_between(a, b, gap);
    if a.len() > 0 && (forall|k: int| 0 <= k < a.len() ==> !white_space(#[trigger] a[k])) {
        lemma_one_field(a);
    }
}

proof fn lemma_one_field(a: Seq<char>)
    requires
        a.len() > 0,
        forall|k: int| 0 <= k < a.len() ==> !white_space(#[trigger] a[k]),
    ensures
        fields(a) == seq![a],
    decreases a.len(),
{
    let less = a.drop_last();
    assert(!white_space(a[a.len() - 1]));
    if less.len() == 0 {
        assert(fields(less) =~= Seq::<Seq<char>>::empty());
        assert(fields(a) =~= seq![seq![a.last()]]);
        assert(seq![a.last()] =~= a);
    } else {
        assert forall|k: int| 0 <= k < less.len() implies !white_space(#[trigger] less[k]) by {
            assert(less[k] == a[k]);
        }
        lemma_one_field(less);
        assert(!white_space(a[a.len() - 2]));
        assert(less.push(a.last()) =~= a);
        assert(fields(a) =~= seq![a]);
    }
}

proof fn lemma_field_before(s: Seq<char>)
    requires
        s.len() > 0,
        !white_space(s.last()),
    ensures
        fields(s).len() > 0,
{
}

proof fn lemma_fields_between(a: Seq<char>, b: Seq<char>, gap: char)
    requires
        white_space(gap),
    ensures
        fields(a + seq![gap] + b) == fields(a) + fields(b),
    decreases b.len(),
{
    let all = a + seq![gap] + b;
    if b.len() == 0 {
        assert(all.drop_last() =~= a);
        assert(fields(all) =~= fields(a) + fields(b));
    } else {
        let less = b.drop_last();
        lemma_fields_between(a, less, gap);
        assert(all.drop_last() =~= a + seq![gap] + less);
        assert(all.last() == b.last());
        if b.len() > 1 {
            assert(all[all.len() - 2] == b[b.len() - 2]);
            if !white_space(less.last()) {
                lemma_field_before(less);
            }
        } else {
            assert(all[all.len() - 2] == gap);
        }
        assert(fields(all) =~= fields(a) + fields(b));
    }
}

/// The first line of a text ends at its first line feed, and a carriage return before
/// it is no part of it.
pub proof fn law_lines(a: Seq<char>, b: Seq<char>)
    requires
        !a.contains('\n'),
    ensures
        lines(Seq::<char>::empty()) == Seq::<Seq<char>>::empty(),
        a.len() > 0 ==> lines(a) == seq![a],
        a.len() > 0 && a.last() == '\r' ==> lines(a + seq!['\n'] + b) == seq![a.drop_last()]
            + lines(b),
        a.len() == 0 || a.last() != '\r' ==> lines(a + seq!['\n'] + b) == seq![a] + lines(b),
{
    let none = Seq::<char>::empty();
    law_parts(a, b, '\n');
    lemma_parts(b, '\n');
    let p = parts(a + seq!['\n'] + b, '\n');
    let q = parts(b, '\n');
    assert(lines(none) =~= Seq::<Seq<char>>::empty());
    if a.len() > 0 {
        assert(lines(a) =~= seq![a]);
    }
    assert(p.last() == q.last());
    assert(p[0] == a);
    assert forall|k: int| 0 <= k < q.len() implies p[k + 1] == #[trigger] q[k] by {}
    let first = if a.len() > 0 && a.last() == '\r' {
        a.drop_last()
    } else {
        a
    };
    let left = lines(a + seq!['\n'] + b);
    let right = seq![first] + lines(b);
    assert(left.len() == right.len());
    assert forall|k: int| 0 <= k < left.len() implies left[k] == right[k] by {
        if k > 0 {
            assert(p[k] == q[k - 1]);
        }
    }
    assert(left =~= right);
}

/// Joining puts the separator between the first text and the rest, if there is a rest.
pub proof fn law_joined(first: Seq<char>, rest: Seq<Seq<char>>, sep: Seq<char>)
    ensures
        joined(Seq::empty(), sep) == Seq::<char>::empty(),
        joined(seq![first], sep) == first,
        rest.len() > 0 ==> joined(seq![first] + rest, sep) == first + sep + joined(rest, sep),
    decreases rest.len(),
{
    if rest.len() > 0 {
        let all = seq![first] + rest;
        assert(all.drop_last() =~= seq![first] + rest.drop_last());
        assert(all.last() == rest.last());
        if rest.len() == 1 {
            assert(all.drop_last() =~= seq![first]);
        } else {
            law_joined(first, rest.drop_last(), sep);
            assert(first + sep + joined(rest.drop_last(), sep) + sep + rest.last() =~= first + sep
                + (joined(rest.drop_last(), sep) + sep + rest.last()));
        }
    }
}

/// What is not there is not replaced; and where the first of it stands, the new text
/// stands after, and the rest is replaced on its own.
pub proof fn law_replaced(a: Seq<char>, p: Seq<char>, b: Seq<char>, w: Seq<char>)
    requires
        p.len() > 0,
    ensures
        (forall|i: int| !#[trigger] at(a, p, i)) ==> replaced(a, p, w) == a,
        (forall|i: int| 0 <= i < a.len() ==> !#[trigger] at(a + p + b, p, i)) ==> replaced(
            a + p + b,
            p,
            w,
        ) == a + w + replaced(b, p, w),
{
    if forall|i: int| !#[trigger] at(a, p, i) {
        lemma_not_replaced(a, p, w);
    }
    if forall|i: int| 0 <= i < a.len() ==> !#[trigger] at(a + p + b, p, i) {
        lemma_first_replaced(a, p, b, w);
    }
}

proof fn lemma_not_replaced(s: Seq<char>, p: Seq<char>, w: Seq<char>)
    requires
        p.len() > 0,
        forall|i: int| !#[trigger] at(s, p, i),
    ensures
        replaced(s, p, w) == s,
    decreases s.len(),
{
    if s.len() > 0 {
        let less = s.skip(1);
        assert forall|i: int| !#[trigger] at(less, p, i) by {
            if at(less, p, i) {
                assert(less.subrange(i, i + p.len()) =~= s.subrange(i + 1, i + 1 + p.len()));
                assert(at(s, p, i + 1));
            }
        }
        lemma_not_replaced(less, p, w);
        assert(!at(s, p, 0));
        assert(seq![s[0]] + less =~= s);
    }
}

proof fn lemma_first_replaced(a: Seq<char>, p: Seq<char>, b: Seq<char>, w: Seq<char>)
    requires
        p.len() > 0,
        forall|i: int| 0 <= i < a.len() ==> !#[trigger] at(a + p + b, p, i),
    ensures
        replaced(a + p + b, p, w) == a + w + replaced(b, p, w),
    decreases a.len(),
{
    let s = a + p + b;
    if a.len() == 0 {
        assert(s.subrange(0, p.len() as int) =~= p);
        assert(at(s, p, 0));
        assert(s.skip(p.len() as int) =~= b);
        assert(a + w + replaced(b, p, w) =~= w + replaced(b, p, w));
    } else {
        let less = a.skip(1);
        assert(s.skip(1) =~= less + p + b);
        assert forall|i: int| 0 <= i < less.len() implies !#[trigger] at(less + p + b, p, i) by {
            if at(less + p + b, p, i) {
                assert((less + p + b).subrange(i, i + p.len()) =~= s.subrange(
                    i + 1,
                    i + 1 + p.len(),
                ));
                assert(at(s, p, i + 1));
            }
        }
        lemma_first_replaced(less, p, b, w);
        assert(!at(s, p, 0));
        assert(seq![s[0]] + (less + w + replaced(b, p, w)) =~= a + w + replaced(b, p, w));
    }
}

// ---------------------------------------------------------------------------
// Words with one blank between
// ---------------------------------------------------------------------------

/// Whether `s` ends in white space.
spec fn gap_at_end(s: Seq<char>) -> bool {
    s.len() > 0 && white_space(s.last())
}

proof fn lemma_squeezed(s: Seq<char>)
    ensures
        ({
            let words = joined(fields(s), " "@);
            &&& blank(s) ==> fields(s).len() == 0
            &&& !blank(s) ==> fields(s).len() > 0
            &&& forall|k: int|
                0 <= k < fields(s).len() ==> (#[trigger] fields(s)[k]).len() > 0 && !white_space(
                    fields(s)[k][0],
                ) && !white_space(fields(s)[k].last())
            &&& squeezed(s, false) == if blank(s) {
                if s.len() == 0 {
                    Seq::empty()
                } else {
                    " "@
                }
            } else {
                (if white_space(s[0]) {
                    " "@
                } else {
                    Seq::empty()
                }) + words + if gap_at_end(s) {
                    " "@
                } else {
                    Seq::empty()
                }
            }
        }),
    decreases s.len(),
{
    reveal_strlit(" ");
    if s.len() > 0 {
        let less = s.drop_last();
        lemma_squeezed(less);
        let before = fields(less);
        let words = joined(before, " "@);
        let q = squeezed(less, false);
        if less.len() > 0 {
            assert(s[0] == less[0]);
            assert(s[s.len() - 2] == less.last());
        }
        if white_space(s.last()) {
            assert(blank(s) == blank(less)) by {
                if blank(less) {
                    assert forall|k: int| 0 <= k < s.len() implies white_space(#[trigger] s[k]) by {
                        if k < less.len() {
                            assert(less[k] == s[k]);
                        }
                    }
                }
                if blank(s) {
                    assert forall|k: int| 0 <= k < less.len() implies white_space(
                        #[trigger] less[k],
                    ) by {
                        assert(less[k] == s[k]);
                    }
                }
            }
            assert(squeezed(s, false) =~= if blank(s) {
                " "@
            } else {
                (if white_space(s[0]) {
                    " "@
                } else {
                    Seq::empty()
                }) + words + " "@
            });
        } else {
            assert(!blank(s)) by {
                assert(!white_space(s[s.len() - 1]));
            }
            let c = seq![s.last()];
            if less.len() > 0 && !white_space(less.last()) {
                assert(!blank(less)) by {
                    assert(!white_space(less[less.len() - 1]));
                }
                let last = before.last();
                let more = before.drop_last().push(last.push(s.last()));
                assert(fields(s) =~= more);
                assert forall|k: int| 0 <= k < more.len() implies (#[trigger] more[k]).len() > 0
                    && !white_space(more[k][0]) && !white_space(more[k].last()) by {
                    assert(before[k].len() > 0);
                }
                assert(more.drop_last() =~= before.drop_last());
                assert(joined(more, " "@) =~= words + c);
                assert(squeezed(s, false) =~= (if white_space(s[0]) {
                    " "@
                } else {
                    Seq::empty()
                }) + joined(more, " "@) + Seq::empty());
            } else {
                let more = before.push(c);
                assert(fields(s) =~= more);
                assert forall|k: int| 0 <= k < more.len() implies (#[trigger] more[k]).len() > 0
                    && !white_space(more[k][0]) && !white_space(more[k].last()) by {
                    if k < before.len() {
                        assert(before[k].len() > 0);
                    }
                }
                assert(more.drop_last() =~= before);
                if before.len() > 0 {
                    assert(joined(more, " "@) =~= words + " "@ + c);
                } else {
                    assert(joined(more, " "@) =~= c);
                }
                if less.len() > 0 && blank(less) {
                    assert(white_space(less[0]));
                }
                assert(squeezed(s, false) =~= (if white_space(s[0]) {
                    " "@
                } else {
                    Seq::empty()
                }) + joined(more, " "@) + Seq::empty());
            }
        }
    }
}

proof fn lemma_joined_ends(ws: Seq<Seq<char>>)
    requires
        ws.len() > 0,
        forall|k: int|
            0 <= k < ws.len() ==> (#[trigger] ws[k]).len() > 0 && !white_space(ws[k][0])
                && !white_space(ws[k].last()),
    ensures
        joined(ws, " "@).len() > 0,
        !white_space(joined(ws, " "@)[0]),
        !white_space(joined(ws, " "@).last()),
    decreases ws.len(),
{
    assert(ws[ws.len() - 1].len() > 0);
    if ws.len() > 1 {
        let less = ws.drop_last();
        assert forall|k: int| 0 <= k < less.len() implies (#[trigger] less[k]).len() > 0
            && !white_space(less[k][0]) && !white_space(less[k].last()) by {
            assert(less[k] == ws[k]);
        }
        lemma_joined_ends(less);
        let all = joined(ws, " "@);
        assert(all[0] == joined(less, " "@)[0]);
        assert(all.last() == ws.last().last());
    }
}

/// A text is tightened to its words with one blank between each two.
pub proof fn law_tight(s: Seq<char>)
    ensures
        tight(s) == joined(fields(s), " "@),
{
    reveal_strlit(" ");
    lemma_squeezed(s);
    let none = Seq::<char>::empty();
    let words = joined(fields(s), " "@);
    let q = squeezed(s, false);
    if blank(s) {
        law_trimmed(none, none, q);
        assert(none + none + q =~= q);
        assert(words =~= none);
    } else {
        lemma_joined_ends(fields(s));
        let front = if white_space(s[0]) {
            " "@
        } else {
            none
        };
        let back = if gap_at_end(s) {
            " "@
        } else {
            none
        };
        law_trimmed(front, words, back);
    }
}

// ---------------------------------------------------------------------------
// Numbers
// ---------------------------------------------------------------------------

/// The number that a row of digits spells.
pub open spec fn spelt(s: Seq<char>) -> int
    decreases s.len(),
{
    if s.len() == 0 {
        0
    } else {
        spelt(s.drop_last()) * 10 + (s.last() as int - '0' as int)
    }
}

/// A number is written in digits that spell it, without a zero in front.
pub proof fn law_decimal(n: nat)
    ensures
        decimal(n).len() > 0,
        forall|k: int| 0 <= k < decimal(n).len() ==> '0' <= #[trigger] decimal(n)[k] <= '9',
        spelt(decimal(n)) == n,
        decimal(n).len() > 1 ==> decimal(n)[0] != '0',
    decreases n,
{
    let d = decimal(n);
    if n < 10 {
        assert(d.drop_last() =~= Seq::<char>::empty());
        assert(spelt(d.drop_last()) == 0);
    } else {
        let less = decimal(n / 10);
        law_decimal(n / 10);
        assert(d.drop_last() =~= less);
        assert(less[0] == d[0]);
        if less.len() == 1 {
            assert(spelt(less.drop_last()) == 0) by {
                assert(less.drop_last() =~= Seq::<char>::empty());
            }
            assert(less.last() == less[0]);
        }
    }
}

/// One thing is named in the singular, any other number in the plural.
pub proof fn law_plural(n: nat)
    ensures
        plural(n).len() == 0 <==> n == 1,
        n != 1 ==> plural(n) == seq!['s'],
{
    reveal_strlit("");
    reveal_strlit("s");
    assert("s"@ =~= seq!['s']);
}

} // verus!
