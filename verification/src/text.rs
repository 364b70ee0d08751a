//! Text: characters, searching, splitting and joining.
//!
//! A string is modelled by the sequence of its characters, and every function
//! here states its result over that sequence.
use vstd::prelude::*;

verus! {

/// `String::push` adds one character at the end.
pub assume_specification[ String::push ](s: &mut String, c: char)
    ensures
        final(s)@ == old(s)@.push(c),
;

/// `==` of two string slices tells whether they hold the same characters.
pub assume_specification[ <str as PartialEq>::eq ](s: &str, other: &str) -> (res: bool)
    ensures
        res == (s@ == other@),
;

/// `c` has the Unicode property White_Space.
pub open spec fn white_space(c: char) -> bool {
    ||| '\u{9}' <= c && c <= '\u{d}'
    ||| c == ' '
    ||| c == '\u{85}'
    ||| c == '\u{a0}'
    ||| c == '\u{1680}'
    ||| '\u{2000}' <= c && c <= '\u{200a}'
    ||| c == '\u{2028}'
    ||| c == '\u{2029}'
    ||| c == '\u{202f}'
    ||| c == '\u{205f}'
    ||| c == '\u{3000}'
}

/// Whether `c` is white space.
pub fn is_whitespace(c: char) -> (r: bool)
    ensures
        r == white_space(c),
{
    ('\u{9}' <= c && c <= '\u{d}') || c == ' ' || c == '\u{85}' || c == '\u{a0}' || c == '\u{1680}'
        || ('\u{2000}' <= c && c <= '\u{200a}') || c == '\u{2028}' || c == '\u{2029}' || c
        == '\u{202f}' || c == '\u{205f}' || c == '\u{3000}'
}

/// The characters that `char::to_uppercase` yields for `c`.
pub uninterp spec fn upper_chars(c: char) -> Seq<char>;

/// `char::to_uppercase` depends on the character alone; its result is the
/// Unicode uppercase mapping, which may be several characters long.
#[verifier::external_body]
pub(crate) fn uppercase(c: char) -> (r: String)
    ensures
        r@ == upper_chars(c),
{
    c.to_uppercase().to_string()
}

/// The text that the `{:?}` formatting of a string produces.
pub uninterp spec fn debug_text(s: Seq<char>) -> Seq<char>;

/// `{:?}` of a string depends on its characters alone: it is the text in double
/// quotes with special characters escaped. The escapes are left unsaid.
#[verifier::external_body]
pub(crate) fn debug(s: &str) -> (r: String)
    ensures
        r@ == debug_text(s@),
{
    format!("{:?}", s)
}

// ---------------------------------------------------------------------------
// Characters of a string
// ---------------------------------------------------------------------------

/// The characters of `s`, one by one.
pub fn chars_of(s: &str) -> (r: Vec<char>)
    ensures
        r@ == s@,
{
    let mut out: Vec<char> = Vec::new();
    for c in it: s.chars()
        invariant
            out@ =~= it.seq().take(it.index()),
            it.seq() == s@,
    {
        out.push(c);
    }
    out
}

/// The string that holds `v[lo..hi]`.
pub fn string_of(v: &Vec<char>, lo: usize, hi: usize) -> (r: String)
    requires
        lo <= hi <= v.len(),
    ensures
        r@ == v@.subrange(lo as int, hi as int),
{
    let mut out = String::new();
    let mut i: usize = lo;
    while i < hi
        invariant
            lo <= i <= hi <= v.len(),
            out@ =~= v@.subrange(lo as int, i as int),
        decreases hi - i,
    {
        out.push(v[i]);
        i += 1;
    }
    out
}

/// Whether two strings hold the same characters.
pub fn same(a: &str, b: &str) -> (r: bool)
    ensures
        r == (a@ == b@),
{
    PartialEq::eq(a, b)
}

pub fn owned(s: &str) -> (r: String)
    ensures
        r@ == s@,
{
    String::from_str(s)
}

// ---------------------------------------------------------------------------
// Searching
// ---------------------------------------------------------------------------

/// `p` stands in `s` at position `i`.
pub open spec fn at(s: Seq<char>, p: Seq<char>, i: int) -> bool {
    0 <= i && i + p.len() <= s.len() && s.subrange(i, i + p.len()) == p
}

/// `s` starts with `p`.
pub open spec fn begins(s: Seq<char>, p: Seq<char>) -> bool {
    at(s, p, 0)
}

/// `s` ends with `p`.
pub open spec fn ends(s: Seq<char>, p: Seq<char>) -> bool {
    at(s, p, s.len() - p.len())
}

/// `p` stands somewhere in `s`.
pub open spec fn occurs(s: Seq<char>, p: Seq<char>) -> bool {
    exists|i: int| at(s, p, i)
}

/// Whether `p` stands in `s` at position `i`.
pub fn at_chars(s: &Vec<char>, p: &Vec<char>, i: usize) -> (r: bool)
    ensures
        r == at(s@, p@, i as int),
{
    if p.len() > s.len() || i > s.len() - p.len() {
        return false;
    }
    let mut k: usize = 0;
    while k < p.len()
        invariant
            k <= p.len(),
            i + p.len() <= s.len(),
            forall|j: int| 0 <= j < k ==> s@[i + j] == p@[j],
        decreases p.len() - k,
    {
        if s[i + k] != p[k] {
            assert(s@.subrange(i as int, i + p@.len())[k as int] == s@[i + k]);
            return false;
        }
        k += 1;
    }
    assert(s@.subrange(i as int, i + p@.len()) =~= p@);
    true
}

/// The first position from `from` on at which `p` stands in `s`, if any.
pub fn find_from(s: &Vec<char>, p: &Vec<char>, from: usize) -> (r: Option<usize>)
    ensures
        match r {
            Some(i) => from <= i && at(s@, p@, i as int) && (forall|j: int|
                from <= j < i ==> !at(s@, p@, j)),
            None => forall|j: int| from <= j ==> !at(s@, p@, j),
        },
{
    let mut i: usize = from;
    while i < s.len()
        invariant
            from <= i,
            forall|j: int| from <= j < i ==> !at(s@, p@, j),
        decreases s.len() - i,
    {
        if at_chars(s, p, i) {
            return Some(i);
        }
        i += 1;
    }
    if at_chars(s, p, i) {
        return Some(i);
    }
    None
}

pub fn starts_with(s: &str, p: &str) -> (r: bool)
    ensures
        r == begins(s@, p@),
{
    at_chars(&chars_of(s), &chars_of(p), 0)
}

pub fn ends_with(s: &str, p: &str) -> (r: bool)
    ensures
        r == ends(s@, p@),
{
    let cs = chars_of(s);
    let ps = chars_of(p);
    cs.len() >= ps.len() && at_chars(&cs, &ps, cs.len() - ps.len())
}

pub fn contains(s: &str, p: &str) -> (r: bool)
    ensures
        r == occurs(s@, p@),
{
    let cs = chars_of(s);
    let ps = chars_of(p);
    match find_from(&cs, &ps, 0) {
        Some(i) => {
            assert(at(s@, p@, i as int));
            true
        },
        None => false,
    }
}

/// `s` without its first `n` characters.
pub fn skip(s: &str, n: usize) -> (r: String)
    requires
        n <= s@.len(),
    ensures
        r@ == s@.skip(n as int),
{
    let cs = chars_of(s);
    let r = string_of(&cs, n, cs.len());
    assert(r@ =~= s@.skip(n as int));
    r
}

/// What follows the prefix `p` in `s`.
pub open spec fn after_prefix(s: Seq<char>, p: Seq<char>) -> Option<Seq<char>> {
    if begins(s, p) { Some(s.skip(p.len() as int)) } else { None }
}

pub fn strip_prefix(s: &str, p: &str) -> (r: Option<String>)
    ensures
        match r {
            Some(x) => after_prefix(s@, p@) == Some(x@),
            None => after_prefix(s@, p@) is None,
        },
{
    let ps = chars_of(p);
    let cs = chars_of(s);
    if at_chars(&cs, &ps, 0) {
        Some(skip(s, ps.len()))
    } else {
        None
    }
}

/// What stands before the suffix `p` in `s`.
pub open spec fn before_suffix(s: Seq<char>, p: Seq<char>) -> Option<Seq<char>> {
    if ends(s, p) { Some(s.take(s.len() - p.len())) } else { None }
}

pub fn strip_suffix(s: &str, p: &str) -> (r: Option<String>)
    ensures
        match r {
            Some(x) => before_suffix(s@, p@) == Some(x@),
            None => before_suffix(s@, p@) is None,
        },
{
    let ps = chars_of(p);
    let cs = chars_of(s);
    if cs.len() >= ps.len() && at_chars(&cs, &ps, cs.len() - ps.len()) {
        let r = string_of(&cs, 0, cs.len() - ps.len());
        assert(r@ =~= s@.take(s@.len() - p@.len()));
        Some(r)
    } else {
        None
    }
}

pub fn has_char(s: &str, c: char) -> (r: bool)
    ensures
        r == s@.contains(c),
{
    let cs = chars_of(s);
    let mut i: usize = 0;
    while i < cs.len()
        invariant
            i <= cs.len(),
            cs@ == s@,
            forall|j: int| 0 <= j < i ==> s@[j] != c,
        decreases cs.len() - i,
    {
        if cs[i] == c {
            assert(s@[i as int] == c);
            return true;
        }
        i += 1;
    }
    false
}

// ---------------------------------------------------------------------------
// Parts
// ---------------------------------------------------------------------------

/// The parts of `s` between the characters `c`.
pub open spec fn parts(s: Seq<char>, c: char) -> Seq<Seq<char>>
    decreases s.len(),
{
    if s.len() == 0 {
        seq![Seq::empty()]
    } else {
        let before = parts(s.drop_last(), c);
        if s.last() == c {
            before.push(Seq::empty())
        } else {
            before.drop_last().push(before.last().push(s.last()))
        }
    }
}

/// There is always a part, and no part holds the separator.
pub proof fn lemma_parts(s: Seq<char>, c: char)
    ensures
        parts(s, c).len() > 0,
        forall|k: int| 0 <= k < parts(s, c).len() ==> !(#[trigger] parts(s, c)[k]).contains(c),
    decreases s.len(),
{
    if s.len() > 0 {
        lemma_parts(s.drop_last(), c);
        let before = parts(s.drop_last(), c);
        assert forall|k: int| 0 <= k < parts(s, c).len() implies !(#[trigger] parts(
            s,
            c,
        )[k]).contains(c) by {
            if k < before.len() - 1 || (k == before.len() - 1 && s.last() == c) {
                assert(parts(s, c)[k] == before[k]);
            } else if k == before.len() - 1 {
                let x = before.last();
                assert(!x.contains(c));
                assert forall|m: int| 0 <= m < x.push(s.last()).len() implies x.push(
                    s.last(),
                )[m] != c by {
                    if m < x.len() {
                        assert(x[m] != c || x.contains(c));
                    }
                }
            }
        }
    }
}

/// Splits `s` at every `c`, as `str::split` does.
pub fn split(s: &str, c: char) -> (r: Vec<String>)
    ensures
        r.deep_view() == parts(s@, c),
{
    let v = chars_of(s);
    let mut out: Vec<String> = Vec::new();
    let mut part = String::new();
    let mut i: usize = 0;
    assert(v@.take(0) =~= Seq::<char>::empty());
    assert(out.deep_view().push(part@) =~= parts(v@.take(0), c));
    while i < v.len()
        invariant
            i <= v.len(),
            v@ == s@,
            out.deep_view().push(part@) =~= parts(v@.take(i as int), c),
        decreases v.len() - i,
    {
        let ghost before = parts(v@.take(i as int), c);
        assert(v@.take(i + 1).drop_last() =~= v@.take(i as int));
        assert(v@.take(i + 1).last() == v@[i as int]);
        assert(before.last() == part@);
        assert(before.drop_last() =~= out.deep_view());
        if v[i] == c {
            let ghost old_out = out.deep_view();
            let ghost old_part = part@;
            out.push(part);
            assert(out.deep_view() =~= old_out.push(old_part));
            part = String::new();
        } else {
            part.push(v[i]);
        }
        i += 1;
    }
    assert(v@.take(i as int) =~= v@);
    let ghost old_out = out.deep_view();
    let ghost old_part = part@;
    out.push(part);
    assert(out.deep_view() =~= old_out.push(old_part));
    out
}

// ---------------------------------------------------------------------------
// Lines
// ---------------------------------------------------------------------------

/// `s` without one carriage return at its end.
pub open spec fn without_return(s: Seq<char>) -> Seq<char> {
    if s.len() > 0 && s.last() == '\r' {
        s.drop_last()
    } else {
        s
    }
}

/// The lines of `s`, without the line feed, or the carriage return and line
/// feed, that ends them. The end of the last line is optional.
pub open spec fn lines(s: Seq<char>) -> Seq<Seq<char>> {
    let p = parts(s, '\n');
    let whole = Seq::new((p.len() - 1) as nat, |k: int| without_return(p[k]));
    if p.last().len() == 0 {
        whole
    } else {
        whole.push(p.last())
    }
}

fn drop_return(s: &str) -> (r: String)
    ensures
        r@ == without_return(s@),
{
    proof {
        reveal_strlit("\r");
    }
    match strip_suffix(s, "\r") {
        Some(x) => {
            assert(s@.subrange(s@.len() - 1, s@.len() as int)[0] == s@.last());
            assert(x@ =~= s@.drop_last());
            x
        },
        None => {
            assert(s@.len() > 0 && s@.last() == '\r' ==> ends(s@, "\r"@)) by {
                if s@.len() > 0 && s@.last() == '\r' {
                    assert(s@.subrange(s@.len() - 1, s@.len() as int) =~= "\r"@);
                }
            }
            owned(s)
        },
    }
}

/// The lines of `s`, as `str::lines` yields them.
pub fn lines_of(s: &str) -> (r: Vec<String>)
    ensures
        r.deep_view() == lines(s@),
{
    let p = split(s, '\n');
    proof {
        lemma_parts(s@, '\n');
    }
    assert(p@.len() == parts(s@, '\n').len());
    let last = p.len() - 1;
    let mut out: Vec<String> = Vec::new();
    let mut k: usize = 0;
    while k < last
        invariant
            k <= last,
            last == p.len() - 1,
            p.deep_view() == parts(s@, '\n'),
            out@.len() == k,
            forall|j: int| 0 <= j < k ==> #[trigger] out@[j]@ == without_return(p@[j]@),
        decreases last - k,
    {
        out.push(drop_return(p[k].as_str()));
        k += 1;
    }
    assert(p.deep_view().last() == p@[last as int]@);
    if p[last].as_str().unicode_len() > 0 {
        out.push(owned(p[last].as_str()));
    }
    assert(forall|j: int| 0 <= j < last ==> p.deep_view()[j] == p@[j]@);
    assert(out.deep_view() =~= lines(s@));
    out
}

/// The lines `ls`, each with a line feed behind it.
pub open spec fn ended(ls: Seq<Seq<char>>) -> Seq<char>
    decreases ls.len(),
{
    if ls.len() == 0 {
        Seq::empty()
    } else {
        ended(ls.drop_last()) + ls.last() + seq!['\n']
    }
}

pub fn end_lines(ls: &Vec<String>) -> (r: String)
    ensures
        r@ == ended(ls.deep_view()),
{
    let mut out = String::new();
    let mut k: usize = 0;
    while k < ls.len()
        invariant
            k <= ls.len(),
            out@ == ended(ls.deep_view().take(k as int)),
        decreases ls.len() - k,
    {
        assert(ls.deep_view().take(k + 1).drop_last() =~= ls.deep_view().take(k as int));
        out.append(ls[k].as_str());
        out.push('\n');
        assert(out@ =~= ended(ls.deep_view().take(k as int)) + ls@[k as int]@ + seq!['\n']);
        k += 1;
    }
    assert(ls.deep_view().take(k as int) =~= ls.deep_view());
    out
}

/// A separator between two texts parts them.
pub proof fn lemma_parts_between(a: Seq<char>, b: Seq<char>, c: char)
    ensures
        parts(a + seq![c] + b, c) == parts(a, c) + parts(b, c),
    decreases b.len(),
{
    let all = a + seq![c] + b;
    lemma_parts(a, c);
    lemma_parts(b, c);
    if b.len() == 0 {
        assert(all.drop_last() =~= a);
        assert(parts(all, c) =~= parts(a, c) + parts(b, c));
    } else {
        let less = b.drop_last();
        lemma_parts_between(a, less, c);
        lemma_parts(less, c);
        assert(all.drop_last() =~= a + seq![c] + less);
        assert(all.last() == b.last());
        assert(parts(all, c) =~= parts(a, c) + parts(b, c));
    }
}

/// Text without the separator lengthens the last part.
pub proof fn lemma_parts_longer(s: Seq<char>, more: Seq<char>, c: char)
    requires
        !more.contains(c),
    ensures
        parts(s + more, c) == parts(s, c).drop_last().push(parts(s, c).last() + more),
    decreases more.len(),
{
    lemma_parts(s, c);
    if more.len() == 0 {
        assert(s + more =~= s);
        assert(parts(s, c).last() + more =~= parts(s, c).last());
        assert(parts(s, c).drop_last().push(parts(s, c).last()) =~= parts(s, c));
    } else {
        let less = more.drop_last();
        assert(!less.contains(c)) by {
            if less.contains(c) {
                let k = choose|k: int| 0 <= k < less.len() && less[k] == c;
                assert(more[k] == c);
            }
        }
        lemma_parts_longer(s, less, c);
        assert((s + more).drop_last() =~= s + less);
        assert(more.contains(more.last()));
        let before = parts(s + less, c);
        assert(before.drop_last() =~= parts(s, c).drop_last());
        assert((parts(s, c).last() + less).push(more.last()) =~= parts(s, c).last() + more);
        assert((s + more).last() == more.last());
    }
}

/// A text that can stand as one line: no line feed, no carriage return at its
/// end.
pub open spec fn one_line(l: Seq<char>) -> bool {
    !l.contains('\n') && without_return(l) == l
}

pub proof fn lemma_parts_ended(ls: Seq<Seq<char>>)
    requires
        forall|k: int| 0 <= k < ls.len() ==> one_line(#[trigger] ls[k]),
    ensures
        parts(ended(ls), '\n') == ls.push(Seq::empty()),
    decreases ls.len(),
{
    if ls.len() == 0 {
        assert(parts(ended(ls), '\n') =~= ls.push(Seq::empty()));
    } else {
        let less = ls.drop_last();
        assert forall|k: int| 0 <= k < less.len() implies one_line(#[trigger] less[k]) by {
            assert(less[k] == ls[k]);
        }
        lemma_parts_ended(less);
        assert(one_line(ls[ls.len() - 1]));
        lemma_parts_longer(ended(less), ls.last(), '\n');
        let text = ended(less) + ls.last();
        assert(less.push(Seq::empty()).drop_last() =~= less);
        assert(Seq::<char>::empty() + ls.last() =~= ls.last());
        assert(parts(text, '\n') =~= ls);
        assert(ended(ls).drop_last() =~= text);
        assert(ended(ls).last() == '\n');
        assert(parts(ended(ls), '\n') =~= parts(text, '\n').push(Seq::empty()));
    }
}

/// Reading the lines of a text gives back the lines that were written.
pub proof fn lemma_lines_ended(ls: Seq<Seq<char>>)
    requires
        forall|k: int| 0 <= k < ls.len() ==> one_line(#[trigger] ls[k]),
    ensures
        lines(ended(ls)) == ls,
{
    lemma_parts_ended(ls);
    let p = parts(ended(ls), '\n');
    assert(p.last() =~= Seq::<char>::empty());
    assert forall|k: int| 0 <= k < ls.len() implies without_return(p[k]) == ls[k] by {
        assert(one_line(ls[k]));
        assert(p[k] == ls[k]);
    }
    assert(lines(ended(ls)) =~= ls);
}

/// No line holds a line feed, and none ends in a carriage return if the text
/// holds none.
pub proof fn lemma_lines(s: Seq<char>)
    ensures
        forall|k: int| 0 <= k < lines(s).len() ==> !(#[trigger] lines(s)[k]).contains('\n'),
        !s.contains('\r') ==> (forall|k: int|
            0 <= k < lines(s).len() ==> one_line(#[trigger] lines(s)[k])),
{
    let p = parts(s, '\n');
    lemma_parts(s, '\n');
    lemma_parts_within(s, '\n', '\r');
    assert forall|k: int| 0 <= k < lines(s).len() implies !(#[trigger] lines(s)[k]).contains(
        '\n',
    ) by {
        let l = lines(s)[k];
        assert(!p[k].contains('\n'));
        if l.contains('\n') {
            let m = choose|m: int| 0 <= m < l.len() && l[m] == '\n';
            assert(p[k][m] == '\n');
        }
    }
    if !s.contains('\r') {
        assert forall|k: int| 0 <= k < lines(s).len() implies one_line(#[trigger] lines(s)[k]) by {
            let l = lines(s)[k];
            assert(!p[k].contains('\r'));
            assert(!l.contains('\n'));
            if p[k].len() > 0 {
                assert(p[k].contains(p[k].last()));
            }
        }
    }
}

/// A character that a text does not hold is in none of its parts.
pub proof fn lemma_parts_within(s: Seq<char>, c: char, d: char)
    ensures
        !s.contains(d) ==> (forall|k: int|
            0 <= k < parts(s, c).len() ==> !(#[trigger] parts(s, c)[k]).contains(d)),
    decreases s.len(),
{
    if s.len() > 0 && !s.contains(d) {
        let less = s.drop_last();
        let before = parts(less, c);
        lemma_parts(less, c);
        lemma_parts_within(less, c, d);
        assert(!less.contains(d)) by {
            if less.contains(d) {
                let k = choose|k: int| 0 <= k < less.len() && less[k] == d;
                assert(s[k] == d);
            }
        }
        assert(s.contains(s.last()));
        assert forall|k: int| 0 <= k < parts(s, c).len() implies !(#[trigger] parts(
            s,
            c,
        )[k]).contains(d) by {
            let x = parts(s, c)[k];
            if k < before.len() {
                assert(!before[k].contains(d));
            }
            if x.contains(d) {
                let m = choose|m: int| 0 <= m < x.len() && x[m] == d;
                if k < before.len() && m < before[k].len() {
                    assert(before[k][m] == d);
                }
            }
        }
    }
}

/// The longest stretches of `s` without white space.
pub open spec fn fields(s: Seq<char>) -> Seq<Seq<char>>
    decreases s.len(),
{
    if s.len() == 0 {
        Seq::empty()
    } else {
        let before = fields(s.drop_last());
        if white_space(s.last()) {
            before
        } else if s.len() > 1 && !white_space(s[s.len() - 2]) {
            before.drop_last().push(before.last().push(s.last()))
        } else {
            before.push(seq![s.last()])
        }
    }
}

/// Splits `s` at white space, as `str::split_whitespace` does.
pub fn split_whitespace(s: &str) -> (r: Vec<String>)
    ensures
        r.deep_view() == fields(s@),
{
    let v = chars_of(s);
    let mut out: Vec<String> = Vec::new();
    let mut word = String::new();
    let mut open = false;
    let mut i: usize = 0;
    assert(out.deep_view() =~= fields(v@.take(0)));
    while i < v.len()
        invariant
            i <= v.len(),
            v@ == s@,
            open == (i > 0 && !white_space(v@[i - 1])),
            open ==> out.deep_view().push(word@) =~= fields(v@.take(i as int)),
            !open ==> out.deep_view() =~= fields(v@.take(i as int)) && word@.len() == 0,
        decreases v.len() - i,
    {
        let ghost now = v@.take(i + 1);
        assert(now.drop_last() =~= v@.take(i as int));
        assert(now.last() == v@[i as int]);
        assert(i > 0 ==> now[now.len() - 2] == v@[i - 1]);
        let ghost done = out.deep_view();
        let ghost text = word@;
        if is_whitespace(v[i]) {
            if open {
                out.push(word);
                assert(out.deep_view() =~= done.push(text));
                word = String::new();
                open = false;
            }
        } else {
            word.push(v[i]);
            if open {
                assert(fields(v@.take(i as int)).drop_last() =~= done);
                assert(fields(v@.take(i as int)).last() == text);
            } else {
                assert(word@ =~= seq![v@[i as int]]);
            }
            open = true;
        }
        i += 1;
    }
    assert(v@.take(i as int) =~= v@);
    if open {
        let ghost done = out.deep_view();
        let ghost text = word@;
        out.push(word);
        assert(out.deep_view() =~= done.push(text));
    }
    out
}

/// `s` with `w` in place of each `p`, from the left, where they do not overlap.
pub open spec fn replaced(s: Seq<char>, p: Seq<char>, w: Seq<char>) -> Seq<char>
    decreases s.len(),
{
    if p.len() == 0 || s.len() == 0 {
        s
    } else if at(s, p, 0) {
        w + replaced(s.skip(p.len() as int), p, w)
    } else {
        seq![s[0]] + replaced(s.skip(1), p, w)
    }
}

/// Puts `w` in place of each `p`, as `str::replace` does.
pub fn replace(s: &str, p: &str, w: &str) -> (r: String)
    requires
        p@.len() > 0,
    ensures
        r@ == replaced(s@, p@, w@),
{
    let v = chars_of(s);
    let q = chars_of(p);
    let mut out = String::new();
    let mut i: usize = 0;
    assert(v@.skip(0) =~= v@);
    assert(out@ + replaced(v@, p@, w@) =~= replaced(s@, p@, w@));
    while i < v.len()
        invariant
            i <= v.len(),
            v@ == s@,
            q@ == p@,
            p@.len() > 0,
            out@ + replaced(v@.skip(i as int), p@, w@) =~= replaced(s@, p@, w@),
        decreases v.len() - i,
    {
        let ghost rest = v@.skip(i as int);
        assert(at(v@, q@, i as int) == at(rest, q@, 0)) by {
            if at(v@, q@, i as int) {
                assert(v@.subrange(i as int, i + q@.len()) =~= rest.subrange(0, q@.len() as int));
            }
            if at(rest, q@, 0) {
                assert(v@.subrange(i as int, i + q@.len()) =~= rest.subrange(0, q@.len() as int));
            }
        }
        if at_chars(&v, &q, i) {
            assert(rest.skip(q@.len() as int) =~= v@.skip(i + q@.len()));
            out.append(w);
            i += q.len();
        } else {
            assert(rest.skip(1) =~= v@.skip(i + 1));
            out.push(v[i]);
            i += 1;
        }
    }
    assert(v@.skip(i as int) =~= Seq::<char>::empty());
    out
}

/// `s` without the spaces that printing tokens puts around punctuation.
pub open spec fn tight_type(s: Seq<char>) -> Seq<char> {
    let a = replaced(s, " < "@, "<"@);
    let b = replaced(a, " > "@, ">"@);
    let c = replaced(b, "< "@, "<"@);
    let d = replaced(c, " >"@, ">"@);
    let e = replaced(d, " , "@, ", "@);
    replaced(e, " :: "@, "::"@)
}

/// Takes the spaces out of a type as tokens print it: `Vec < String >`, `T :: U`.
pub fn tighten_type(s: &str) -> (r: String)
    ensures
        r@ == tight_type(s@),
{
    proof {
        reveal_strlit(" < ");
        reveal_strlit(" > ");
        reveal_strlit("< ");
        reveal_strlit(" >");
        reveal_strlit(" , ");
        reveal_strlit(" :: ");
    }
    let a = replace(s, " < ", "<");
    let b = replace(a.as_str(), " > ", ">");
    let c = replace(b.as_str(), "< ", "<");
    let d = replace(c.as_str(), " >", ">");
    let e = replace(d.as_str(), " , ", ", ");
    replace(e.as_str(), " :: ", "::")
}

// ---------------------------------------------------------------------------
// Character by character
// ---------------------------------------------------------------------------

/// `s` with every `c` left out.
pub open spec fn without(s: Seq<char>, c: char) -> Seq<char>
    decreases s.len(),
{
    if s.len() == 0 {
        s
    } else if s.last() == c {
        without(s.drop_last(), c)
    } else {
        without(s.drop_last(), c).push(s.last())
    }
}

pub fn remove_char(s: &str, c: char) -> (r: String)
    ensures
        r@ == without(s@, c),
{
    let cs = chars_of(s);
    let mut out = String::new();
    let mut i: usize = 0;
    while i < cs.len()
        invariant
            i <= cs.len(),
            out@ == without(cs@.take(i as int), c),
        decreases cs.len() - i,
    {
        assert(cs@.take(i + 1).drop_last() =~= cs@.take(i as int));
        if cs[i] != c {
            out.push(cs[i]);
        }
        i += 1;
    }
    assert(cs@.take(i as int) =~= s@);
    out
}

/// The lower case of an ASCII letter; any other character as it is.
pub open spec fn ascii_lower(c: char) -> char {
    if 'A' <= c && c <= 'Z' {
        ((c as u32) + 32) as char
    } else {
        c
    }
}

pub open spec fn lower(s: Seq<char>) -> Seq<char> {
    s.map_values(|c: char| ascii_lower(c))
}

pub fn lower_char(c: char) -> (r: char)
    ensures
        r == ascii_lower(c),
{
    if 'A' <= c && c <= 'Z' {
        ((c as u8) + 32) as char
    } else {
        c
    }
}

pub fn to_lower(s: &str) -> (r: String)
    ensures
        r@ == lower(s@),
{
    let cs = chars_of(s);
    let mut out = String::new();
    let mut i: usize = 0;
    while i < cs.len()
        invariant
            i <= cs.len(),
            cs@ == s@,
            out@ =~= lower(s@).take(i as int),
        decreases cs.len() - i,
    {
        out.push(lower_char(cs[i]));
        i += 1;
    }
    assert(lower(s@).take(i as int) =~= lower(s@));
    out
}

/// `s` starts with an ASCII upper case letter.
pub open spec fn capital(s: Seq<char>) -> bool {
    s.len() > 0 && 'A' <= s[0] && s[0] <= 'Z'
}

pub fn is_capital(s: &str) -> (r: bool)
    ensures
        r == capital(s@),
{
    if s.unicode_len() == 0 {
        return false;
    }
    let c = s.get_char(0);
    'A' <= c && c <= 'Z'
}

// ---------------------------------------------------------------------------
// White space
// ---------------------------------------------------------------------------

pub open spec fn trim_start(s: Seq<char>) -> Seq<char>
    decreases s.len(),
{
    if s.len() > 0 && white_space(s.first()) {
        trim_start(s.drop_first())
    } else {
        s
    }
}

pub open spec fn trim_end(s: Seq<char>) -> Seq<char>
    decreases s.len(),
{
    if s.len() > 0 && white_space(s.last()) {
        trim_end(s.drop_last())
    } else {
        s
    }
}

/// `s` without the white space at its two ends.
pub open spec fn trimmed(s: Seq<char>) -> Seq<char> {
    trim_end(trim_start(s))
}

/// The position in `s` at which the text without leading white space starts.
pub fn start_of(s: &Vec<char>) -> (r: usize)
    ensures
        r <= s.len(),
        trim_start(s@) == s@.skip(r as int),
{
    let mut i: usize = 0;
    assert(s@.skip(0) =~= s@);
    while i < s.len()
        invariant
            i <= s.len(),
            trim_start(s@) == trim_start(s@.skip(i as int)),
        decreases s.len() - i,
    {
        if !is_whitespace(s[i]) {
            return i;
        }
        assert(s@.skip(i as int).drop_first() =~= s@.skip(i + 1));
        i += 1;
    }
    i
}

/// The position in `s` after which only white space stands, not before `lo`.
pub fn end_of(s: &Vec<char>, lo: usize) -> (r: usize)
    requires
        lo <= s.len(),
    ensures
        lo <= r <= s.len(),
        trim_end(s@.subrange(lo as int, s@.len() as int)) == s@.subrange(lo as int, r as int),
{
    let mut i: usize = s.len();
    while i > lo
        invariant
            lo <= i <= s.len(),
            trim_end(s@.subrange(lo as int, s@.len() as int)) == trim_end(
                s@.subrange(lo as int, i as int),
            ),
        decreases i,
    {
        if !is_whitespace(s[i - 1]) {
            return i;
        }
        assert(s@.subrange(lo as int, i as int).drop_last() =~= s@.subrange(lo as int, i - 1));
        i -= 1;
    }
    i
}

pub fn trim(s: &str) -> (r: String)
    ensures
        r@ == trimmed(s@),
{
    let cs = chars_of(s);
    let lo = start_of(&cs);
    let hi = end_of(&cs, lo);
    assert(cs@.skip(lo as int) =~= cs@.subrange(lo as int, cs@.len() as int));
    string_of(&cs, lo, hi)
}

/// `s` without the white space at its start.
pub fn trim_front(s: &str) -> (r: String)
    ensures
        r@ == trim_start(s@),
{
    let cs = chars_of(s);
    let lo = start_of(&cs);
    let r = string_of(&cs, lo, cs.len());
    assert(r@ =~= s@.skip(lo as int));
    r
}

/// `s` without the characters `c` at its start.
pub open spec fn strip_front(s: Seq<char>, c: char) -> Seq<char>
    decreases s.len(),
{
    if s.len() > 0 && s[0] == c {
        strip_front(s.drop_first(), c)
    } else {
        s
    }
}

/// `s` without the characters `c` at its end.
pub open spec fn strip_back(s: Seq<char>, c: char) -> Seq<char>
    decreases s.len(),
{
    if s.len() > 0 && s.last() == c {
        strip_back(s.drop_last(), c)
    } else {
        s
    }
}

/// `s` without the characters `c` at its ends, as `str::trim_matches` gives it.
pub fn strip(s: &str, c: char) -> (r: String)
    ensures
        r@ == strip_back(strip_front(s@, c), c),
{
    let v = chars_of(s);
    let mut lo: usize = 0;
    assert(v@.skip(0) =~= v@);
    while lo < v.len() && v[lo] == c
        invariant
            lo <= v.len(),
            v@ == s@,
            strip_front(s@, c) == strip_front(v@.skip(lo as int), c),
        decreases v.len() - lo,
    {
        assert(v@.skip(lo as int).drop_first() =~= v@.skip(lo + 1));
        lo += 1;
    }
    let ghost front = strip_front(s@, c);
    let mut hi: usize = v.len();
    assert(front =~= v@.subrange(lo as int, hi as int));
    while hi > lo && v[hi - 1] == c
        invariant
            lo <= hi <= v.len(),
            strip_back(front, c) == strip_back(v@.subrange(lo as int, hi as int), c),
        decreases hi,
    {
        assert(v@.subrange(lo as int, hi as int).drop_last() =~= v@.subrange(lo as int, hi - 1));
        hi -= 1;
    }
    string_of(&v, lo, hi)
}

/// Whether `c` counts as a gap: white space and, if `blank`, the space itself.
pub open spec fn is_gap(c: char, blank: bool) -> bool {
    white_space(c) || (blank && c == ' ')
}

/// `s` with every run of gaps replaced by one space.
pub open spec fn squeezed(s: Seq<char>, blank: bool) -> Seq<char>
    decreases s.len(),
{
    if s.len() == 0 {
        s
    } else {
        let before = squeezed(s.drop_last(), blank);
        if !is_gap(s.last(), blank) {
            before.push(s.last())
        } else if s.len() > 1 && is_gap(s[s.len() - 2], blank) {
            before
        } else {
            before.push(' ')
        }
    }
}

/// `s` with every run of gaps replaced by one space, and none at its ends.
pub fn squeeze(s: &str, blank: bool) -> (r: String)
    ensures
        r@ == trimmed(squeezed(s@, blank)),
{
    let cs = chars_of(s);
    let mut out = String::new();
    let mut last_gap = false;
    let mut i: usize = 0;
    while i < cs.len()
        invariant
            i <= cs.len(),
            cs@ == s@,
            out@ == squeezed(s@.take(i as int), blank),
            last_gap == (i > 0 && is_gap(s@[i - 1], blank)),
        decreases cs.len() - i,
    {
        assert(s@.take(i + 1).drop_last() =~= s@.take(i as int));
        let c = cs[i];
        if is_whitespace(c) || (blank && c == ' ') {
            if !last_gap {
                out.push(' ');
            }
            last_gap = true;
        } else {
            out.push(c);
            last_gap = false;
        }
        i += 1;
    }
    assert(s@.take(i as int) =~= s@);
    trim(out.as_str())
}

/// `s` with every run of white space replaced by one space, and none at its ends.
pub open spec fn tight(s: Seq<char>) -> Seq<char> {
    trimmed(squeezed(s, false))
}

pub fn tighten_ws(s: &str) -> (r: String)
    ensures
        r@ == tight(s@),
{
    squeeze(s, false)
}

// ---------------------------------------------------------------------------
// Joining
// ---------------------------------------------------------------------------

pub fn cat2(a: &str, b: &str) -> (r: String)
    ensures
        r@ == a@ + b@,
{
    let mut s = String::from_str(a);
    s.append(b);
    s
}

pub fn cat3(a: &str, b: &str, c: &str) -> (r: String)
    ensures
        r@ == a@ + b@ + c@,
{
    let mut s = cat2(a, b);
    s.append(c);
    s
}

pub fn cat4(a: &str, b: &str, c: &str, d: &str) -> (r: String)
    ensures
        r@ == a@ + b@ + c@ + d@,
{
    let mut s = cat3(a, b, c);
    s.append(d);
    s
}

pub fn cat5(a: &str, b: &str, c: &str, d: &str, e: &str) -> (r: String)
    ensures
        r@ == a@ + b@ + c@ + d@ + e@,
{
    let mut s = cat4(a, b, c, d);
    s.append(e);
    s
}

pub fn cat6(a: &str, b: &str, c: &str, d: &str, e: &str, f: &str) -> (r: String)
    ensures
        r@ == a@ + b@ + c@ + d@ + e@ + f@,
{
    let mut s = cat5(a, b, c, d, e);
    s.append(f);
    s
}

/// The parts one after the other, with `sep` between two neighbours.
pub open spec fn joined(parts: Seq<Seq<char>>, sep: Seq<char>) -> Seq<char>
    decreases parts.len(),
{
    if parts.len() == 0 {
        Seq::empty()
    } else if parts.len() == 1 {
        parts[0]
    } else {
        joined(parts.drop_last(), sep) + sep + parts.last()
    }
}

pub fn join(parts: &Vec<String>, sep: &str) -> (r: String)
    ensures
        r@ == joined(parts.deep_view(), sep@),
{
    let mut out = String::new();
    let mut i: usize = 0;
    while i < parts.len()
        invariant
            i <= parts.len(),
            out@ == joined(parts.deep_view().take(i as int), sep@),
        decreases parts.len() - i,
    {
        assert(parts.deep_view().take(i + 1).drop_last() =~= parts.deep_view().take(i as int));
        if i > 0 {
            out.append(sep);
            out.append(parts[i].as_str());
        } else {
            out.append(parts[i].as_str());
            assert(out@ =~= parts@[0]@);
        }
        i += 1;
    }
    assert(parts.deep_view().take(i as int) =~= parts.deep_view());
    out
}

/// Splitting at line feeds undoes joining with them.
pub proof fn lemma_parts_joined(ls: Seq<Seq<char>>)
    requires
        ls.len() > 0,
        forall|k: int| 0 <= k < ls.len() ==> !(#[trigger] ls[k]).contains('\n'),
    ensures
        parts(joined(ls, "\n"@), '\n') == ls,
    decreases ls.len(),
{
    reveal_strlit("\n");
    assert(!ls[ls.len() - 1].contains('\n'));
    if ls.len() == 1 {
        let none = Seq::<char>::empty();
        lemma_parts_longer(none, ls[0], '\n');
        assert(none + ls[0] =~= ls[0]);
        assert(parts(ls[0], '\n') =~= ls);
    } else {
        let less = ls.drop_last();
        assert forall|k: int| 0 <= k < less.len() implies !(#[trigger] less[k]).contains('\n') by {
            assert(less[k] == ls[k]);
        }
        lemma_parts_joined(less);
        let text = joined(less, "\n"@) + "\n"@;
        assert(text.drop_last() =~= joined(less, "\n"@));
        assert(text.last() == '\n');
        assert(parts(text, '\n') =~= less.push(Seq::empty()));
        lemma_parts_longer(text, ls.last(), '\n');
        assert(less.push(Seq::empty()).drop_last() =~= less);
        assert(Seq::<char>::empty() + ls.last() =~= ls.last());
        assert(less.push(ls.last()) =~= ls);
    }
}

/// The ending of a noun that is counted `n` times.
pub open spec fn plural(n: nat) -> Seq<char> {
    if n == 1 {
        ""@
    } else {
        "s"@
    }
}

pub fn plural_of(n: usize) -> (r: &'static str)
    ensures
        r@ == plural(n as nat),
{
    if n == 1 {
        ""
    } else {
        "s"
    }
}

// ---------------------------------------------------------------------------
// Numbers
// ---------------------------------------------------------------------------

pub open spec fn digit(d: int) -> char {
    (48 + d) as char
}

/// `n` in decimal digits, without leading zeros.
pub open spec fn decimal(n: nat) -> Seq<char>
    decreases n,
{
    if n < 10 {
        seq![digit(n as int)]
    } else {
        decimal(n / 10).push(digit((n % 10) as int))
    }
}

pub fn decimal_u64(n: u64) -> (r: String)
    ensures
        r@ == decimal(n as nat),
    decreases n,
{
    let d: u8 = (n % 10) as u8;
    let c: char = (48 + d) as char;
    if n < 10 {
        let mut s = String::new();
        s.push(c);
        assert(s@ =~= seq![digit(n as int)]);
        s
    } else {
        let mut s = decimal_u64(n / 10);
        s.push(c);
        s
    }
}

pub fn decimal_usize(n: usize) -> (r: String)
    ensures
        r@ == decimal(n as nat),
{
    decimal_u64(n as u64)
}

} // verus!
