//! Names that `rsx!` shows: its identifiers, and those in braces in its strings.
use vstd::prelude::*;

use crate::order::{gather, put, put_all};
use crate::scan::{inside, is_rsx, reach, rsx_at};
use crate::tape::{stop_of, Kind, Node};
use crate::text::{chars_of, owned, string_of};

verus! {

/// The first position from `i` on at which `p` holds; the length if there is none.
pub open spec fn first_at(s: Seq<char>, i: int, p: spec_fn(char) -> bool) -> int
    decreases s.len() - i,
{
    if i < 0 || i >= s.len() {
        s.len() as int
    } else if p(s[i]) {
        i
    } else {
        first_at(s, i + 1, p)
    }
}

pub proof fn lemma_first_at(s: Seq<char>, i: int, p: spec_fn(char) -> bool)
    requires
        0 <= i <= s.len(),
    ensures
        i <= first_at(s, i, p) <= s.len(),
    decreases s.len() - i,
{
    if i < s.len() && !p(s[i]) {
        lemma_first_at(s, i + 1, p);
    }
}

pub open spec fn closes() -> spec_fn(char) -> bool {
    |c: char| c == '}'
}

pub open spec fn ends_name() -> spec_fn(char) -> bool {
    |c: char| c == '}' || c == ':' || c == '.' || c == '(' || c == ' '
}

/// A single opening brace stands at `i`.
pub open spec fn opens(s: Seq<char>, i: int) -> bool {
    s[i] == '{' && (i + 1 >= s.len() || s[i + 1] != '{')
}

/// The names in braces in a string from position `i` on: what stands between a
/// single `{` and the next of `}`, `:`, `.`, `(` and a space.
pub open spec fn interpolated(s: Seq<char>, i: int) -> Seq<Seq<char>>
    decreases s.len() + 1 - i,
{
    if i < 0 || i >= s.len() {
        Seq::empty()
    } else if opens(s, i) {
        let end = first_at(s, i + 1, ends_name());
        let name = if end > i + 1 {
            seq![s.subrange(i + 1, end)]
        } else {
            Seq::empty()
        };
        proof {
            lemma_first_at(s, i + 1, closes());
        }
        name + interpolated(s, first_at(s, i + 1, closes()) + 1)
    } else {
        interpolated(s, i + 1)
    }
}

fn first_name_end(s: &Vec<char>, i: usize) -> (r: usize)
    requires
        i <= s.len(),
    ensures
        r == first_at(s@, i as int, ends_name()),
        i <= r <= s.len(),
{
    let mut k: usize = i;
    while k < s.len() && s[k] != '}' && s[k] != ':' && s[k] != '.' && s[k] != '(' && s[k] != ' '
        invariant
            i <= k <= s.len(),
            first_at(s@, i as int, ends_name()) == first_at(s@, k as int, ends_name()),
        decreases s.len() - k,
    {
        k += 1;
    }
    k
}

fn first_close(s: &Vec<char>, i: usize) -> (r: usize)
    requires
        i <= s.len(),
    ensures
        r == first_at(s@, i as int, closes()),
        i <= r <= s.len(),
{
    let mut k: usize = i;
    while k < s.len() && s[k] != '}'
        invariant
            i <= k <= s.len(),
            first_at(s@, i as int, closes()) == first_at(s@, k as int, closes()),
        decreases s.len() - k,
    {
        k += 1;
    }
    k
}

/// The names in braces in the text of a string.
pub fn interpolated_names(s: &str) -> (r: Vec<String>)
    ensures
        r.deep_view() == interpolated(s@, 0),
{
    let cs = chars_of(s);
    let ghost all = interpolated(s@, 0);
    let mut out: Vec<String> = Vec::new();
    let mut i: usize = 0;
    assert(out.deep_view() + all =~= all);
    while i < cs.len()
        invariant
            cs@ == s@,
            out.deep_view() + interpolated(s@, i as int) =~= all,
        decreases cs.len() - i,
    {
        if cs[i] == '{' && (i + 1 >= cs.len() || cs[i + 1] != '{') {
            let end = first_name_end(&cs, i + 1);
            if end > i + 1 {
                put(&mut out, string_of(&cs, i + 1, end));
            }
            let close = first_close(&cs, i + 1);
            if close == cs.len() {
                assert(interpolated(s@, close + 1) =~= Seq::<Seq<char>>::empty());
                i = close;
            } else {
                i = close + 1;
            }
        } else {
            i += 1;
        }
    }
    out
}

/// The names that token `j` shows. A string literal is taken between its quotes.
pub open spec fn shown_by(t: Seq<Node>, j: int) -> Seq<Seq<char>> {
    let s = t[j].name@;
    if t[j].kind == Kind::TokIdent {
        seq![s]
    } else if t[j].kind == Kind::TokLit && s.len() >= 2 && s[0] == '"' && s[s.len() - 1] == '"' {
        interpolated(s.subrange(1, s.len() - 1), 0)
    } else {
        Seq::empty()
    }
}

fn shown_by_of(t: &Vec<Node>, j: usize) -> (r: Vec<String>)
    requires
        j < t.len(),
    ensures
        r.deep_view() == shown_by(t@, j as int),
{
    let mut out: Vec<String> = Vec::new();
    match t[j].kind {
        Kind::TokIdent => {
            put(&mut out, owned(t[j].name.as_str()));
        },
        Kind::TokLit => {
            let cs = chars_of(t[j].name.as_str());
            if cs.len() >= 2 && cs[0] == '"' && cs[cs.len() - 1] == '"' {
                return interpolated_names(string_of(&cs, 1, cs.len() - 1).as_str());
            }
        },
        _ => {},
    }
    assert(out.deep_view() =~= shown_by(t@, j as int));
    out
}

pub open spec fn shown_at(t: Seq<Node>, lo: int) -> spec_fn(int) -> Seq<Seq<char>> {
    |j: int|
        if inside(t, lo, j, rsx_at(t)) {
            shown_by(t, j)
        } else {
            Seq::empty()
        }
}

/// The names that the calls of `rsx` between `lo` and `hi` show.
pub open spec fn shown(t: Seq<Node>, lo: int, hi: int) -> Seq<Seq<char>> {
    gather(lo, hi, shown_at(t, lo))
}

pub fn rsx_interpolated_names(t: &Vec<Node>, lo: usize, hi: usize) -> (r: Vec<String>)
    requires
        lo <= hi <= t.len(),
    ensures
        r.deep_view() == shown(t@, lo as int, hi as int),
{
    let mut out: Vec<String> = Vec::new();
    let mut until: usize = lo;
    let mut j: usize = lo;
    while j < hi
        invariant
            lo <= j <= hi <= t.len(),
            until == reach(t@, lo as int, j as int, rsx_at(t@)),
            out.deep_view() == gather(lo as int, j as int, shown_at(t@, lo as int)),
        decreases hi - j,
    {
        if j < until {
            put_all(&mut out, shown_by_of(t, j));
        }
        if is_rsx(t, j) {
            let end = stop_of(t, j);
            if end > until {
                until = end;
            }
        }
        j += 1;
    }
    out
}

} // verus!
