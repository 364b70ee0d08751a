//! The `mod.rs` of a directory: its entries, sorted and kept once each.
use vstd::prelude::*;

use crate::order::{
    Ranked, in_order, law_sorted, lemma_sorted_again, lemma_text_le, only_if, put, put_all, rank,
    sort, sorted, text_le, text_leq,
};
use crate::text::{
    after_prefix, before_suffix, begins, end_lines, ended, lemma_lines_ended, lines,
    lines_of, one_line, owned, same, starts_with, strip_prefix, strip_suffix, trim, trimmed,
    white_space,
};

verus! {

/// The line that declares a module.
pub open spec fn mod_line(name: Seq<char>) -> Seq<char> {
    "pub mod "@
        + name
        + ";"@
}

pub fn mod_line_of(name: &str) -> (r: String)
    ensures
        r@ == mod_line(name@),
{
    let mut s = owned("pub mod ");
    s.append(name);
    s.append(";");
    s
}

/// The line that exports what a module holds.
pub open spec fn use_line(name: Seq<char>) -> Seq<char> {
    "pub use "@
        + name
        + "::*;"@
}

fn use_line_of(name: &str) -> (r: String)
    ensures
        r@ == use_line(name@),
{
    let mut s = owned("pub use ");
    s.append(name);
    s.append("::*;");
    s
}


// ---------------------------------------------------------------------------
// The lines of a `mod.rs`
// ---------------------------------------------------------------------------

/// The line that silences warnings on unused imports.
pub open spec fn shield() -> Seq<char> {
    "#![allow(unused_imports)]"@
}

pub open spec fn shielding(l: Seq<char>) -> bool {
    trimmed(l) == shield()
}

/// A line that makes the next one depend on a feature.
pub open spec fn gating(l: Seq<char>) -> bool {
    !shielding(l) && begins(trimmed(l), "#[cfg("@)
}

/// `name` in `front name back`.
pub open spec fn between(l: Seq<char>, front: Seq<char>, back: Seq<char>) -> Option<Seq<char>> {
    match after_prefix(l, front) {
        Some(x) => before_suffix(x, back),
        None => None,
    }
}

fn between_of(l: &str, front: &str, back: &str) -> (r: Option<String>)
    ensures
        r.deep_view() == between(l@, front@, back@),
{
    match strip_prefix(l, front) {
        Some(x) => strip_suffix(x.as_str(), back),
        None => None,
    }
}

/// The module that a line declares or exports.
pub open spec fn entry(l: Seq<char>) -> Option<Seq<char>> {
    if shielding(l) || gating(l) {
        None
    } else {
        match between(trimmed(l), "pub mod "@, ";"@) {
            Some(n) => Some(n),
            None => between(trimmed(l), "pub use "@, "::*;"@),
        }
    }
}

/// What a line of a `mod.rs` is.
#[derive(Debug)]
pub enum Role {
    Shield,
    Gate,
    Entry(String),
    Other,
}

/// Tells what the line `l` is.
pub fn role_of(l: &str) -> (r: Role)
    ensures
        match r {
            Role::Shield => shielding(l@),
            Role::Gate => gating(l@),
            Role::Entry(n) => entry(l@) == Some(n@),
            Role::Other => !shielding(l@) && !gating(l@) && entry(l@) is None,
        },
{
    let t = trim(l);
    if same(t.as_str(), "#![allow(unused_imports)]") {
        return Role::Shield;
    }
    if starts_with(t.as_str(), "#[cfg(") {
        return Role::Gate;
    }
    match between_of(t.as_str(), "pub mod ", ";") {
        Some(n) => return Role::Entry(n),
        None => {},
    }
    match between_of(t.as_str(), "pub use ", "::*;") {
        Some(n) => Role::Entry(n),
        None => Role::Other,
    }
}

/// A line that declares or exports the module `name`.
#[derive(Debug)]
pub struct ModLine {
    pub name: String,
    pub raw: String,
}

pub ghost struct ModLineView {
    pub name: Seq<char>,
    pub raw: Seq<char>,
}

impl DeepView for ModLine {
    type V = ModLineView;

    open spec fn deep_view(&self) -> ModLineView {
        ModLineView {
            name: self.name@,
            raw: self.raw@,
        }
    }
}

impl Ranked for ModLine {
    /// By the name of the module.
    open spec fn le(a: ModLineView, b: ModLineView) -> bool {
        text_le(a.name, b.name)
    }

    proof fn ordered(a: ModLineView, b: ModLineView, c: ModLineView) {
        lemma_text_le(a.name, b.name, c.name);
    }

    fn leq(&self, other: &Self) -> (r: bool) {
        text_leq(self.name.as_str(), other.name.as_str())
    }
}

/// The lines that are neither the shield nor a gate nor an entry.
pub open spec fn header(ls: Seq<Seq<char>>) -> Seq<Seq<char>>
    decreases ls.len(),
{
    if ls.len() == 0 {
        Seq::empty()
    } else if shielding(ls.last()) || gating(ls.last()) || entry(ls.last()) is Some {
        header(ls.drop_last())
    } else {
        header(ls.drop_last()).push(ls.last())
    }
}

/// The lines that declare or export a module, in the order of the file.
pub open spec fn entries(ls: Seq<Seq<char>>) -> Seq<ModLineView>
    decreases ls.len(),
{
    if ls.len() == 0 {
        Seq::empty()
    } else {
        match entry(ls.last()) {
            Some(n) => entries(ls.drop_last()).push(ModLineView { name: n, raw: ls.last() }),
            None => entries(ls.drop_last()),
        }
    }
}

/// Reads the lines of a `mod.rs`: its header and its entries.
fn read_lines(ls: &Vec<String>) -> (r: (Vec<String>, Vec<ModLine>))
    ensures
        r.0.deep_view() == header(ls.deep_view()),
        r.1.deep_view() == entries(ls.deep_view()),
{
    let mut head: Vec<String> = Vec::new();
    let mut found: Vec<ModLine> = Vec::new();
    let mut k: usize = 0;
    assert(ls.deep_view().take(0) =~= Seq::<Seq<char>>::empty());
    assert(head.deep_view() =~= Seq::<Seq<char>>::empty());
    assert(found.deep_view() =~= Seq::<ModLineView>::empty());
    while k < ls.len()
        invariant
            k <= ls.len(),
            head.deep_view() == header(ls.deep_view().take(k as int)),
            found.deep_view() == entries(ls.deep_view().take(k as int)),
        decreases ls.len() - k,
    {
        let ghost now = ls.deep_view().take(k + 1);
        assert(now.drop_last() =~= ls.deep_view().take(k as int));
        assert(now.last() == ls@[k as int]@);
        let l = ls[k].as_str();
        match role_of(l) {
            Role::Shield => {
                assert(shielding(l@));
            },
            Role::Gate => {
                assert(gating(l@));
            },
            Role::Entry(n) => put(&mut found, ModLine { name: n, raw: owned(l) }),
            Role::Other => put(&mut head, owned(l)),
        }
        k += 1;
    }
    assert(ls.deep_view().take(k as int) =~= ls.deep_view());
    (head, found)
}

// ---------------------------------------------------------------------------
// Writing it
// ---------------------------------------------------------------------------

/// Some entry is on the module `name`.
pub open spec fn has_entry(es: Seq<ModLineView>, name: Seq<char>) -> bool {
    exists|k: int| 0 <= k < es.len() && (#[trigger] es[k]).name == name
}

fn finds_entry(es: &Vec<ModLine>, name: &str) -> (r: bool)
    ensures
        r == has_entry(es.deep_view(), name@),
{
    let mut k: usize = 0;
    while k < es.len()
        invariant
            k <= es.len(),
            forall|j: int| 0 <= j < k ==> (#[trigger] es.deep_view()[j]).name != name@,
        decreases es.len() - k,
    {
        assert(es.deep_view()[k as int] == es@[k as int].deep_view());
        if same(es[k].name.as_str(), name) {
            return true;
        }
        k += 1;
    }
    false
}

/// The two lines that declare and export `name`.
pub open spec fn pair(name: Seq<char>) -> Seq<ModLineView> {
    seq![
        ModLineView { name, raw: mod_line(name) },
        ModLineView { name, raw: use_line(name) },
    ]
}

/// `es` and, unless they hold it already, the entry on `name`.
pub open spec fn with_entry(es: Seq<ModLineView>, name: Seq<char>) -> Seq<ModLineView> {
    if has_entry(es, name) {
        es
    } else {
        es + pair(name)
    }
}

/// The lines of `es`, each behind `gate`.
pub open spec fn gated(es: Seq<ModLineView>, gate: Option<Seq<char>>) -> Seq<Seq<char>>
    decreases es.len(),
{
    if es.len() == 0 {
        Seq::empty()
    } else {
        let before = gated(es.drop_last(), gate);
        match gate {
            Some(g) => before.push(g).push(es.last().raw),
            None => before.push(es.last().raw),
        }
    }
}

fn gate_all(out: &mut Vec<String>, es: &Vec<ModLine>, gate: Option<&str>)
    ensures
        final(out).deep_view() == old(out).deep_view() + gated(es.deep_view(), gate.deep_view()),
{
    let ghost start = out.deep_view();
    let ghost g = gate.deep_view();
    let mut k: usize = 0;
    assert(es.deep_view().take(0) =~= Seq::<ModLineView>::empty());
    assert(out.deep_view() =~= start + gated(es.deep_view().take(0), g));
    while k < es.len()
        invariant
            k <= es.len(),
            g == gate.deep_view(),
            out.deep_view() =~= start + gated(es.deep_view().take(k as int), g),
        decreases es.len() - k,
    {
        let ghost now = es.deep_view().take(k + 1);
        assert(now.drop_last() =~= es.deep_view().take(k as int));
        assert(now.last() == es@[k as int].deep_view());
        match gate {
            Some(x) => put(out, owned(x)),
            None => {},
        }
        put(out, owned(es[k].raw.as_str()));
        k += 1;
    }
    assert(es.deep_view().take(k as int) =~= es.deep_view());
}

/// The lines of a `mod.rs` that had the lines `ls`, with an entry on `name`: the
/// shield if asked for, the header, and the entries by name, each behind `gate`.
pub open spec fn mod_lines(
    ls: Seq<Seq<char>>,
    name: Seq<char>,
    gate: Option<Seq<char>>,
    allow_unused: bool,
) -> Seq<Seq<char>> {
    only_if(allow_unused, shield()) + header(ls) + gated(
        sorted(with_entry(entries(ls), name), rank::<ModLine>()),
        gate,
    )
}

/// The text of a `mod.rs` that held `current`, with an entry on `name`.
pub open spec fn mod_text(
    current: Seq<char>,
    name: Seq<char>,
    gate: Option<Seq<char>>,
    allow_unused: bool,
) -> Seq<char> {
    ended(mod_lines(lines(current), name, gate, allow_unused))
}

/// What became of a `mod.rs`.
#[derive(Debug, Clone, Copy, PartialEq, Eq, Structural)]
pub enum ModUpsert {
    /// There was no such file.
    Created,
    /// The file gains the entry, or its entries are put in order.
    Modified,
    /// The file already reads as it should.
    Unchanged,
}

/// What becomes of the `mod.rs` that holds `current`, if there is one, when it
/// gets an entry on `name`.
pub open spec fn upserted(
    current: Option<Seq<char>>,
    name: Seq<char>,
    gate: Option<Seq<char>>,
    allow_unused: bool,
) -> (ModUpsert, Seq<char>) {
    match current {
        None => (ModUpsert::Created, mod_text(Seq::empty(), name, gate, allow_unused)),
        Some(c) => {
            let text = mod_text(c, name, gate, allow_unused);
            (if text == c { ModUpsert::Unchanged } else { ModUpsert::Modified }, text)
        },
    }
}

/// Puts `pub mod name;` and `pub use name::*;` into the `mod.rs` that holds
/// `current`, with all entries sorted by name. Any other line is kept as it is, on
/// top of them. `allow_unused` adds or drops the shield against warnings; each
/// entry stands behind `cfg_attr` if there is one.
pub fn upsert_mod_entry(
    current: Option<&str>,
    name: &str,
    cfg_attr: Option<&str>,
    allow_unused: bool,
) -> (r: (ModUpsert, String))
    ensures
        (r.0, r.1@) == upserted(current.deep_view(), name@, cfg_attr.deep_view(), allow_unused),
{
    proof {
        reveal_strlit("");
        assert(""@ =~= Seq::<char>::empty());
    }
    let text = match current {
        Some(c) => c,
        None => "",
    };
    let ls = lines_of(text);
    let (head, found) = read_lines(&ls);
    let mut es = found;
    if !finds_entry(&es, name) {
        put(&mut es, ModLine { name: owned(name), raw: mod_line_of(name) });
        put(&mut es, ModLine { name: owned(name), raw: use_line_of(name) });
        assert(es.deep_view() =~= entries(ls.deep_view()) + pair(name@));
    }
    let es = sort(es);
    let mut out: Vec<String> = Vec::new();
    if allow_unused {
        put(&mut out, owned("#![allow(unused_imports)]"));
    }
    assert(out.deep_view() =~= only_if(allow_unused, shield()));
    put_all(&mut out, head);
    gate_all(&mut out, &es, cfg_attr);
    let new_text = end_lines(&out);
    let outcome = match current {
        None => ModUpsert::Created,
        Some(c) => {
            if same(new_text.as_str(), c) {
                ModUpsert::Unchanged
            } else {
                ModUpsert::Modified
            }
        },
    };
    (outcome, new_text)
}

// ---------------------------------------------------------------------------
// Laws
// ---------------------------------------------------------------------------

/// Lines that neither start nor end with white space are not trimmed.
proof fn lemma_trimmed(l: Seq<char>)
    requires
        l.len() > 0,
        !white_space(l.first()),
        !white_space(l.last()),
    ensures
        trimmed(l) == l,
{
}

/// What stands between `front` and `back` is found again.
proof fn lemma_between(front: Seq<char>, name: Seq<char>, back: Seq<char>)
    ensures
        between(front + name + back, front, back) == Some(name),
{
    let l = front + name + back;
    assert(l.subrange(0, front.len() as int) =~= front);
    let x = l.skip(front.len() as int);
    assert(x =~= name + back);
    assert(x.subrange(x.len() - back.len(), x.len() as int) =~= back);
    assert(x.take(x.len() - back.len()) =~= name);
}

/// The two lines of an entry read as entries on the module.
proof fn lemma_pair(name: Seq<char>)
    ensures
        entry(mod_line(name)) == Some(name),
        entry(use_line(name)) == Some(name),
        !shielding(mod_line(name)),
        !shielding(use_line(name)),
{
    reveal_strlit("pub mod ");
    reveal_strlit("pub use ");
    reveal_strlit(";");
    reveal_strlit("::*;");
    reveal_strlit("#[cfg(");
    reveal_strlit("#![allow(unused_imports)]");
    let m = mod_line(name);
    let u = use_line(name);
    assert(m[0] == 'p' && m.last() == ';');
    assert(u[0] == 'p' && u.last() == ';');
    lemma_trimmed(m);
    lemma_trimmed(u);
    assert(shield()[0] == '#');
    assert("#[cfg("@[0] == '#');
    assert(m.subrange(0, 6)[0] == 'p');
    assert(u.subrange(0, 6)[0] == 'p');
    assert(!begins(m, "#[cfg("@));
    assert(!begins(u, "#[cfg("@));
    lemma_between("pub mod "@, name, ";"@);
    lemma_between("pub use "@, name, "::*;"@);
    assert(u[4] == 'u' && "pub mod "@[4] == 'm');
    assert(u.len() >= 8);
    assert(u.subrange(0, 8)[4] == 'u');
    assert(after_prefix(u, "pub mod "@) is None);
}

/// The header and the entries of two stretches of lines.
proof fn lemma_header(a: Seq<Seq<char>>, b: Seq<Seq<char>>)
    ensures
        entries(a + b) == entries(a) + entries(b),
        header(a + b) == header(a) + header(b),
    decreases b.len(),
{
    if b.len() == 0 {
        assert(a + b =~= a);
        assert(entries(a) + entries(b) =~= entries(a));
        assert(header(a) + header(b) =~= header(a));
    } else {
        lemma_header(a, b.drop_last());
        assert((a + b).drop_last() =~= a + b.drop_last());
        assert((a + b).last() == b.last());
        assert(entries(a + b) =~= entries(a) + entries(b));
        assert(header(a + b) =~= header(a) + header(b));
    }
}

/// A header holds no entry, and is its own header.
proof fn lemma_header_again(ls: Seq<Seq<char>>)
    ensures
        header(header(ls)) == header(ls),
        entries(header(ls)) == Seq::<ModLineView>::empty(),
        forall|k: int|
            0 <= k < header(ls).len() ==> exists|j: int|
                0 <= j < ls.len() && ls[j] == #[trigger] header(ls)[k],
    decreases ls.len(),
{
    if ls.len() > 0 {
        let less = ls.drop_last();
        lemma_header_again(less);
        let h = header(ls);
        if h != header(less) {
            assert(h.drop_last() =~= header(less));
            assert(h.last() == ls.last());
        }
        assert forall|k: int| 0 <= k < h.len() implies exists|j: int|
            0 <= j < ls.len() && ls[j] == #[trigger] h[k] by {
            if k < header(less).len() {
                assert(header(less)[k] == h[k]);
                let j = choose|j: int| 0 <= j < less.len() && less[j] == header(less)[k];
                assert(ls[j] == h[k]);
            } else {
                assert(ls[ls.len() - 1] == h[k]);
            }
        }
    }
}

/// The raw line of each entry declares or exports its module.
pub open spec fn faithful(es: Seq<ModLineView>) -> bool {
    forall|k: int| 0 <= k < es.len() ==> entry((#[trigger] es[k]).raw) == Some(es[k].name)
}

proof fn lemma_entries(ls: Seq<Seq<char>>)
    ensures
        faithful(entries(ls)),
        forall|k: int|
            0 <= k < entries(ls).len() ==> exists|j: int|
                0 <= j < ls.len() && ls[j] == (#[trigger] entries(ls)[k]).raw,
    decreases ls.len(),
{
    if ls.len() > 0 {
        let less = ls.drop_last();
        lemma_entries(less);
        let es = entries(ls);
        assert forall|k: int| 0 <= k < es.len() implies exists|j: int|
            0 <= j < ls.len() && ls[j] == (#[trigger] es[k]).raw by {
            if k < entries(less).len() {
                assert(entries(less)[k] == es[k]);
                let j = choose|j: int| 0 <= j < less.len() && less[j] == entries(less)[k].raw;
                assert(ls[j] == es[k].raw);
            } else {
                assert(ls[ls.len() - 1] == es[k].raw);
            }
        }
        assert forall|k: int| 0 <= k < es.len() implies entry((#[trigger] es[k]).raw) == Some(
            es[k].name,
        ) by {
            if k < entries(less).len() {
                assert(entries(less)[k] == es[k]);
            }
        }
    }
}

/// A gate that reads as a gate.
pub open spec fn proper_gate(gate: Option<Seq<char>>) -> bool {
    match gate {
        Some(g) => gating(g) && one_line(g),
        None => true,
    }
}

/// Reading the gated lines of entries gives the entries back.
proof fn lemma_gated(es: Seq<ModLineView>, gate: Option<Seq<char>>)
    requires
        faithful(es),
        proper_gate(gate),
    ensures
        entries(gated(es, gate)) == es,
        header(gated(es, gate)) == Seq::<Seq<char>>::empty(),
        forall|k: int|
            0 <= k < gated(es, gate).len() ==> gate == Some(#[trigger] gated(es, gate)[k])
                || exists|j: int| 0 <= j < es.len() && es[j].raw == gated(es, gate)[k],
    decreases es.len(),
{
    if es.len() > 0 {
        let less = es.drop_last();
        assert forall|k: int| 0 <= k < less.len() implies entry((#[trigger] less[k]).raw) == Some(
            less[k].name,
        ) by {
            assert(less[k] == es[k]);
        }
        lemma_gated(less, gate);
        let before = gated(less, gate);
        let now = gated(es, gate);
        let raw = es.last().raw;
        assert(entry(es[es.len() - 1].raw) == Some(es[es.len() - 1].name));
        match gate {
            Some(g) => {
                let mid = before.push(g);
                assert(mid.drop_last() =~= before);
                assert(header(mid) == header(before));
                assert(entries(mid) == entries(before));
                assert(now.drop_last() =~= mid);
            },
            None => {
                assert(now.drop_last() =~= before);
            },
        }
        assert(now.last() == raw);
        assert(entries(now) =~= es);
        assert forall|k: int| 0 <= k < now.len() implies gate == Some(#[trigger] now[k]) || exists|
            j: int,
        |
            0 <= j < es.len() && es[j].raw == now[k] by {
            if k < before.len() {
                assert(before[k] == now[k]);
                if gate != Some(now[k]) {
                    let j = choose|j: int| 0 <= j < less.len() && less[j].raw == before[k];
                    assert(es[j].raw == now[k]);
                }
            } else if now[k] == raw {
                assert(es[es.len() - 1].raw == now[k]);
            }
        }
    }
}

/// Reordering keeps what each line declares, and which modules have entries.
proof fn lemma_reordered(es: Seq<ModLineView>, fs: Seq<ModLineView>)
    requires
        es.to_multiset() =~= fs.to_multiset(),
    ensures
        faithful(es) ==> faithful(fs),
        forall|n: Seq<char>| has_entry(es, n) ==> has_entry(fs, n),
        forall|k: int| 0 <= k < fs.len() ==> es.contains(#[trigger] fs[k]),
{
    broadcast use vstd::seq_lib::group_to_multiset_ensures;

    assert forall|k: int| 0 <= k < fs.len() implies es.contains(#[trigger] fs[k]) by {
        assert(fs.contains(fs[k]));
        assert(fs.to_multiset().count(fs[k]) > 0);
    }
    assert forall|n: Seq<char>| has_entry(es, n) implies has_entry(fs, n) by {
        let k = choose|k: int| 0 <= k < es.len() && (#[trigger] es[k]).name == n;
        assert(es.contains(es[k]));
        assert(es.to_multiset().count(es[k]) > 0);
        assert(fs.contains(es[k]));
        let j = choose|j: int| 0 <= j < fs.len() && fs[j] == es[k];
        assert(fs[j].name == n);
    }
    if faithful(es) {
        assert forall|k: int| 0 <= k < fs.len() implies entry((#[trigger] fs[k]).raw) == Some(
            fs[k].name,
        ) by {
            let j = choose|j: int| 0 <= j < es.len() && es[j] == fs[k];
            assert(entry(es[j].raw) == Some(es[j].name));
        }
    }
}

/// The entries of a new `mod.rs` stand in the order of their names, and the
/// module is among them.
pub proof fn law_mod_sorted(ls: Seq<Seq<char>>, name: Seq<char>)
    ensures
        in_order(sorted(with_entry(entries(ls), name), rank::<ModLine>()), rank::<ModLine>()),
        has_entry(sorted(with_entry(entries(ls), name), rank::<ModLine>()), name),
{
    let es = with_entry(entries(ls), name);
    let fs = sorted(es, rank::<ModLine>());
    law_sorted::<ModLine>(es);
    if !has_entry(entries(ls), name) {
        assert(es[entries(ls).len() as int] == pair(name)[0]);
    }
    assert(has_entry(es, name));
    lemma_reordered(es, fs);
}

/// The lines of a new `mod.rs` stay as they are.
proof fn lemma_mod_lines_again(
    ls: Seq<Seq<char>>,
    name: Seq<char>,
    gate: Option<Seq<char>>,
    allow_unused: bool,
)
    requires
        proper_gate(gate),
        one_line(name),
        forall|k: int| 0 <= k < ls.len() ==> one_line(#[trigger] ls[k]),
    ensures
        ({
            let new = mod_lines(ls, name, gate, allow_unused);
            &&& mod_lines(new, name, gate, allow_unused) == new
            &&& forall|k: int| 0 <= k < new.len() ==> one_line(#[trigger] new[k])
        }),
{
    let top = only_if(allow_unused, shield());
    let head = header(ls);
    let es = with_entry(entries(ls), name);
    let fs = sorted(es, rank::<ModLine>());
    let tail = gated(fs, gate);
    let new = mod_lines(ls, name, gate, allow_unused);
    reveal_strlit("#![allow(unused_imports)]");
    lemma_pair(name);
    lemma_entries(ls);
    assert(faithful(es)) by {
        assert forall|k: int| 0 <= k < es.len() implies entry((#[trigger] es[k]).raw) == Some(
            es[k].name,
        ) by {
            if k < entries(ls).len() {
                assert(entries(ls)[k] == es[k]);
            } else {
                assert(pair(name)[k - entries(ls).len()] == es[k]);
            }
        }
    }
    law_mod_sorted(ls, name);
    law_sorted::<ModLine>(es);
    lemma_reordered(es, fs);
    lemma_sorted_again(fs, rank::<ModLine>());
    lemma_gated(fs, gate);
    lemma_header_again(ls);
    // The shield is no part of the header.
    assert(shielding(shield())) by {
        lemma_trimmed(shield());
    }
    assert(header(top) =~= Seq::<Seq<char>>::empty() && entries(top) =~= Seq::<
        ModLineView,
    >::empty()) by {
        if allow_unused {
            assert(top.drop_last() =~= Seq::<Seq<char>>::empty());
            assert(top.last() == shield());
            assert(header(top.drop_last()) =~= Seq::<Seq<char>>::empty());
            assert(entries(top.drop_last()) =~= Seq::<ModLineView>::empty());
        }
    }
    lemma_header(top, head);
    lemma_header(top + head, tail);
    assert(header(new) =~= head);
    assert(entries(new) =~= fs);
    assert(mod_lines(new, name, gate, allow_unused) =~= new);
    // Every line can stand as a line.
    assert forall|k: int| 0 <= k < new.len() implies one_line(#[trigger] new[k]) by {
        if k < top.len() {
            assert(new[k] == shield());
            assert(shield().last() == ']');
            if shield().contains('\n') {
                let m = choose|m: int| 0 <= m < shield().len() && shield()[m] == '\n';
                assert(false);
            }
        } else if k < top.len() + head.len() {
            assert(new[k] == head[k - top.len()]);
            let j = choose|j: int| 0 <= j < ls.len() && ls[j] == head[k - top.len()];
            assert(one_line(ls[j]));
        } else {
            let i = k - top.len() - head.len();
            assert(new[k] == tail[i]);
            if gate != Some(tail[i]) {
                let j = choose|j: int| 0 <= j < fs.len() && fs[j].raw == tail[i];
                let m = choose|m: int| 0 <= m < es.len() && es[m] == fs[j];
                lemma_entry_line(ls, name, m);
            }
        }
    }
}

/// The line of an entry can stand as a line.
proof fn lemma_entry_line(ls: Seq<Seq<char>>, name: Seq<char>, m: int)
    requires
        one_line(name),
        0 <= m < with_entry(entries(ls), name).len(),
        forall|k: int| 0 <= k < ls.len() ==> one_line(#[trigger] ls[k]),
    ensures
        one_line(with_entry(entries(ls), name)[m].raw),
{
    let es = with_entry(entries(ls), name);
    lemma_entries(ls);
    if m < entries(ls).len() {
        assert(es[m] == entries(ls)[m]);
        let j = choose|j: int| 0 <= j < ls.len() && ls[j] == entries(ls)[m].raw;
        assert(one_line(ls[j]));
    } else {
        reveal_strlit("pub mod ");
        reveal_strlit("pub use ");
        reveal_strlit(";");
        reveal_strlit("::*;");
        let l = es[m].raw;
        assert(es[m] == pair(name)[m - entries(ls).len()]);
        assert(l == mod_line(name) || l == use_line(name));
        assert(l.last() == ';');
        if l.contains('\n') {
            let k = choose|k: int| 0 <= k < l.len() && l[k] == '\n';
            if 8 <= k < 8 + name.len() {
                assert(name[k - 8] == l[k]);
                assert(name.contains('\n'));
            }
            assert(false);
        }
    }
}

/// Any line that is neither the shield nor a gate nor an entry is kept, on top of the
/// entries.
pub proof fn law_header_is_kept(
    ls: Seq<Seq<char>>,
    name: Seq<char>,
    gate: Option<Seq<char>>,
    allow_unused: bool,
    l: Seq<char>,
)
    requires
        ls.contains(l),
        !shielding(l),
        !gating(l),
        entry(l) is None,
    ensures
        header(ls).contains(l),
        mod_lines(ls, name, gate, allow_unused).contains(l),
{
    lemma_header_holds(ls, l);
    let k = choose|k: int| 0 <= k < header(ls).len() && header(ls)[k] == l;
    let top = only_if(allow_unused, shield());
    assert(mod_lines(ls, name, gate, allow_unused)[top.len() + k] == l);
}

proof fn lemma_header_holds(ls: Seq<Seq<char>>, l: Seq<char>)
    requires
        ls.contains(l),
        !shielding(l),
        !gating(l),
        entry(l) is None,
    ensures
        header(ls).contains(l),
    decreases ls.len(),
{
    let j = choose|j: int| 0 <= j < ls.len() && ls[j] == l;
    let less = ls.drop_last();
    if j < less.len() {
        assert(less[j] == l);
        lemma_header_holds(less, l);
        let k = choose|k: int| 0 <= k < header(less).len() && header(less)[k] == l;
        assert(header(ls)[k] == l);
    } else {
        assert(header(ls)[header(less).len() as int] == l);
    }
}

/// An entry is put into a `mod.rs` once: doing it again leaves the file as it is.
/// That holds of a name without line feeds, of a gate that reads as one, and of
/// files none of whose lines ends in a carriage return once its line ending is off.
pub proof fn law_upsert_twice(
    current: Option<Seq<char>>,
    name: Seq<char>,
    gate: Option<Seq<char>>,
    allow_unused: bool,
)
    requires
        current matches Some(c) ==> forall|k: int|
            0 <= k < lines(c).len() ==> one_line(#[trigger] lines(c)[k]),
        one_line(name),
        proper_gate(gate),
    ensures
        ({
            let once = upserted(current, name, gate, allow_unused).1;
            upserted(Some(once), name, gate, allow_unused) == (ModUpsert::Unchanged, once)
        }),
{
    let c = match current {
        Some(c) => c,
        None => Seq::empty(),
    };
    lemma_mod_lines_again(lines(c), name, gate, allow_unused);
    lemma_lines_ended(mod_lines(lines(c), name, gate, allow_unused));
}

/// A `mod.rs` that was not there holds the shield if asked for, and the two
/// lines of the entry, each behind `gate`.
pub proof fn law_fresh_mod(name: Seq<char>, gate: Option<Seq<char>>, allow_unused: bool)
    ensures
        upserted(None, name, gate, allow_unused) == (
            ModUpsert::Created,
            ended(only_if(allow_unused, shield()) + gated(pair(name), gate)),
        ),
{
    let none = Seq::<char>::empty();
    assert(lines(none) =~= Seq::<Seq<char>>::empty());
    assert(header(lines(none)) =~= Seq::<Seq<char>>::empty());
    assert(entries(lines(none)) =~= Seq::<ModLineView>::empty());
    assert(with_entry(entries(lines(none)), name) =~= pair(name));
    assert(in_order(pair(name), rank::<ModLine>())) by {
        lemma_text_le(name, name, name);
    }
    lemma_sorted_again(pair(name), rank::<ModLine>());
    assert(mod_lines(lines(none), name, gate, allow_unused) =~= only_if(allow_unused, shield())
        + gated(pair(name), gate));
}

} // verus!
