//! Props that a component clones again and again.
use vstd::prelude::*;

use super::bindings::{binding, binding_of};
use super::report::{issue, issue_of, SignalIssue, SignalIssueView};
use crate::order::{
    distinct, distinct_of, gather, holds, only_if, put, rank, sort, sorted,
};
use crate::scan::{operand_ident, operand_ident_of};
use crate::tape::{operand, operand_of, stop, stop_of, Kind, Node};
use crate::text::{cat4, decimal, decimal_usize, join, joined, owned, same};

verus! {

/// A statement that clones a prop into a name of its own.
#[derive(Debug)]
pub struct CloneSite {
    pub prop: String,
    pub line: usize,
}

pub ghost struct CloneSiteView {
    pub prop: Seq<char>,
    pub line: usize,
}

impl DeepView for CloneSite {
    type V = CloneSiteView;

    open spec fn deep_view(&self) -> CloneSiteView {
        CloneSiteView {
            prop: self.prop@,
            line: self.line,
        }
    }
}

pub open spec fn prop_name_at(t: Seq<Node>, i: int) -> spec_fn(int) -> Seq<Seq<char>> {
    |j: int|
        if t[j].kind == Kind::Arg && t[j].parent == i {
            match operand(t, j, 0) {
                Some(p) => only_if(t[p].kind == Kind::PatIdent, t[p].name@),
                None => Seq::empty(),
            }
        } else {
            Seq::empty()
        }
}

/// The names of the arguments of the function at `i`.
pub open spec fn prop_names(t: Seq<Node>, i: int) -> Seq<Seq<char>> {
    gather(i, stop(t, i), prop_name_at(t, i))
}

fn prop_names_of(t: &Vec<Node>, i: usize) -> (r: Vec<String>)
    requires
        i < t.len(),
    ensures
        r.deep_view() == prop_names(t@, i as int),
{
    let end = stop_of(t, i);
    let mut out: Vec<String> = Vec::new();
    let mut j: usize = i;
    while j < end
        invariant
            i <= j <= end <= t.len(),
            out.deep_view() == gather(i as int, j as int, prop_name_at(t@, i as int)),
        decreases end - j,
    {
        if t[j].kind == Kind::Arg && t[j].parent == i {
            match operand_of(t, j, 0) {
                Some(p) => {
                    if t[p].kind == Kind::PatIdent {
                        put(&mut out, owned(t[p].name.as_str()));
                    }
                },
                None => {},
            }
        }
        j += 1;
    }
    out
}

/// The clone of a prop that statement `j` of the block at `b` makes.
pub open spec fn clone_at(t: Seq<Node>, b: int, props: Seq<Seq<char>>) -> spec_fn(int) -> Seq<
    CloneSiteView,
> {
    |j: int|
        match binding(t, b, j) {
            Some((p, e)) => if t[e].kind == Kind::MethodCall && t[e].name@ == "clone"@ && t[e].count
                == 1 {
                match operand_ident(t, e, 0) {
                    Some(prop) => only_if(
                        props.contains(prop),
                        CloneSiteView { prop, line: t[e].line },
                    ),
                    None => Seq::empty(),
                }
            } else {
                Seq::empty()
            },
            None => Seq::empty(),
        }
}

/// The clones of props that the statements of the block at `b` make.
pub open spec fn clones(t: Seq<Node>, b: int, props: Seq<Seq<char>>) -> Seq<CloneSiteView> {
    gather(b, stop(t, b), clone_at(t, b, props))
}

fn clones_of(t: &Vec<Node>, b: usize, props: &Vec<String>) -> (r: Vec<CloneSite>)
    requires
        b < t.len(),
    ensures
        r.deep_view() == clones(t@, b as int, props.deep_view()),
{
    let end = stop_of(t, b);
    let mut out: Vec<CloneSite> = Vec::new();
    let mut j: usize = b;
    while j < end
        invariant
            b <= j <= end <= t.len(),
            out.deep_view() == gather(
                b as int,
                j as int,
                clone_at(t@, b as int, props.deep_view()),
            ),
        decreases end - j,
    {
        match binding_of(t, b, j) {
            Some((p, e)) => {
                if t[e].kind == Kind::MethodCall && same(t[e].name.as_str(), "clone") && t[e].count
                    == 1 {
                    match operand_ident_of(t, e, 0) {
                        Some(prop) => {
                            if holds(props, prop.as_str()) {
                                put(&mut out, CloneSite { prop, line: t[e].line });
                            }
                        },
                        None => {},
                    }
                }
            },
            None => {},
        }
        j += 1;
    }
    out
}

// ---------------------------------------------------------------------------
// By prop
// ---------------------------------------------------------------------------

pub open spec fn cloned_names(cs: Seq<CloneSiteView>) -> Seq<Seq<char>> {
    Seq::new(cs.len(), |k: int| cs[k].prop)
}

/// The props that are cloned, by name.
pub open spec fn cloned_props(cs: Seq<CloneSiteView>) -> Seq<Seq<char>> {
    sorted(distinct(cloned_names(cs)), rank::<String>())
}

pub open spec fn line_of(cs: Seq<CloneSiteView>, prop: Seq<char>) -> spec_fn(int) -> Seq<usize> {
    |k: int| only_if(cs[k].prop == prop, cs[k].line)
}

/// The lines that clone `prop`.
pub open spec fn lines(cs: Seq<CloneSiteView>, prop: Seq<char>) -> Seq<usize> {
    gather(0, cs.len() as int, line_of(cs, prop))
}

fn cloned_props_of(cs: &Vec<CloneSite>) -> (r: Vec<String>)
    ensures
        r.deep_view() == cloned_props(cs.deep_view()),
{
    let mut names: Vec<String> = Vec::new();
    let mut k: usize = 0;
    while k < cs.len()
        invariant
            k <= cs.len(),
            names.deep_view() =~= cloned_names(cs.deep_view()).take(k as int),
        decreases cs.len() - k,
    {
        put(&mut names, owned(cs[k].prop.as_str()));
        k += 1;
    }
    assert(names.deep_view() =~= cloned_names(cs.deep_view()));
    sort(distinct_of(&names))
}

fn lines_of(cs: &Vec<CloneSite>, prop: &str) -> (r: Vec<usize>)
    ensures
        r@ == lines(cs.deep_view(), prop@),
{
    let ghost v = cs.deep_view();
    let mut out: Vec<usize> = Vec::new();
    let mut k: usize = 0;
    while k < cs.len()
        invariant
            k <= cs.len(),
            v == cs.deep_view(),
            out@ == gather(0, k as int, line_of(v, prop@)),
        decreases cs.len() - k,
    {
        assert(v[k as int] == cs@[k as int].deep_view());
        if same(cs[k].prop.as_str(), prop) {
            out.push(cs[k].line);
        }
        k += 1;
    }
    out
}

pub open spec fn decimals(ls: Seq<usize>) -> Seq<Seq<char>> {
    Seq::new(ls.len(), |k: int| decimal(ls[k] as nat))
}

fn decimals_of(ls: &Vec<usize>) -> (r: Vec<String>)
    ensures
        r.deep_view() == decimals(ls@),
{
    let mut out: Vec<String> = Vec::new();
    let mut k: usize = 0;
    while k < ls.len()
        invariant
            k <= ls.len(),
            out.deep_view() =~= decimals(ls@).take(k as int),
        decreases ls.len() - k,
    {
        put(&mut out, decimal_usize(ls[k]));
        k += 1;
    }
    assert(out.deep_view() =~= decimals(ls@));
    out
}

pub open spec fn prop_message(prop: Seq<char>, n: nat, list: Seq<char>) -> Seq<char> {
    "prop `"@
        + prop
        + "` is cloned "@
        + decimal(n)
        + " times into separate `let` bindings (lines "@
        + list
        + "). This usually means each clone is captured by its own `move` closure. Consider one of: (1) change the prop type to `Rc<str>` / `Arc<T>` so clones are cheap and one binding can be reused; (2) lift the prop into a `ReadOnlySignal<T>` so closures can `.read()` it directly without owning a copy; (3) restructure the closures to share a single capture."@
}

fn prop_message_of(prop: &str, n: usize, list: &str) -> (r: String)
    ensures
        r@ == prop_message(prop@, n as nat, list@),
{
    let mut s = owned("prop `");
    s.append(prop);
    s.append("` is cloned ");
    s.append(decimal_usize(n).as_str());
    s.append(" times into separate `let` bindings (lines ");
    s.append(list);
    s.append("). This usually means each clone is captured by its own `move` closure. Consider one of: (1) change the prop type to `Rc<str>` / `Arc<T>` so clones are cheap and one binding can be reused; (2) lift the prop into a `ReadOnlySignal<T>` so closures can `.read()` it directly without owning a copy; (3) restructure the closures to share a single capture.");
    s
}

pub open spec fn aggregate_message(total: nat, props: nat, list: Seq<char>) -> Seq<char> {
    "this component clones props into separate `let` bindings "@
        + decimal(total)
        + " times across "@
        + decimal(props)
        + " props ("@
        + list
        + "). No single prop hit the 3-clone per-prop threshold, but the same closure-capture refactor applies — switch to `Rc<str>` / `Arc<T>` props, lift into a `ReadOnlySignal<T>`, or share a single capture across the closures."@
}

fn aggregate_message_of(total: usize, props: usize, list: &str) -> (r: String)
    ensures
        r@ == aggregate_message(total as nat, props as nat, list@),
{
    let mut s = owned("this component clones props into separate `let` bindings ");
    s.append(decimal_usize(total).as_str());
    s.append(" times across ");
    s.append(decimal_usize(props).as_str());
    s.append(" props (");
    s.append(list);
    s.append("). No single prop hit the 3-clone per-prop threshold, but the same closure-capture refactor applies — switch to `Rc<str>` / `Arc<T>` props, lift into a `ReadOnlySignal<T>`, or share a single capture across the closures.");
    s
}

/// The issue on a prop that is cloned three times or more.
pub open spec fn prop_issue(
    cs: Seq<CloneSiteView>,
    props: Seq<Seq<char>>,
    file: Seq<char>,
    component: Seq<char>,
) -> spec_fn(int) -> Seq<SignalIssueView> {
    |k: int|
        {
            let ls = lines(cs, props[k]);
            only_if(
                ls.len() >= 3,
                issue(
                    "prop_clone_overuse"@,
                    prop_message(props[k], ls.len(), joined(decimals(ls), ", "@)),
                    file,
                    ls[0],
                    component,
                    None,
                    None,
                ),
            )
        }
}

pub open spec fn prop_issues(
    cs: Seq<CloneSiteView>,
    file: Seq<char>,
    component: Seq<char>,
) -> Seq<SignalIssueView> {
    let props = cloned_props(cs);
    gather(0, props.len() as int, prop_issue(cs, props, file, component))
}

/// Some prop is cloned twice or more.
pub open spec fn repeats(cs: Seq<CloneSiteView>) -> bool {
    let props = cloned_props(cs);
    exists|k: int| 0 <= k < props.len() && lines(cs, #[trigger] props[k]).len() >= 2
}

pub open spec fn tallies(cs: Seq<CloneSiteView>, props: Seq<Seq<char>>) -> Seq<Seq<char>> {
    Seq::new(
        props.len(),
        |k: int| "`"@ + props[k] + "` ×"@ + decimal(lines(cs, props[k]).len()),
    )
}

/// The lowest line among the first `n` clones; 0 if `n` is 0.
pub open spec fn first_line(cs: Seq<CloneSiteView>, n: int) -> usize
    decreases n,
{
    if n <= 0 {
        0
    } else if n == 1 || cs[n - 1].line < first_line(cs, n - 1) {
        cs[n - 1].line
    } else {
        first_line(cs, n - 1)
    }
}

/// The issue on a component that clones several props, one of them repeatedly,
/// four times or more in all, and none of them three times.
pub open spec fn aggregate_issue(
    cs: Seq<CloneSiteView>,
    file: Seq<char>,
    component: Seq<char>,
) -> Seq<SignalIssueView> {
    let props = cloned_props(cs);
    only_if(
        cs.len() >= 4 && props.len() >= 2 && repeats(cs) && prop_issues(cs, file, component).len()
            == 0,
        issue(
            "prop_clone_overuse_aggregate"@,
            aggregate_message(
                cs.len(),
                props.len(),
                joined(sorted(tallies(cs, props), rank::<String>()), ", "@),
            ),
            file,
            first_line(cs, cs.len() as int),
            component,
            None,
            None,
        ),
    )
}

/// The issues on the clones `cs`.
pub open spec fn clone_issues(cs: Seq<CloneSiteView>, file: Seq<char>, component: Seq<char>) -> Seq<
    SignalIssueView,
> {
    prop_issues(cs, file, component) + aggregate_issue(cs, file, component)
}

/// A component is reported for single props or for all of them together, never
/// for both.
pub proof fn law_prop_or_aggregate(
    cs: Seq<CloneSiteView>,
    file: Seq<char>,
    component: Seq<char>,
)
    ensures
        prop_issues(cs, file, component).len() == 0 || aggregate_issue(cs, file, component).len()
            == 0,
{
}

fn tallies_of(cs: &Vec<CloneSite>, props: &Vec<String>) -> (r: Vec<String>)
    ensures
        r.deep_view() == tallies(cs.deep_view(), props.deep_view()),
{
    let mut out: Vec<String> = Vec::new();
    let mut k: usize = 0;
    while k < props.len()
        invariant
            k <= props.len(),
            out.deep_view() =~= tallies(cs.deep_view(), props.deep_view()).take(k as int),
        decreases props.len() - k,
    {
        let n = lines_of(cs, props[k].as_str()).len();
        put(&mut out, cat4("`", props[k].as_str(), "` ×", decimal_usize(n).as_str()));
        k += 1;
    }
    assert(out.deep_view() =~= tallies(cs.deep_view(), props.deep_view()));
    out
}

fn has_repeat(cs: &Vec<CloneSite>, props: &Vec<String>) -> (r: bool)
    requires
        props.deep_view() == cloned_props(cs.deep_view()),
    ensures
        r == repeats(cs.deep_view()),
{
    let ghost v = props.deep_view();
    let mut k: usize = 0;
    while k < props.len()
        invariant
            k <= props.len(),
            v == props.deep_view(),
            v == cloned_props(cs.deep_view()),
            forall|m: int| 0 <= m < k ==> lines(cs.deep_view(), #[trigger] v[m]).len() < 2,
        decreases props.len() - k,
    {
        assert(v[k as int] == props@[k as int]@);
        if lines_of(cs, props[k].as_str()).len() >= 2 {
            return true;
        }
        k += 1;
    }
    false
}

fn first_line_of(cs: &Vec<CloneSite>) -> (r: usize)
    ensures
        r == first_line(cs.deep_view(), cs.deep_view().len() as int),
{
    let ghost v = cs.deep_view();
    let mut low: usize = 0;
    let mut n: usize = 0;
    while n < cs.len()
        invariant
            n <= cs.len(),
            v == cs.deep_view(),
            low == first_line(v, n as int),
        decreases cs.len() - n,
    {
        assert(v[n as int] == cs@[n as int].deep_view());
        if n == 0 || cs[n].line < low {
            low = cs[n].line;
        }
        n += 1;
    }
    low
}

/// The issues on the clones `cs`.
pub fn clone_findings(cs: &Vec<CloneSite>, file: &str, component: &str) -> (r: Vec<SignalIssue>)
    ensures
        r.deep_view() == clone_issues(cs.deep_view(), file@, component@),
{
    let ghost v = cs.deep_view();
    let props = cloned_props_of(cs);
    let ghost ps = props.deep_view();
    let mut out: Vec<SignalIssue> = Vec::new();
    let mut k: usize = 0;
    while k < props.len()
        invariant
            k <= props.len(),
            v == cs.deep_view(),
            ps == props.deep_view(),
            out.deep_view() == gather(0, k as int, prop_issue(v, ps, file@, component@)),
        decreases props.len() - k,
    {
        assert(ps[k as int] == props@[k as int]@);
        let ls = lines_of(cs, props[k].as_str());
        if ls.len() >= 3 {
            let list = join(&decimals_of(&ls), ", ");
            let message = prop_message_of(props[k].as_str(), ls.len(), list.as_str());
            put(
                &mut out,
                issue_of("prop_clone_overuse", message, file, ls[0], component, None, None),
            );
        }
        k += 1;
    }
    let ghost own = out.deep_view();
    if cs.len() >= 4 && props.len() >= 2 && has_repeat(cs, &props) && out.len() == 0 {
        let list = join(&sort(tallies_of(cs, &props)), ", ");
        let message = aggregate_message_of(cs.len(), props.len(), list.as_str());
        put(
            &mut out,
            issue_of(
                "prop_clone_overuse_aggregate",
                message,
                file,
                first_line_of(cs),
                component,
                None,
                None,
            ),
        );
    }
    assert(out.deep_view() =~= own + aggregate_issue(v, file@, component@));
    out
}

/// The issues on the props that the component at `i`, whose body is the block at
/// `b`, clones.
pub fn check_prop_clone_overuse(t: &Vec<Node>, i: usize, b: usize, file: &str) -> (r: Vec<
    SignalIssue,
>)
    requires
        i < t.len(),
        b < t.len(),
    ensures
        r.deep_view() == clone_issues(
            clones(t@, b as int, prop_names(t@, i as int)),
            file@,
            t@[i as int].name@,
        ),
{
    let props = prop_names_of(t, i);
    let cs = clones_of(t, b, &props);
    clone_findings(&cs, file, t[i].name.as_str())
}

} // verus!
