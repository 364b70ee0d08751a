//! The components of a project as its index lists them.
use vstd::prelude::*;

use crate::text::same;

verus! {

/// A prop of a component.
#[derive(Debug)]
pub struct PropInfo {
    pub name: String,
    /// The type as it is written.
    pub ty: String,
}

pub ghost struct PropInfoView {
    pub name: Seq<char>,
    pub ty: Seq<char>,
}

impl DeepView for PropInfo {
    type V = PropInfoView;

    open spec fn deep_view(&self) -> PropInfoView {
        PropInfoView {
            name: self.name@,
            ty: self.ty@,
        }
    }
}

/// A component and its props.
#[derive(Debug)]
pub struct ComponentInfo {
    pub name: String,
    pub props: Vec<PropInfo>,
    /// The props come in one struct, as the only argument.
    pub via_props_struct: bool,
}

pub ghost struct ComponentInfoView {
    pub name: Seq<char>,
    pub props: Seq<PropInfoView>,
    pub via_props_struct: bool,
}

impl DeepView for ComponentInfo {
    type V = ComponentInfoView;

    open spec fn deep_view(&self) -> ComponentInfoView {
        ComponentInfoView {
            name: self.name@,
            props: self.props.deep_view(),
            via_props_struct: self.via_props_struct,
        }
    }
}

/// The last component called `name`, if there is one.
pub open spec fn component_named(cs: Seq<ComponentInfoView>, name: Seq<char>) -> Option<int>
    decreases cs.len(),
{
    if cs.len() == 0 {
        None
    } else if cs.last().name == name {
        Some(cs.len() - 1)
    } else {
        component_named(cs.drop_last(), name)
    }
}

/// There is a component called `name`.
pub open spec fn known(cs: Seq<ComponentInfoView>, name: Seq<char>) -> bool {
    component_named(cs, name) is Some
}

/// A name is found exactly if a component has it, and the last one is found.
pub proof fn lemma_component_named(cs: Seq<ComponentInfoView>, name: Seq<char>)
    ensures
        match component_named(cs, name) {
            Some(k) => 0 <= k < cs.len() && cs[k].name == name && forall|m: int|
                k < m < cs.len() ==> (#[trigger] cs[m]).name != name,
            None => forall|m: int| 0 <= m < cs.len() ==> (#[trigger] cs[m]).name != name,
        },
    decreases cs.len(),
{
    if cs.len() > 0 && cs.last().name != name {
        lemma_component_named(cs.drop_last(), name);
        match component_named(cs.drop_last(), name) {
            Some(k) => {
                assert(cs.drop_last()[k] == cs[k]);
                assert forall|m: int| k < m < cs.len() implies (#[trigger] cs[m]).name != name by {
                    if m < cs.len() - 1 {
                        assert(cs.drop_last()[m] == cs[m]);
                    }
                }
            },
            None => {
                assert forall|m: int| 0 <= m < cs.len() implies (#[trigger] cs[m]).name != name by {
                    if m < cs.len() - 1 {
                        assert(cs.drop_last()[m] == cs[m]);
                    }
                }
            },
        }
    }
}

pub fn find_component(cs: &Vec<ComponentInfo>, name: &str) -> (r: Option<usize>)
    ensures
        match r {
            Some(k) => component_named(cs.deep_view(), name@) == Some(k as int) && k < cs.len(),
            None => component_named(cs.deep_view(), name@) is None,
        },
{
    let ghost v = cs.deep_view();
    let mut k: usize = cs.len();
    assert(v.take(k as int) =~= v);
    while k > 0
        invariant
            k <= cs.len(),
            v == cs.deep_view(),
            component_named(v, name@) == component_named(v.take(k as int), name@),
        decreases k,
    {
        assert(v.take(k as int).drop_last() =~= v.take(k - 1));
        assert(v[k - 1] == cs@[k - 1].deep_view());
        if same(cs[k - 1].name.as_str(), name) {
            return Some(k - 1);
        }
        k -= 1;
    }
    None
}

/// `c` has a prop called `name`.
pub open spec fn has_prop(c: ComponentInfoView, name: Seq<char>) -> bool {
    exists|k: int| 0 <= k < c.props.len() && (#[trigger] c.props[k]).name == name
}

pub fn has_prop_named(c: &ComponentInfo, name: &str) -> (r: bool)
    ensures
        r == has_prop(c.deep_view(), name@),
{
    let ghost v = c.deep_view();
    let mut k: usize = 0;
    while k < c.props.len()
        invariant
            k <= c.props.len(),
            v == c.deep_view(),
            forall|m: int| 0 <= m < k ==> (#[trigger] v.props[m]).name != name@,
        decreases c.props.len() - k,
    {
        assert(v.props[k as int] == c.props@[k as int].deep_view());
        if same(c.props[k].name.as_str(), name) {
            return true;
        }
        k += 1;
    }
    false
}

} // verus!
