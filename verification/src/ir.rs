use crate::reference::{Reference, ReferenceView};
use crate::specification::{Complexity, ComplexityView};
use vstd::prelude::*;

verus! {

/// The typed intermediate representation produced by translation.  `Array`
/// and `Object` carry forward the complexity tag that produced them, which
/// the code generator needs to decide its emission shape.
#[derive(Debug, PartialEq)]
pub enum ResourceIr {
    Null,
    Bool(bool),
    Number(i64),
    String(String),
    Array(Complexity, Vec<ResourceIr>),
    Object(Complexity, Vec<(String, ResourceIr)>),
    /// If(condition name, true branch, false branch)
    If(String, Box<ResourceIr>, Box<ResourceIr>),
    /// Join(separator, operands)
    Join(String, Vec<ResourceIr>),
    Ref(Reference),
    /// GetAtt(resource name, attribute name)
    GetAtt(String, String),
    /// Sub(ordered fragment sequence)
    Sub(Vec<ResourceIr>),
    /// map lookup(mapper, first key, second key)
    FindInMap(Box<ResourceIr>, Box<ResourceIr>, Box<ResourceIr>),
}

/// The mathematical image of an IR node: the same tree over character
/// sequences.
pub enum IrView {
    Null,
    Bool(bool),
    Number(i64),
    Str(Seq<char>),
    Array(ComplexityView, Seq<IrView>),
    Object(ComplexityView, Seq<(Seq<char>, IrView)>),
    If(Seq<char>, Box<IrView>, Box<IrView>),
    Join(Seq<char>, Seq<IrView>),
    Ref(ReferenceView),
    GetAtt(Seq<char>, Seq<char>),
    Sub(Seq<IrView>),
    FindInMap(Box<IrView>, Box<IrView>, Box<IrView>),
}

pub open spec fn irs_view(s: Seq<ResourceIr>) -> Seq<IrView>
    decreases s,
{
    if s.len() == 0 {
        Seq::empty()
    } else {
        seq![ir_view(s[0])] + irs_view(s.drop_first())
    }
}

pub open spec fn ir_pairs_view(s: Seq<(String, ResourceIr)>) -> Seq<(Seq<char>, IrView)>
    decreases s,
{
    if s.len() == 0 {
        Seq::empty()
    } else {
        seq![(s[0].0@, ir_view(s[0].1))] + ir_pairs_view(s.drop_first())
    }
}

pub open spec fn ir_view(ir: ResourceIr) -> IrView
    decreases ir,
{
    match ir {
        ResourceIr::Null => IrView::Null,
        ResourceIr::Bool(b) => IrView::Bool(b),
        ResourceIr::Number(n) => IrView::Number(n),
        ResourceIr::String(s) => IrView::Str(s@),
        ResourceIr::Array(c, items) => IrView::Array(c@, irs_view(items@)),
        ResourceIr::Object(c, entries) => IrView::Object(c@, ir_pairs_view(entries@)),
        ResourceIr::If(cond, t, f) => IrView::If(
            cond@,
            Box::new(ir_view(*t)),
            Box::new(ir_view(*f)),
        ),
        ResourceIr::Join(sep, items) => IrView::Join(sep@, irs_view(items@)),
        ResourceIr::Ref(r) => IrView::Ref(r@),
        ResourceIr::GetAtt(n, a) => IrView::GetAtt(n@, a@),
        ResourceIr::Sub(items) => IrView::Sub(irs_view(items@)),
        ResourceIr::FindInMap(m, k1, k2) => IrView::FindInMap(
            Box::new(ir_view(*m)),
            Box::new(ir_view(*k1)),
            Box::new(ir_view(*k2)),
        ),
    }
}

impl View for ResourceIr {
    type V = IrView;

    open spec fn view(&self) -> IrView {
        ir_view(*self)
    }
}

pub broadcast proof fn lemma_irs_view(s: Seq<ResourceIr>)
    ensures
        (#[trigger] irs_view(s)).len() == s.len(),
        forall|i: int| 0 <= i < s.len() ==> irs_view(s)[i] == ir_view(s[i]),
    decreases s.len(),
{
    if s.len() > 0 {
        lemma_irs_view(s.drop_first());
    }
}

pub broadcast proof fn lemma_ir_pairs_view(s: Seq<(String, ResourceIr)>)
    ensures
        (#[trigger] ir_pairs_view(s)).len() == s.len(),
        forall|i: int|
            0 <= i < s.len() ==> ir_pairs_view(s)[i] == (s[i].0@, ir_view(s[i].1)),
    decreases s.len(),
{
    if s.len() > 0 {
        lemma_ir_pairs_view(s.drop_first());
    }
}

impl Clone for ResourceIr {
    #[verifier::loop_isolation(false)]
    fn clone(&self) -> (c: Self)
        ensures
            c@ == self@,
        decreases self,
    {
        match self {
            ResourceIr::Null => ResourceIr::Null,
            ResourceIr::Bool(b) => ResourceIr::Bool(*b),
            ResourceIr::Number(n) => ResourceIr::Number(*n),
            ResourceIr::String(s) => ResourceIr::String(s.clone()),
            ResourceIr::Array(c, items) => {
                let mut out: Vec<ResourceIr> = Vec::new();
                let mut i: usize = 0;
                while i < items.len()
                    invariant
                        0 <= i <= items.len(),
                        out@.len() == i,
                        forall|k: int| 0 <= k < i ==> ir_view(out@[k]) == ir_view(items@[k]),
                    decreases items.len() - i,
                {
                    out.push(items[i].clone());
                    i = i + 1;
                }
                proof {
                    lemma_irs_view(out@);
                    lemma_irs_view(items@);
                    assert(irs_view(out@) =~= irs_view(items@));
                }
                ResourceIr::Array(c.clone(), out)
            },
            ResourceIr::Object(c, entries) => {
                let mut out: Vec<(String, ResourceIr)> = Vec::new();
                let mut i: usize = 0;
                while i < entries.len()
                    invariant
                        0 <= i <= entries.len(),
                        out@.len() == i,
                        forall|k: int|
                            0 <= k < i ==> out@[k].0@ == entries@[k].0@ && ir_view(out@[k].1)
                                == ir_view(entries@[k].1),
                    decreases entries.len() - i,
                {
                    out.push((entries[i].0.clone(), entries[i].1.clone()));
                    i = i + 1;
                }
                proof {
                    lemma_ir_pairs_view(out@);
                    lemma_ir_pairs_view(entries@);
                    assert(ir_pairs_view(out@) =~= ir_pairs_view(entries@));
                }
                ResourceIr::Object(c.clone(), out)
            },
            ResourceIr::If(cond, t, f) => ResourceIr::If(
                cond.clone(),
                Box::new((&**t).clone()),
                Box::new((&**f).clone()),
            ),
            ResourceIr::Join(sep, items) => {
                let mut out: Vec<ResourceIr> = Vec::new();
                let mut i: usize = 0;
                while i < items.len()
                    invariant
                        0 <= i <= items.len(),
                        out@.len() == i,
                        forall|k: int| 0 <= k < i ==> ir_view(out@[k]) == ir_view(items@[k]),
                    decreases items.len() - i,
                {
                    out.push(items[i].clone());
                    i = i + 1;
                }
                proof {
                    lemma_irs_view(out@);
                    lemma_irs_view(items@);
                    assert(irs_view(out@) =~= irs_view(items@));
                }
                ResourceIr::Join(sep.clone(), out)
            },
            ResourceIr::Ref(r) => ResourceIr::Ref(
                Reference { name: r.name.clone(), origin: r.origin },
            ),
            ResourceIr::GetAtt(n, a) => ResourceIr::GetAtt(n.clone(), a.clone()),
            ResourceIr::Sub(items) => {
                let mut out: Vec<ResourceIr> = Vec::new();
                let mut i: usize = 0;
                while i < items.len()
                    invariant
                        0 <= i <= items.len(),
                        out@.len() == i,
                        forall|k: int| 0 <= k < i ==> ir_view(out@[k]) == ir_view(items@[k]),
                    decreases items.len() - i,
                {
                    out.push(items[i].clone());
                    i = i + 1;
                }
                proof {
                    lemma_irs_view(out@);
                    lemma_irs_view(items@);
                    assert(irs_view(out@) =~= irs_view(items@));
                }
                ResourceIr::Sub(out)
            },
            ResourceIr::FindInMap(m, k1, k2) => ResourceIr::FindInMap(
                Box::new((&**m).clone()),
                Box::new((&**k1).clone()),
                Box::new((&**k2).clone()),
            ),
        }
    }
}

} // verus!
