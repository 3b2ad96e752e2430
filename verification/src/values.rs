use vstd::prelude::*;

verus! {

/// The raw property-value tree handed over by the template parser: plain
/// scalars and containers, plus the six intrinsic-function forms.
pub enum ResourceValue {
    Null,
    Bool(bool),
    Number(i64),
    String(String),
    Array(Vec<ResourceValue>),
    Object(Vec<(String, ResourceValue)>),
    /// conditional(condition name expression, true branch, false branch)
    If(Box<ResourceValue>, Box<ResourceValue>, Box<ResourceValue>),
    /// join(first element is the separator, the rest are the operands)
    Join(Vec<ResourceValue>),
    /// symbol reference
    Ref(String),
    /// attribute lookup(resource expression, attribute expression)
    GetAtt(Box<ResourceValue>, Box<ResourceValue>),
    /// map lookup(mapper expression, first key, second key)
    FindInMap(Box<ResourceValue>, Box<ResourceValue>, Box<ResourceValue>),
    /// substitution(first element is the template string, the rest are
    /// override objects)
    Sub(Vec<ResourceValue>),
}

/// The mathematical image of a raw value: the same tree over character
/// sequences.
pub enum ValView {
    Null,
    Bool(bool),
    Number(i64),
    Str(Seq<char>),
    Array(Seq<ValView>),
    Object(Seq<(Seq<char>, ValView)>),
    If(Box<ValView>, Box<ValView>, Box<ValView>),
    Join(Seq<ValView>),
    Ref(Seq<char>),
    GetAtt(Box<ValView>, Box<ValView>),
    FindInMap(Box<ValView>, Box<ValView>, Box<ValView>),
    Sub(Seq<ValView>),
}

pub open spec fn rvs_view(s: Seq<ResourceValue>) -> Seq<ValView>
    decreases s,
{
    if s.len() == 0 {
        Seq::empty()
    } else {
        seq![rv_view(s[0])] + rvs_view(s.drop_first())
    }
}

pub open spec fn rv_pairs_view(s: Seq<(String, ResourceValue)>) -> Seq<(Seq<char>, ValView)>
    decreases s,
{
    if s.len() == 0 {
        Seq::empty()
    } else {
        seq![(s[0].0@, rv_view(s[0].1))] + rv_pairs_view(s.drop_first())
    }
}

pub broadcast proof fn lemma_rvs_view(s: Seq<ResourceValue>)
    ensures
        (#[trigger] rvs_view(s)).len() == s.len(),
        forall|i: int| 0 <= i < s.len() ==> rvs_view(s)[i] == rv_view(s[i]),
    decreases s.len(),
{
    if s.len() > 0 {
        lemma_rvs_view(s.drop_first());
    }
}

pub broadcast proof fn lemma_rv_pairs_view(s: Seq<(String, ResourceValue)>)
    ensures
        (#[trigger] rv_pairs_view(s)).len() == s.len(),
        forall|i: int|
            0 <= i < s.len() ==> rv_pairs_view(s)[i] == (s[i].0@, rv_view(s[i].1)),
    decreases s.len(),
{
    if s.len() > 0 {
        lemma_rv_pairs_view(s.drop_first());
    }
}

pub open spec fn rv_view(v: ResourceValue) -> ValView
    decreases v,
{
    match v {
        ResourceValue::Null => ValView::Null,
        ResourceValue::Bool(b) => ValView::Bool(b),
        ResourceValue::Number(n) => ValView::Number(n),
        ResourceValue::String(s) => ValView::Str(s@),
        ResourceValue::Array(a) => ValView::Array(rvs_view(a@)),
        ResourceValue::Object(o) => ValView::Object(rv_pairs_view(o@)),
        ResourceValue::If(c, t, f) => ValView::If(
            Box::new(rv_view(*c)),
            Box::new(rv_view(*t)),
            Box::new(rv_view(*f)),
        ),
        ResourceValue::Join(a) => ValView::Join(rvs_view(a@)),
        ResourceValue::Ref(s) => ValView::Ref(s@),
        ResourceValue::GetAtt(n, at) => ValView::GetAtt(
            Box::new(rv_view(*n)),
            Box::new(rv_view(*at)),
        ),
        ResourceValue::FindInMap(m, k1, k2) => ValView::FindInMap(
            Box::new(rv_view(*m)),
            Box::new(rv_view(*k1)),
            Box::new(rv_view(*k2)),
        ),
        ResourceValue::Sub(a) => ValView::Sub(rvs_view(a@)),
    }
}

impl View for ResourceValue {
    type V = ValView;

    open spec fn view(&self) -> ValView {
        rv_view(*self)
    }
}

/// One declared resource of the raw template.
pub struct ResourceParseTree {
    pub name: String,
    pub resource_type: String,
    pub condition: Option<String>,
    pub properties: Vec<(String, ResourceValue)>,
}

/// The mathematical image of a declared resource.
pub struct ResourceView {
    pub name: Seq<char>,
    pub resource_type: Seq<char>,
    pub condition: Option<Seq<char>>,
    pub properties: Seq<(Seq<char>, ValView)>,
}

impl View for ResourceParseTree {
    type V = ResourceView;

    open spec fn view(&self) -> ResourceView {
        ResourceView {
            name: self.name@,
            resource_type: self.resource_type@,
            condition: match self.condition {
                Option::Some(c) => Option::Some(c@),
                Option::None => Option::None,
            },
            properties: rv_pairs_view(self.properties@),
        }
    }
}

/// The raw template: the declared resources in declaration order, and the
/// names of the declared template parameters.
pub struct CloudformationParseTree {
    pub resources: Vec<ResourceParseTree>,
    pub parameters: Vec<String>,
}

/// The mathematical image of the raw template.
pub struct TreeView {
    pub resources: Seq<ResourceView>,
    pub parameters: Seq<Seq<char>>,
}

impl View for CloudformationParseTree {
    type V = TreeView;

    open spec fn view(&self) -> TreeView {
        TreeView {
            resources: Seq::new(self.resources@.len(), |i: int| self.resources@[i]@),
            parameters: Seq::new(self.parameters@.len(), |i: int| self.parameters@[i]@),
        }
    }
}

} // verus!
