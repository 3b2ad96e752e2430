use crate::text::str_eq;
use vstd::prelude::*;

verus! {

/// Classification of a property, as declared by the specification database:
/// a `Simple` value is traversed generically, a `Complex` one has its own
/// named sub-properties under the carried full property-type name.
#[derive(Debug, PartialEq, Eq)]
pub enum Complexity {
    Simple(Option<String>),
    Complex(String),
}

/// The mathematical image of a `Complexity`: the same two-way tag over
/// character sequences.
pub enum ComplexityView {
    Simple(Option<Seq<char>>),
    Complex(Seq<char>),
}

impl View for Complexity {
    type V = ComplexityView;

    open spec fn view(&self) -> ComplexityView {
        match self {
            Complexity::Simple(o) => ComplexityView::Simple(
                match o {
                    Option::Some(s) => Option::Some(s@),
                    Option::None => Option::None,
                },
            ),
            Complexity::Complex(s) => ComplexityView::Complex(s@),
        }
    }
}

impl Clone for Complexity {
    fn clone(&self) -> (c: Self)
        ensures
            c@ == self@,
    {
        match self {
            Complexity::Simple(o) => Complexity::Simple(
                match o {
                    Option::Some(s) => Option::Some(s.clone()),
                    Option::None => Option::None,
                },
            ),
            Complexity::Complex(s) => Complexity::Complex(s.clone()),
        }
    }
}

/// One declared property of a resource type or of a property type.
pub struct PropertyRule {
    pub complexity: Complexity,
}

impl View for PropertyRule {
    type V = ComplexityView;

    open spec fn view(&self) -> ComplexityView {
        self.complexity@
    }
}

impl PropertyRule {
    pub fn get_complexity(&self) -> (c: Complexity)
        ensures
            c@ == self@,
    {
        self.complexity.clone()
    }
}

/// The declared properties of one resource type or property type.  A type
/// may be listed with no property table at all.
pub struct TypeRule {
    pub properties: Option<Vec<(String, PropertyRule)>>,
}

/// The mathematical image of a `TypeRule`.
pub struct TypeRuleView {
    pub properties: Option<Seq<(Seq<char>, ComplexityView)>>,
}

pub open spec fn rules_view(s: Seq<(String, PropertyRule)>) -> Seq<(Seq<char>, ComplexityView)> {
    Seq::new(s.len(), |i: int| (s[i].0@, s[i].1@))
}

impl View for TypeRule {
    type V = TypeRuleView;

    open spec fn view(&self) -> TypeRuleView {
        TypeRuleView {
            properties: match self.properties {
                Option::Some(v) => Option::Some(rules_view(v@)),
                Option::None => Option::None,
            },
        }
    }
}

/// The resource-type specification database: two read-only tables, one for
/// resource types and one for nested property types.  Each is an ordered
/// association list keyed by type name; a lookup takes the first match.
pub struct Specification {
    pub resource_types: Vec<(String, TypeRule)>,
    pub property_types: Vec<(String, TypeRule)>,
}

/// The mathematical image of the database.
pub struct SpecificationView {
    pub resource_types: Seq<(Seq<char>, TypeRuleView)>,
    pub property_types: Seq<(Seq<char>, TypeRuleView)>,
}

pub open spec fn types_view(s: Seq<(String, TypeRule)>) -> Seq<(Seq<char>, TypeRuleView)> {
    Seq::new(s.len(), |i: int| (s[i].0@, s[i].1@))
}

impl View for Specification {
    type V = SpecificationView;

    open spec fn view(&self) -> SpecificationView {
        SpecificationView {
            resource_types: types_view(self.resource_types@),
            property_types: types_view(self.property_types@),
        }
    }
}

/// First-match lookup in an association list, scanning from position `i`.
pub open spec fn assoc_at<V>(s: Seq<(Seq<char>, V)>, key: Seq<char>, i: int) -> Option<V>
    decreases s.len() - i,
{
    if i < 0 || i >= s.len() {
        Option::None
    } else if s[i].0 == key {
        Option::Some(s[i].1)
    } else {
        assoc_at(s, key, i + 1)
    }
}

/// First-match lookup in an association list keyed by character sequences.
pub open spec fn assoc<V>(s: Seq<(Seq<char>, V)>, key: Seq<char>) -> Option<V> {
    assoc_at(s, key, 0)
}

/// Looks a type name up in one of the database's two tables.
pub fn lookup_type_rule<'s>(table: &'s Vec<(String, TypeRule)>, key: &str) -> (r: Option<
    &'s TypeRule,
>)
    ensures
        match r {
            Option::Some(rule) => assoc(types_view(table@), key@) == Option::Some(rule@),
            Option::None => assoc(types_view(table@), key@) is None,
        },
{
    let ghost tv = types_view(table@);
    let mut i: usize = 0;
    while i < table.len()
        invariant
            0 <= i <= table.len(),
            tv == types_view(table@),
            tv.len() == table.len(),
            forall|j: int| 0 <= j < tv.len() ==> tv[j] == (table@[j].0@, table@[j].1@),
            assoc(tv, key@) == assoc_at(tv, key@, i as int),
        decreases table.len() - i,
    {
        if str_eq(table[i].0.as_str(), key) {
            return Option::Some(&table[i].1);
        }
        i = i + 1;
    }
    Option::None
}

/// Looks a property name up in a declared property table.
pub fn lookup_property_rule<'s>(table: &'s Vec<(String, PropertyRule)>, key: &str) -> (r: Option<
    &'s PropertyRule,
>)
    ensures
        match r {
            Option::Some(rule) => assoc(rules_view(table@), key@) == Option::Some(rule@),
            Option::None => assoc(rules_view(table@), key@) is None,
        },
{
    let ghost tv = rules_view(table@);
    let mut i: usize = 0;
    while i < table.len()
        invariant
            0 <= i <= table.len(),
            tv == rules_view(table@),
            tv.len() == table.len(),
            forall|j: int| 0 <= j < tv.len() ==> tv[j] == (table@[j].0@, table@[j].1@),
            assoc(tv, key@) == assoc_at(tv, key@, i as int),
        decreases table.len() - i,
    {
        if str_eq(table[i].0.as_str(), key) {
            return Option::Some(&table[i].1);
        }
        i = i + 1;
    }
    Option::None
}

} // verus!
