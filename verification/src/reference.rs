use crate::text::str_eq;
use vstd::prelude::*;

verus! {

/// The built-in, template-independent symbols of the template language.
#[derive(Clone, Copy, Debug, PartialEq, Eq, Structural)]
pub enum PseudoParameter {
    Partition,
    Region,
    StackId,
    StackName,
    AccountId,
    NoValue,
    NotificationArns,
}

/// Where a referenced symbol comes from: a built-in pseudo-parameter, a
/// declared template parameter, or (as the unchecked fallback) the logical
/// identifier of another resource of the same template.
#[derive(Clone, Copy, Debug, PartialEq, Eq, Structural)]
pub enum Origin {
    PseudoParameter(PseudoParameter),
    Parameter,
    LogicalId,
}

/// A resolved symbol reference.
#[derive(Debug, PartialEq)]
pub struct Reference {
    pub name: String,
    pub origin: Origin,
}

/// The mathematical image of a reference.
pub struct ReferenceView {
    pub name: Seq<char>,
    pub origin: Origin,
}

impl View for Reference {
    type V = ReferenceView;

    open spec fn view(&self) -> ReferenceView {
        ReferenceView { name: self.name@, origin: self.origin }
    }
}

impl Reference {
    pub fn new(name: &str, origin: Origin) -> (r: Reference)
        ensures
            r@ == (ReferenceView { name: name@, origin }),
    {
        Reference { name: name.to_owned(), origin }
    }

    /// The pseudo-parameter a symbol denotes, if any.
    pub fn match_pseudo_parameter(name: &str) -> (r: Option<PseudoParameter>)
        ensures
            r == pseudo_parameter_of(name@),
    {
        if str_eq(name, "AWS::Partition") {
            Option::Some(PseudoParameter::Partition)
        } else if str_eq(name, "AWS::Region") {
            Option::Some(PseudoParameter::Region)
        } else if str_eq(name, "AWS::StackId") {
            Option::Some(PseudoParameter::StackId)
        } else if str_eq(name, "AWS::StackName") {
            Option::Some(PseudoParameter::StackName)
        } else if str_eq(name, "AWS::AccountId") {
            Option::Some(PseudoParameter::AccountId)
        } else if str_eq(name, "AWS::NoValue") {
            Option::Some(PseudoParameter::NoValue)
        } else if str_eq(name, "AWS::NotificationARNs") {
            Option::Some(PseudoParameter::NotificationArns)
        } else {
            Option::None
        }
    }
}

/// The fixed pseudo-parameter table, by symbol name.
pub open spec fn pseudo_parameter_of(name: Seq<char>) -> Option<PseudoParameter> {
    if name == "AWS::Partition"@ {
        Option::Some(PseudoParameter::Partition)
    } else if name == "AWS::Region"@ {
        Option::Some(PseudoParameter::Region)
    } else if name == "AWS::StackId"@ {
        Option::Some(PseudoParameter::StackId)
    } else if name == "AWS::StackName"@ {
        Option::Some(PseudoParameter::StackName)
    } else if name == "AWS::AccountId"@ {
        Option::Some(PseudoParameter::AccountId)
    } else if name == "AWS::NoValue"@ {
        Option::Some(PseudoParameter::NoValue)
    } else if name == "AWS::NotificationARNs"@ {
        Option::Some(PseudoParameter::NotificationArns)
    } else {
        Option::None
    }
}

/// Fixed resolution order for a bare symbol: the pseudo-parameter table
/// first, then the template's declared parameter names, and otherwise the
/// logical-identifier fallback.
pub open spec fn resolve_spec(name: Seq<char>, parameters: Seq<Seq<char>>) -> ReferenceView {
    match pseudo_parameter_of(name) {
        Option::Some(p) => ReferenceView { name, origin: Origin::PseudoParameter(p) },
        Option::None => if parameters.contains(name) {
            ReferenceView { name, origin: Origin::Parameter }
        } else {
            ReferenceView { name, origin: Origin::LogicalId }
        },
    }
}

} // verus!
