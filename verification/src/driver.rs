use crate::errors::TransmuteError;
use crate::ir::{ir_pairs_view, lemma_ir_pairs_view, IrView, ResourceIr};
use crate::specification::{assoc, Complexity, ComplexityView, Specification, SpecificationView,
    lookup_property_rule, lookup_type_rule};
use crate::translate::{translate_resource, translate_spec, CtxView, ResourceTranslationInputs};
use crate::values::{lemma_rv_pairs_view, rv_pairs_view, CloudformationParseTree,
    ResourceParseTree, ResourceView, TreeView, ValView};
use vstd::prelude::*;
use vstd::string::StringExecFns;

verus! {

/// Everything the code generator needs to emit one resource assignment.
#[derive(Debug, PartialEq)]
pub struct ResourceInstruction {
    pub name: String,
    pub condition: Option<String>,
    pub resource_type: String,
    pub properties: Vec<(String, ResourceIr)>,
}

/// The mathematical image of a resource instruction.
pub struct InstrView {
    pub name: Seq<char>,
    pub condition: Option<Seq<char>>,
    pub resource_type: Seq<char>,
    pub properties: Seq<(Seq<char>, IrView)>,
}

impl View for ResourceInstruction {
    type V = InstrView;

    open spec fn view(&self) -> InstrView {
        InstrView {
            name: self.name@,
            condition: match self.condition {
                Option::Some(c) => Option::Some(c@),
                Option::None => Option::None,
            },
            resource_type: self.resource_type@,
            properties: ir_pairs_view(self.properties@),
        }
    }
}

pub open spec fn instrs_view(s: Seq<ResourceInstruction>) -> Seq<InstrView> {
    Seq::new(s.len(), |i: int| s[i]@)
}

pub open spec fn errs_view(s: Seq<(String, TransmuteError)>) -> Seq<(Seq<char>, Seq<char>)> {
    Seq::new(s.len(), |i: int| (s[i].0@, s[i].1@))
}

pub open spec fn err_unknown_resource_type(rt: Seq<char>) -> Seq<char> {
    "unknown resource type "@ + rt
}

pub open spec fn err_unknown_resource_property(k: Seq<char>, rt: Seq<char>) -> Seq<char> {
    "unknown property "@ + k + " for resource type "@ + rt
}

/// The fresh context a top-level property of a resource is translated under.
pub open spec fn top_ctx(
    c: ComplexityView,
    resource_type: Seq<char>,
    db: SpecificationView,
    tree: TreeView,
) -> CtxView {
    CtxView {
        complexity: c,
        property_type: match c {
            ComplexityView::Complex(t) => Option::Some(t),
            ComplexityView::Simple(_) => Option::None,
        },
        resource_type,
        spec_db: db,
        tree,
    }
}

/// Entry-wise translation of a resource's declared properties: each name is
/// looked up among the resource type's declared properties and its value is
/// translated under the context so derived; the first failure aborts the
/// resource.
pub open spec fn props_spec(
    entries: Seq<(Seq<char>, ValView)>,
    declared: Option<Seq<(Seq<char>, ComplexityView)>>,
    resource_type: Seq<char>,
    db: SpecificationView,
    tree: TreeView,
) -> Result<Seq<(Seq<char>, IrView)>, Seq<char>>
    decreases entries.len(),
{
    if entries.len() == 0 {
        Result::Ok(Seq::empty())
    } else {
        match props_spec(entries.drop_last(), declared, resource_type, db, tree) {
            Result::Ok(acc) => match declared {
                Option::None => Result::Err(
                    err_unknown_resource_property(entries.last().0, resource_type),
                ),
                Option::Some(props) => match assoc(props, entries.last().0) {
                    Option::None => Result::Err(
                        err_unknown_resource_property(entries.last().0, resource_type),
                    ),
                    Option::Some(c) => match translate_spec(
                        entries.last().1,
                        top_ctx(c, resource_type, db, tree),
                    ) {
                        Result::Ok(ir) => Result::Ok(acc.push((entries.last().0, ir))),
                        Result::Err(e) => Result::Err(e),
                    },
                },
            },
            Result::Err(e) => Result::Err(e),
        }
    }
}

/// What the driver yields on one declared resource: the instruction, or the
/// first structural error of its properties in declaration order.
pub open spec fn resource_spec(r: ResourceView, db: SpecificationView, tree: TreeView) -> Result<
    InstrView,
    Seq<char>,
> {
    match assoc(db.resource_types, r.resource_type) {
        Option::None => Result::Err(err_unknown_resource_type(r.resource_type)),
        Option::Some(trule) => match props_spec(r.properties, trule.properties, r.resource_type, db, tree) {
            Result::Ok(ps) => Result::Ok(
                InstrView {
                    name: r.name,
                    condition: r.condition,
                    resource_type: r.resource_type,
                    properties: ps,
                },
            ),
            Result::Err(e) => Result::Err(e),
        },
    }
}

/// What the whole pass yields: the instructions of the resources that
/// translated, in declaration order, and one named error for each resource
/// that failed, also in declaration order.
pub open spec fn translates_spec(
    resources: Seq<ResourceView>,
    db: SpecificationView,
    tree: TreeView,
) -> (Seq<InstrView>, Seq<(Seq<char>, Seq<char>)>)
    decreases resources.len(),
{
    if resources.len() == 0 {
        (Seq::empty(), Seq::empty())
    } else {
        let prev = translates_spec(resources.drop_last(), db, tree);
        match resource_spec(resources.last(), db, tree) {
            Result::Ok(instr) => (prev.0.push(instr), prev.1),
            Result::Err(e) => (prev.0, prev.1.push((resources.last().name, e))),
        }
    }
}

pub proof fn lemma_props_err_extend(
    entries: Seq<(Seq<char>, ValView)>,
    declared: Option<Seq<(Seq<char>, ComplexityView)>>,
    resource_type: Seq<char>,
    db: SpecificationView,
    tree: TreeView,
    i: int,
    j: int,
)
    requires
        0 <= i <= j <= entries.len(),
        props_spec(entries.take(i), declared, resource_type, db, tree) is Err,
    ensures
        props_spec(entries.take(j), declared, resource_type, db, tree) == props_spec(
            entries.take(i),
            declared,
            resource_type,
            db,
            tree,
        ),
    decreases j - i,
{
    if j > i {
        lemma_props_err_extend(entries, declared, resource_type, db, tree, i, j - 1);
        assert(entries.take(j).drop_last() =~= entries.take(j - 1));
    }
}

/// Translates one declared resource into its instruction, or reports the
/// first structural error of its properties.
#[verifier::loop_isolation(false)]
fn translate_resource_entry(
    resource: &ResourceParseTree,
    specification: &Specification,
    parse_tree: &CloudformationParseTree,
) -> (r: Result<ResourceInstruction, TransmuteError>)
    ensures
        (match r {
            Result::Ok(instr) => resource_spec(resource@, specification@, parse_tree@)
                == Result::Ok::<InstrView, Seq<char>>(instr@),
            Result::Err(e) => resource_spec(resource@, specification@, parse_tree@)
                == Result::Err::<InstrView, Seq<char>>(e@),
        }),
{
    let rule = match lookup_type_rule(
        &specification.resource_types,
        resource.resource_type.as_str(),
    ) {
        Option::Some(rule) => rule,
        Option::None => {
            let msg = String::from_str("unknown resource type ").concat(
                resource.resource_type.as_str(),
            );
            proof {
                assert(msg@ =~= err_unknown_resource_type(resource@.resource_type));
            }
            return Result::Err(TransmuteError { details: msg });
        },
    };
    let ghost ventries = rv_pairs_view(resource.properties@);
    let ghost declared = rule@.properties;
    proof {
        lemma_rv_pairs_view(resource.properties@);
    }
    let mut props: Vec<(String, ResourceIr)> = Vec::new();
    let mut i: usize = 0;
    while i < resource.properties.len()
        invariant
            0 <= i <= resource.properties.len(),
            props_spec(ventries.take(i as int), declared, resource@.resource_type,
                specification@, parse_tree@) == Result::Ok::<
                Seq<(Seq<char>, IrView)>,
                Seq<char>,
            >(ir_pairs_view(props@)),
        decreases resource.properties.len() - i,
    {
        proof {
            assert(ventries.take(i + 1).drop_last() =~= ventries.take(i as int));
            assert(ventries.take(i + 1).last() == ventries[i as int]);
        }
        match &rule.properties {
            Option::None => {
                let msg = String::from_str("unknown property ").concat(
                    resource.properties[i].0.as_str(),
                ).concat(" for resource type ").concat(resource.resource_type.as_str());
                proof {
                    assert(msg@ =~= err_unknown_resource_property(
                        ventries[i as int].0,
                        resource@.resource_type,
                    ));
                    lemma_props_err_extend(ventries, declared, resource@.resource_type,
                        specification@, parse_tree@, i + 1, ventries.len() as int);
                    assert(ventries.take(ventries.len() as int) =~= ventries);
                }
                return Result::Err(TransmuteError { details: msg });
            },
            Option::Some(decl) => {
                match lookup_property_rule(decl, resource.properties[i].0.as_str()) {
                    Option::None => {
                        let msg = String::from_str("unknown property ").concat(
                            resource.properties[i].0.as_str(),
                        ).concat(" for resource type ").concat(resource.resource_type.as_str());
                        proof {
                            assert(msg@ =~= err_unknown_resource_property(
                                ventries[i as int].0,
                                resource@.resource_type,
                            ));
                            lemma_props_err_extend(ventries, declared, resource@.resource_type,
                                specification@, parse_tree@, i + 1, ventries.len() as int);
                            assert(ventries.take(ventries.len() as int) =~= ventries);
                        }
                        return Result::Err(TransmuteError { details: msg });
                    },
                    Option::Some(prule) => {
                        let pt: Option<&str> = match &prule.complexity {
                            Complexity::Complex(tn) => Option::Some(tn.as_str()),
                            Complexity::Simple(_) => Option::None,
                        };
                        let rt_inputs = ResourceTranslationInputs {
                            parse_tree,
                            specification,
                            complexity: prule.get_complexity(),
                            property_type: pt,
                            resource_type: resource.resource_type.as_str(),
                        };
                        proof {
                            assert(rt_inputs@ == top_ctx(prule@, resource@.resource_type,
                                specification@, parse_tree@));
                        }
                        match translate_resource(&resource.properties[i].1, &rt_inputs) {
                            Result::Ok(ir) => {
                                let ghost props0 = props@;
                                let ghost vir = ir@;
                                props.push((resource.properties[i].0.clone(), ir));
                                proof {
                                    lemma_ir_pairs_view(props0);
                                    lemma_ir_pairs_view(props@);
                                    assert(ir_pairs_view(props@) =~= ir_pairs_view(props0).push(
                                        (resource.properties@[i as int].0@, vir),
                                    ));
                                }
                            },
                            Result::Err(e) => {
                                proof {
                                    lemma_props_err_extend(ventries, declared,
                                        resource@.resource_type, specification@, parse_tree@,
                                        i + 1, ventries.len() as int);
                                    assert(ventries.take(ventries.len() as int) =~= ventries);
                                }
                                return Result::Err(e);
                            },
                        }
                    },
                }
            },
        }
        i = i + 1;
    }
    proof {
        assert(ventries.take(resource.properties@.len() as int) =~= ventries);
    }
    let condition = match &resource.condition {
        Option::Some(c) => Option::Some(c.clone()),
        Option::None => Option::None,
    };
    Result::Ok(
        ResourceInstruction {
            name: resource.name.clone(),
            condition,
            resource_type: resource.resource_type.clone(),
            properties: props,
        },
    )
}

/// The resource driver: translates every declared resource independently, in
/// declaration order, collecting an instruction per resource that translates
/// and a named error per resource that does not, so that one malformed
/// resource does not hide the rest.
#[verifier::loop_isolation(false)]
pub fn translates_resources(
    parse_tree: &CloudformationParseTree,
    specification: &Specification,
) -> (out: (Vec<ResourceInstruction>, Vec<(String, TransmuteError)>))
    ensures
        instrs_view(out.0@) == translates_spec(parse_tree@.resources, specification@,
            parse_tree@).0,
        errs_view(out.1@) == translates_spec(parse_tree@.resources, specification@,
            parse_tree@).1,
{
    let ghost vres = parse_tree@.resources;
    let mut instrs: Vec<ResourceInstruction> = Vec::new();
    let mut errs: Vec<(String, TransmuteError)> = Vec::new();
    let mut i: usize = 0;
    while i < parse_tree.resources.len()
        invariant
            0 <= i <= parse_tree.resources.len(),
            translates_spec(vres.take(i as int), specification@, parse_tree@) == (
                instrs_view(instrs@),
                errs_view(errs@),
            ),
        decreases parse_tree.resources.len() - i,
    {
        let resource = &parse_tree.resources[i];
        proof {
            assert(vres.take(i + 1).drop_last() =~= vres.take(i as int));
            assert(vres.take(i + 1).last() == vres[i as int]);
            assert(vres[i as int] == resource@);
        }
        match translate_resource_entry(resource, specification, parse_tree) {
            Result::Ok(instr) => {
                let ghost instrs0 = instrs@;
                let ghost vinstr = instr@;
                instrs.push(instr);
                proof {
                    assert(instrs_view(instrs@) =~= instrs_view(instrs0).push(vinstr));
                }
            },
            Result::Err(e) => {
                let ghost errs0 = errs@;
                let ghost ve = e@;
                errs.push((resource.name.clone(), e));
                proof {
                    assert(errs_view(errs@) =~= errs_view(errs0).push((resource@.name, ve)));
                }
            },
        }
        i = i + 1;
    }
    proof {
        assert(vres.take(parse_tree.resources@.len() as int) =~= vres);
    }
    (instrs, errs)
}

} // verus!
