use crate::errors::TransmuteError;
use crate::ir::{ir_pairs_view, ir_view, irs_view, lemma_ir_pairs_view, lemma_irs_view, IrView,
    ResourceIr};
use crate::reference::{resolve_spec, Origin, Reference};
use crate::specification::{assoc, Complexity, ComplexityView, Specification, SpecificationView,
    lookup_property_rule, lookup_type_rule};
use crate::sub::{frags_view, sub_parse_spec, sub_parse_tree, SubFrag, SubValue};
use crate::text::str_eq;
use crate::values::{lemma_rv_pairs_view, lemma_rvs_view, rv_pairs_view, rvs_view,
    CloudformationParseTree, ResourceValue, TreeView, ValView};
use vstd::prelude::*;
use vstd::string::StringExecFns;

verus! {

/// The context carried through the recursion: the current property's
/// complexity classification, the full property-type name when that
/// classification is complex, the owning resource type, and borrows of the
/// specification database and the raw template.
pub struct ResourceTranslationInputs<'t> {
    pub parse_tree: &'t CloudformationParseTree,
    pub specification: &'t Specification,
    pub complexity: Complexity,
    pub property_type: Option<&'t str>,
    pub resource_type: &'t str,
}

/// The mathematical image of a translation context.
pub struct CtxView {
    pub complexity: ComplexityView,
    pub property_type: Option<Seq<char>>,
    pub resource_type: Seq<char>,
    pub spec_db: SpecificationView,
    pub tree: TreeView,
}

impl<'t> View for ResourceTranslationInputs<'t> {
    type V = CtxView;

    open spec fn view(&self) -> CtxView {
        CtxView {
            complexity: self.complexity@,
            property_type: match self.property_type {
                Option::Some(s) => Option::Some(s@),
                Option::None => Option::None,
            },
            resource_type: self.resource_type@,
            spec_db: self.specification@,
            tree: self.parse_tree@,
        }
    }
}

/// The context invariant: the property-type name is present exactly when the
/// classification is complex, and then names that complex type.
pub open spec fn wf_ctx(ctx: CtxView) -> bool {
    match ctx.complexity {
        ComplexityView::Complex(t) => ctx.property_type == Option::Some(t),
        ComplexityView::Simple(_) => ctx.property_type is None,
    }
}

/// The fresh context derived for a nested property classified `c`; all
/// borrowed fields are carried over unchanged.
pub open spec fn child_ctx(c: ComplexityView, ctx: CtxView) -> CtxView {
    CtxView {
        complexity: c,
        property_type: match c {
            ComplexityView::Complex(t) => Option::Some(t),
            ComplexityView::Simple(_) => Option::None,
        },
        resource_type: ctx.resource_type,
        spec_db: ctx.spec_db,
        tree: ctx.tree,
    }
}

pub open spec fn err_unknown_property_type(t: Seq<char>) -> Seq<char> {
    "unknown property type "@ + t
}

pub open spec fn err_unknown_sub_property(k: Seq<char>, t: Seq<char>) -> Seq<char> {
    "unknown property "@ + k + " for property type "@ + t
}

/// What translation yields on a raw value under a context: the typed IR, or
/// the first structural error found in a left-to-right walk.
pub open spec fn translate_spec(v: ValView, ctx: CtxView) -> Result<IrView, Seq<char>>
    decreases v,
{
    match v {
        ValView::Null => Result::Ok(IrView::Null),
        ValView::Bool(b) => Result::Ok(IrView::Bool(b)),
        ValView::Number(n) => Result::Ok(IrView::Number(n)),
        ValView::Str(s) => Result::Ok(IrView::Str(s)),
        ValView::Array(items) => match translate_seq_spec(items, ctx) {
            Result::Ok(irs) => Result::Ok(IrView::Array(ctx.complexity, irs)),
            Result::Err(e) => Result::Err(e),
        },
        ValView::Object(entries) => match ctx.complexity {
            ComplexityView::Simple(_) => match translate_pairs_spec(entries, ctx) {
                Result::Ok(ps) => Result::Ok(IrView::Object(ctx.complexity, ps)),
                Result::Err(e) => Result::Err(e),
            },
            ComplexityView::Complex(t) => match translate_complex_pairs_spec(entries, t, ctx) {
                Result::Ok(ps) => Result::Ok(IrView::Object(ctx.complexity, ps)),
                Result::Err(e) => Result::Err(e),
            },
        },
        ValView::If(c, tb, fb) => match *c {
            ValView::Str(cond) => match translate_spec(*tb, ctx) {
                Result::Ok(ti) => match translate_spec(*fb, ctx) {
                    Result::Ok(fi) => Result::Ok(
                        IrView::If(cond, Box::new(ti), Box::new(fi)),
                    ),
                    Result::Err(e) => Result::Err(e),
                },
                Result::Err(e) => Result::Err(e),
            },
            _ => Result::Err("Resource value if statement truth must be a string"@),
        },
        ValView::Join(arr) => if arr.len() == 0 {
            Result::Err("Separator for join must be a string"@)
        } else {
            match arr[0] {
                ValView::Str(sep) => match translate_seq_spec(arr.drop_first(), ctx) {
                    Result::Ok(irs) => Result::Ok(IrView::Join(sep, irs)),
                    Result::Err(e) => Result::Err(e),
                },
                _ => Result::Err("Separator for join must be a string"@),
            }
        },
        ValView::Ref(name) => Result::Ok(
            IrView::Ref(resolve_spec(name, ctx.tree.parameters)),
        ),
        ValView::GetAtt(n, a) => match *n {
            ValView::Str(x) => match *a {
                ValView::Str(y) => Result::Ok(IrView::GetAtt(x, y)),
                _ => Result::Err("Get attribute first element must be a string"@),
            },
            _ => Result::Err("Get attribute first element must be a string"@),
        },
        ValView::FindInMap(m, k1, k2) => match translate_spec(*m, ctx) {
            Result::Ok(mi) => match translate_spec(*k1, ctx) {
                Result::Ok(i1) => match translate_spec(*k2, ctx) {
                    Result::Ok(i2) => Result::Ok(
                        IrView::FindInMap(Box::new(mi), Box::new(i1), Box::new(i2)),
                    ),
                    Result::Err(e) => Result::Err(e),
                },
                Result::Err(e) => Result::Err(e),
            },
            Result::Err(e) => Result::Err(e),
        },
        ValView::Sub(arr) => if arr.len() == 0 {
            Result::Err("First value in sub must be a string"@)
        } else {
            match arr[0] {
                ValView::Str(tpl) => match collect_overrides_spec(arr.drop_first(), ctx) {
                    Result::Ok(table) => match sub_parse_spec(tpl) {
                        Result::Ok(frags) => Result::Ok(
                            IrView::Sub(resolve_frags_spec(frags, table, ctx)),
                        ),
                        Result::Err(e) => Result::Err(e),
                    },
                    Result::Err(e) => Result::Err(e),
                },
                _ => Result::Err("First value in sub must be a string"@),
            }
        },
    }
}

/// Element-wise translation of a sequence, under one unchanged context,
/// short-circuiting at the first (leftmost) error.
pub open spec fn translate_seq_spec(s: Seq<ValView>, ctx: CtxView) -> Result<
    Seq<IrView>,
    Seq<char>,
>
    decreases s,
{
    if s.len() == 0 {
        Result::Ok(Seq::empty())
    } else {
        match translate_seq_spec(s.drop_last(), ctx) {
            Result::Ok(pre) => match translate_spec(s.last(), ctx) {
                Result::Ok(x) => Result::Ok(pre.push(x)),
                Result::Err(e) => Result::Err(e),
            },
            Result::Err(e) => Result::Err(e),
        }
    }
}

/// Entry-wise translation of a key-value sequence, every value under the
/// same context (schema-free objects and substitution override blocks).
pub open spec fn translate_pairs_spec(s: Seq<(Seq<char>, ValView)>, ctx: CtxView) -> Result<
    Seq<(Seq<char>, IrView)>,
    Seq<char>,
>
    decreases s,
{
    if s.len() == 0 {
        Result::Ok(Seq::empty())
    } else {
        match translate_pairs_spec(s.drop_last(), ctx) {
            Result::Ok(pre) => match translate_spec(s.last().1, ctx) {
                Result::Ok(x) => Result::Ok(pre.push((s.last().0, x))),
                Result::Err(e) => Result::Err(e),
            },
            Result::Err(e) => Result::Err(e),
        }
    }
}

/// Entry-wise translation of an object declared complex of type `t`: each
/// key is looked up among `t`'s own declared properties and its value is
/// translated under the child context so derived.
pub open spec fn translate_complex_pairs_spec(
    s: Seq<(Seq<char>, ValView)>,
    t: Seq<char>,
    ctx: CtxView,
) -> Result<Seq<(Seq<char>, IrView)>, Seq<char>>
    decreases s,
{
    if s.len() == 0 {
        Result::Ok(Seq::empty())
    } else {
        match translate_complex_pairs_spec(s.drop_last(), t, ctx) {
            Result::Ok(pre) => match assoc(ctx.spec_db.property_types, t) {
                Option::None => Result::Err(err_unknown_property_type(t)),
                Option::Some(trule) => match trule.properties {
                    Option::None => Result::Err(err_unknown_sub_property(s.last().0, t)),
                    Option::Some(props) => match assoc(props, s.last().0) {
                        Option::None => Result::Err(err_unknown_sub_property(s.last().0, t)),
                        Option::Some(c) => match translate_spec(s.last().1, child_ctx(c, ctx)) {
                            Result::Ok(x) => Result::Ok(pre.push((s.last().0, x))),
                            Result::Err(e) => Result::Err(e),
                        },
                    },
                },
            },
            Result::Err(e) => Result::Err(e),
        }
    }
}

/// The merged override table of a substitution: every remaining operand must
/// be an object; their translated entries are concatenated in source order,
/// so a later entry overrides an earlier one with the same key.
pub open spec fn collect_overrides_spec(rest: Seq<ValView>, ctx: CtxView) -> Result<
    Seq<(Seq<char>, IrView)>,
    Seq<char>,
>
    decreases rest,
{
    if rest.len() == 0 {
        Result::Ok(Seq::empty())
    } else {
        match collect_overrides_spec(rest.drop_last(), ctx) {
            Result::Ok(acc) => match rest.last() {
                ValView::Object(entries) => match translate_pairs_spec(entries, ctx) {
                    Result::Ok(tbl) => Result::Ok(acc + tbl),
                    Result::Err(e) => Result::Err(e),
                },
                _ => Result::Err("Sub excess map must be an object"@),
            },
            Result::Err(e) => Result::Err(e),
        }
    }
}

/// Last-match lookup in the override table: a later override wins.
pub open spec fn assoc_last<V>(s: Seq<(Seq<char>, V)>, key: Seq<char>) -> Option<V>
    decreases s.len(),
{
    if s.len() == 0 {
        Option::None
    } else if s.last().0 == key {
        Option::Some(s.last().1)
    } else {
        assoc_last(s.drop_last(), key)
    }
}

/// One resolved substitution fragment: literal text stays literal text, a
/// variable takes its override value if one exists, else a resolved
/// reference.
pub open spec fn resolve_frag_spec(
    f: SubFrag,
    table: Seq<(Seq<char>, IrView)>,
    ctx: CtxView,
) -> IrView {
    match f {
        SubFrag::Lit(s) => IrView::Str(s),
        SubFrag::Var(n) => match assoc_last(table, n) {
            Option::Some(ir) => ir,
            Option::None => IrView::Ref(resolve_spec(n, ctx.tree.parameters)),
        },
    }
}

/// The resolved fragment sequence, preserving source order exactly.
pub open spec fn resolve_frags_spec(
    frags: Seq<SubFrag>,
    table: Seq<(Seq<char>, IrView)>,
    ctx: CtxView,
) -> Seq<IrView>
    decreases frags.len(),
{
    if frags.len() == 0 {
        Seq::empty()
    } else {
        resolve_frags_spec(frags.drop_last(), table, ctx).push(
            resolve_frag_spec(frags.last(), table, ctx),
        )
    }
}

/// A prefix that already failed keeps its error whatever follows.
pub proof fn lemma_seq_err_extend(s: Seq<ValView>, ctx: CtxView, i: int, j: int)
    requires
        0 <= i <= j <= s.len(),
        translate_seq_spec(s.take(i), ctx) is Err,
    ensures
        translate_seq_spec(s.take(j), ctx) == translate_seq_spec(s.take(i), ctx),
    decreases j - i,
{
    if j > i {
        lemma_seq_err_extend(s, ctx, i, j - 1);
        assert(s.take(j).drop_last() =~= s.take(j - 1));
    }
}

pub proof fn lemma_pairs_err_extend(s: Seq<(Seq<char>, ValView)>, ctx: CtxView, i: int, j: int)
    requires
        0 <= i <= j <= s.len(),
        translate_pairs_spec(s.take(i), ctx) is Err,
    ensures
        translate_pairs_spec(s.take(j), ctx) == translate_pairs_spec(s.take(i), ctx),
    decreases j - i,
{
    if j > i {
        lemma_pairs_err_extend(s, ctx, i, j - 1);
        assert(s.take(j).drop_last() =~= s.take(j - 1));
    }
}

pub proof fn lemma_complex_pairs_err_extend(
    s: Seq<(Seq<char>, ValView)>,
    t: Seq<char>,
    ctx: CtxView,
    i: int,
    j: int,
)
    requires
        0 <= i <= j <= s.len(),
        translate_complex_pairs_spec(s.take(i), t, ctx) is Err,
    ensures
        translate_complex_pairs_spec(s.take(j), t, ctx) == translate_complex_pairs_spec(
            s.take(i),
            t,
            ctx,
        ),
    decreases j - i,
{
    if j > i {
        lemma_complex_pairs_err_extend(s, t, ctx, i, j - 1);
        assert(s.take(j).drop_last() =~= s.take(j - 1));
    }
}

pub proof fn lemma_overrides_err_extend(rest: Seq<ValView>, ctx: CtxView, i: int, j: int)
    requires
        0 <= i <= j <= rest.len(),
        collect_overrides_spec(rest.take(i), ctx) is Err,
    ensures
        collect_overrides_spec(rest.take(j), ctx) == collect_overrides_spec(rest.take(i), ctx),
    decreases j - i,
{
    if j > i {
        lemma_overrides_err_extend(rest, ctx, i, j - 1);
        assert(rest.take(j).drop_last() =~= rest.take(j - 1));
    }
}

/// Classifies a bare symbol: pseudo-parameter table first, then the
/// template's declared parameter names, else the logical-id fallback.
#[verifier::loop_isolation(false)]
pub fn find_ref(x: &str, parse_tree: &CloudformationParseTree) -> (r: Reference)
    ensures
        r@ == resolve_spec(x@, parse_tree@.parameters),
{
    let opt_pseudo = Reference::match_pseudo_parameter(x);
    match opt_pseudo {
        Option::Some(pseudo) => {
            return Reference::new(x, Origin::PseudoParameter(pseudo));
        },
        Option::None => {},
    }
    let n = parse_tree.parameters.len();
    let mut i: usize = 0;
    while i < n
        invariant
            0 <= i <= n,
            n == parse_tree.parameters@.len(),
            parse_tree@.parameters.len() == n,
            forall|j: int|
                0 <= j < n ==> parse_tree@.parameters[j] == parse_tree.parameters@[j]@,
            forall|j: int| 0 <= j < i ==> parse_tree@.parameters[j] != x@,
        decreases n - i,
    {
        if str_eq(parse_tree.parameters[i].as_str(), x) {
            proof {
                assert(parse_tree@.parameters[i as int] == x@);
                assert(parse_tree@.parameters.contains(x@));
            }
            return Reference::new(x, Origin::Parameter);
        }
        i = i + 1;
    }
    assert(!parse_tree@.parameters.contains(x@));
    Reference::new(x, Origin::LogicalId)
}

/// Last match wins among the merged overrides.
fn lookup_last<'a>(table: &'a Vec<(String, ResourceIr)>, key: &str) -> (r: Option<
    &'a ResourceIr,
>)
    ensures
        (match r {
            Option::Some(ir) => assoc_last(ir_pairs_view(table@), key@) == Option::Some(
                ir_view(*ir),
            ),
            Option::None => assoc_last(ir_pairs_view(table@), key@) is None,
        }),
{
    proof {
        lemma_ir_pairs_view(table@);
        assert(ir_pairs_view(table@).take(table@.len() as int) =~= ir_pairs_view(table@));
    }
    let mut i: usize = table.len();
    while i > 0
        invariant
            0 <= i <= table@.len(),
            ir_pairs_view(table@).len() == table@.len(),
            forall|j: int|
                0 <= j < table@.len() ==> ir_pairs_view(table@)[j] == (
                    table@[j].0@,
                    ir_view(table@[j].1),
                ),
            assoc_last(ir_pairs_view(table@), key@) == assoc_last(
                ir_pairs_view(table@).take(i as int),
                key@,
            ),
        decreases i,
    {
        if str_eq(table[i - 1].0.as_str(), key) {
            proof {
                assert(ir_pairs_view(table@).take(i as int).last() == (
                    table@[i - 1].0@,
                    ir_view(table@[i - 1].1),
                ));
            }
            return Option::Some(&table[i - 1].1);
        }
        proof {
            assert(ir_pairs_view(table@).take(i as int).drop_last() =~= ir_pairs_view(
                table@,
            ).take(i - 1));
        }
        i = i - 1;
    }
    Option::None
}

/// The recursive translation engine: walks a raw value under the carried
/// context and produces the typed IR node it denotes, or the first
/// structural error found in a left-to-right walk of the subtree.
#[verifier::loop_isolation(false)]
#[verifier::rlimit(50)]
pub fn translate_resource(
    resource_value: &ResourceValue,
    resource_translator: &ResourceTranslationInputs,
) -> (r: Result<ResourceIr, TransmuteError>)
    ensures
        (match r {
            Result::Ok(ir) => translate_spec(resource_value@, resource_translator@)
                == Result::Ok::<IrView, Seq<char>>(ir@),
            Result::Err(e) => translate_spec(resource_value@, resource_translator@)
                == Result::Err::<IrView, Seq<char>>(e@),
        }),
    decreases resource_value,
{
    let ghost ctx = resource_translator@;
    match resource_value {
        ResourceValue::Null => Result::Ok(ResourceIr::Null),
        ResourceValue::Bool(b) => Result::Ok(ResourceIr::Bool(*b)),
        ResourceValue::Number(n) => Result::Ok(ResourceIr::Number(*n)),
        ResourceValue::String(s) => Result::Ok(ResourceIr::String(s.clone())),
        ResourceValue::Array(items) => {
            let ghost vitems = rvs_view(items@);
            proof {
                lemma_rvs_view(items@);
            }
            let mut out: Vec<ResourceIr> = Vec::new();
            let mut i: usize = 0;
            while i < items.len()
                invariant
                    0 <= i <= items.len(),
                    translate_seq_spec(vitems.take(i as int), ctx) == Result::Ok::<
                        Seq<IrView>,
                        Seq<char>,
                    >(irs_view(out@)),
                decreases items.len() - i,
            {
                match translate_resource(&items[i], resource_translator) {
                    Result::Ok(ir) => {
                        let ghost out0 = out@;
                        let ghost vir = ir@;
                        out.push(ir);
                        proof {
                            lemma_irs_view(out0);
                            lemma_irs_view(out@);
                            assert(vitems.take(i + 1).drop_last() =~= vitems.take(i as int));
                            assert(vitems.take(i + 1).last() == vitems[i as int]);
                            assert(irs_view(out@) =~= irs_view(out0).push(vir));
                        }
                    },
                    Result::Err(e) => {
                        proof {
                            assert(vitems.take(i + 1).drop_last() =~= vitems.take(i as int));
                            assert(vitems.take(i + 1).last() == vitems[i as int]);
                            lemma_seq_err_extend(vitems, ctx, i + 1, vitems.len() as int);
                            assert(vitems.take(vitems.len() as int) =~= vitems);
                        }
                        return Result::Err(e);
                    },
                }
                i = i + 1;
            }
            proof {
                assert(vitems.take(items@.len() as int) =~= vitems);
            }
            Result::Ok(ResourceIr::Array(resource_translator.complexity.clone(), out))
        },
        ResourceValue::Object(entries) => {
            let ghost ventries = rv_pairs_view(entries@);
            proof {
                lemma_rv_pairs_view(entries@);
            }
            match &resource_translator.complexity {
                Complexity::Simple(_) => {
                    let mut out: Vec<(String, ResourceIr)> = Vec::new();
                    let mut i: usize = 0;
                    while i < entries.len()
                        invariant
                            0 <= i <= entries.len(),
                            translate_pairs_spec(ventries.take(i as int), ctx) == Result::Ok::<
                                Seq<(Seq<char>, IrView)>,
                                Seq<char>,
                            >(ir_pairs_view(out@)),
                        decreases entries.len() - i,
                    {
                        match translate_resource(&entries[i].1, resource_translator) {
                            Result::Ok(ir) => {
                                let ghost out0 = out@;
                                let ghost vir = ir@;
                                out.push((entries[i].0.clone(), ir));
                                proof {
                                    lemma_ir_pairs_view(out0);
                                    lemma_ir_pairs_view(out@);
                                    assert(ventries.take(i + 1).drop_last() =~= ventries.take(
                                        i as int,
                                    ));
                                    assert(ventries.take(i + 1).last() == ventries[i as int]);
                                    assert(ir_pairs_view(out@) =~= ir_pairs_view(out0).push(
                                        (entries@[i as int].0@, vir),
                                    ));
                                }
                            },
                            Result::Err(e) => {
                                proof {
                                    assert(ventries.take(i + 1).drop_last() =~= ventries.take(
                                        i as int,
                                    ));
                                    assert(ventries.take(i + 1).last() == ventries[i as int]);
                                    lemma_pairs_err_extend(ventries, ctx, i + 1, ventries.len() as int);
                                    assert(ventries.take(ventries.len() as int) =~= ventries);
                                }
                                return Result::Err(e);
                            },
                        }
                        i = i + 1;
                    }
                    proof {
                        assert(ventries.take(entries@.len() as int) =~= ventries);
                    }
                    Result::Ok(ResourceIr::Object(resource_translator.complexity.clone(), out))
                },
                Complexity::Complex(t) => {
                    let mut out: Vec<(String, ResourceIr)> = Vec::new();
                    let mut i: usize = 0;
                    while i < entries.len()
                        invariant
                            0 <= i <= entries.len(),
                            translate_complex_pairs_spec(ventries.take(i as int), t@, ctx)
                                == Result::Ok::<Seq<(Seq<char>, IrView)>, Seq<char>>(
                                ir_pairs_view(out@),
                            ),
                        decreases entries.len() - i,
                    {
                        proof {
                            assert(ventries.take(i + 1).drop_last() =~= ventries.take(i as int));
                            assert(ventries.take(i + 1).last() == ventries[i as int]);
                        }
                        match lookup_type_rule(
                            &resource_translator.specification.property_types,
                            t.as_str(),
                        ) {
                            Option::None => {
                                let msg = String::from_str("unknown property type ").concat(
                                    t.as_str(),
                                );
                                proof {
                                    assert(msg@ =~= err_unknown_property_type(t@));
                                    lemma_complex_pairs_err_extend(
                                        ventries,
                                        t@,
                                        ctx,
                                        i + 1,
                                        ventries.len() as int,
                                    );
                                    assert(ventries.take(ventries.len() as int) =~= ventries);
                                }
                                return Result::Err(TransmuteError { details: msg });
                            },
                            Option::Some(rule) => {
                                match &rule.properties {
                                    Option::None => {
                                        let msg = String::from_str("unknown property ").concat(
                                            entries[i].0.as_str(),
                                        ).concat(" for property type ").concat(t.as_str());
                                        proof {
                                            assert(msg@ =~= err_unknown_sub_property(
                                                entries@[i as int].0@,
                                                t@,
                                            ));
                                            lemma_complex_pairs_err_extend(
                                                ventries,
                                                t@,
                                                ctx,
                                                i + 1,
                                                ventries.len() as int,
                                            );
                                            assert(ventries.take(ventries.len() as int)
                                                =~= ventries);
                                        }
                                        return Result::Err(TransmuteError { details: msg });
                                    },
                                    Option::Some(props) => {
                                        match lookup_property_rule(props, entries[i].0.as_str()) {
                                            Option::None => {
                                                let msg = String::from_str(
                                                    "unknown property ",
                                                ).concat(entries[i].0.as_str()).concat(
                                                    " for property type ",
                                                ).concat(t.as_str());
                                                proof {
                                                    assert(msg@ =~= err_unknown_sub_property(
                                                        entries@[i as int].0@,
                                                        t@,
                                                    ));
                                                    lemma_complex_pairs_err_extend(
                                                        ventries,
                                                        t@,
                                                        ctx,
                                                        i + 1,
                                                        ventries.len() as int,
                                                    );
                                                    assert(ventries.take(ventries.len() as int)
                                                        =~= ventries);
                                                }
                                                return Result::Err(
                                                    TransmuteError { details: msg },
                                                );
                                            },
                                            Option::Some(prule) => {
                                                let pt: Option<&str> = match &prule.complexity {
                                                    Complexity::Complex(tn) => Option::Some(
                                                        tn.as_str(),
                                                    ),
                                                    Complexity::Simple(_) => Option::None,
                                                };
                                                let new_rt = ResourceTranslationInputs {
                                                    parse_tree: resource_translator.parse_tree,
                                                    specification:
                                                        resource_translator.specification,
                                                    complexity: prule.get_complexity(),
                                                    property_type: pt,
                                                    resource_type:
                                                        resource_translator.resource_type,
                                                };
                                                proof {
                                                    assert(new_rt@ == child_ctx(prule@, ctx));
                                                }
                                                match translate_resource(&entries[i].1, &new_rt) {
                                                    Result::Ok(ir) => {
                                                        let ghost out0 = out@;
                                                        let ghost vir = ir@;
                                                        out.push((entries[i].0.clone(), ir));
                                                        proof {
                                                            lemma_ir_pairs_view(out0);
                                                            lemma_ir_pairs_view(out@);
                                                            assert(ir_pairs_view(out@)
                                                                =~= ir_pairs_view(out0).push(
                                                                (entries@[i as int].0@, vir),
                                                            ));
                                                        }
                                                    },
                                                    Result::Err(e) => {
                                                        proof {
                                                            lemma_complex_pairs_err_extend(
                                                                ventries,
                                                                t@,
                                                                ctx,
                                                                i + 1,
                                                                ventries.len() as int,
                                                            );
                                                            assert(ventries.take(
                                                                ventries.len() as int,
                                                            ) =~= ventries);
                                                        }
                                                        return Result::Err(e);
                                                    },
                                                }
                                            },
                                        }
                                    },
                                }
                            },
                        }
                        i = i + 1;
                    }
                    proof {
                        assert(ventries.take(entries@.len() as int) =~= ventries);
                    }
                    Result::Ok(ResourceIr::Object(resource_translator.complexity.clone(), out))
                },
            }
        },
        ResourceValue::If(bool_expr, true_expr, false_expr) => {
            let cond = match &**bool_expr {
                ResourceValue::String(x) => x,
                _ => {
                    return Result::Err(
                        TransmuteError::new("Resource value if statement truth must be a string"),
                    );
                },
            };
            proof {
                assert(resource_value@ is If);
                assert((**bool_expr)@ is Str);
                assert(resource_value@->If_0 == Box::new((**bool_expr)@));
            }
            let ti = match translate_resource(&**true_expr, resource_translator) {
                Result::Ok(x) => x,
                Result::Err(e) => {
                    return Result::Err(e);
                },
            };
            let fi = match translate_resource(&**false_expr, resource_translator) {
                Result::Ok(x) => x,
                Result::Err(e) => {
                    return Result::Err(e);
                },
            };
            Result::Ok(ResourceIr::If(cond.clone(), Box::new(ti), Box::new(fi)))
        },
        ResourceValue::Join(x) => {
            let ghost varr = rvs_view(x@);
            let ghost vrest = varr.drop_first();
            proof {
                lemma_rvs_view(x@);
                assert(resource_value@ is Join);
            }
            if x.len() == 0 {
                return Result::Err(TransmuteError::new("Separator for join must be a string"));
            }
            let sep = match &x[0] {
                ResourceValue::String(s) => s,
                _ => {
                    return Result::Err(
                        TransmuteError::new("Separator for join must be a string"),
                    );
                },
            };
            let mut out: Vec<ResourceIr> = Vec::new();
            let mut i: usize = 1;
            while i < x.len()
                invariant
                    1 <= i <= x.len(),
                    translate_seq_spec(vrest.take(i - 1), ctx) == Result::Ok::<
                        Seq<IrView>,
                        Seq<char>,
                    >(irs_view(out@)),
                decreases x.len() - i,
            {
                match translate_resource(&x[i], resource_translator) {
                    Result::Ok(ir) => {
                        let ghost out0 = out@;
                        let ghost vir = ir@;
                        out.push(ir);
                        proof {
                            lemma_irs_view(out0);
                            lemma_irs_view(out@);
                            assert(vrest.take(i as int).drop_last() =~= vrest.take(i - 1));
                            assert(vrest.take(i as int).last() == varr[i as int]);
                            assert(irs_view(out@) =~= irs_view(out0).push(vir));
                        }
                    },
                    Result::Err(e) => {
                        proof {
                            assert(vrest.take(i as int).drop_last() =~= vrest.take(i - 1));
                            assert(vrest.take(i as int).last() == varr[i as int]);
                            lemma_seq_err_extend(vrest, ctx, i as int, vrest.len() as int);
                            assert(vrest.take(vrest.len() as int) =~= vrest);
                        }
                        return Result::Err(e);
                    },
                }
                i = i + 1;
            }
            proof {
                assert(vrest.take(x@.len() - 1) =~= vrest);
            }
            Result::Ok(ResourceIr::Join(sep.clone(), out))
        },
        ResourceValue::Ref(x) => Result::Ok(
            ResourceIr::Ref(find_ref(x.as_str(), resource_translator.parse_tree)),
        ),
        ResourceValue::GetAtt(name, attribute) => {
            proof {
                assert(resource_value@ is GetAtt);
                assert(resource_value@->GetAtt_0 == Box::new((**name)@));
                assert(resource_value@->GetAtt_1 == Box::new((**attribute)@));
            }
            let resource_name = match &**name {
                ResourceValue::String(x) => x,
                _ => {
                    return Result::Err(
                        TransmuteError::new("Get attribute first element must be a string"),
                    );
                },
            };
            let attr_name = match &**attribute {
                ResourceValue::String(x) => x,
                _ => {
                    return Result::Err(
                        TransmuteError::new("Get attribute first element must be a string"),
                    );
                },
            };
            Result::Ok(ResourceIr::GetAtt(resource_name.clone(), attr_name.clone()))
        },
        ResourceValue::FindInMap(mapper, first, second) => {
            proof {
                assert(resource_value@ is FindInMap);
            }
            let mi = match translate_resource(&**mapper, resource_translator) {
                Result::Ok(x) => x,
                Result::Err(e) => {
                    return Result::Err(e);
                },
            };
            let i1 = match translate_resource(&**first, resource_translator) {
                Result::Ok(x) => x,
                Result::Err(e) => {
                    return Result::Err(e);
                },
            };
            let i2 = match translate_resource(&**second, resource_translator) {
                Result::Ok(x) => x,
                Result::Err(e) => {
                    return Result::Err(e);
                },
            };
            Result::Ok(ResourceIr::FindInMap(Box::new(mi), Box::new(i1), Box::new(i2)))
        },
        ResourceValue::Sub(arr) => {
            let ghost varr = rvs_view(arr@);
            let ghost vrest = varr.drop_first();
            proof {
                lemma_rvs_view(arr@);
                assert(resource_value@ is Sub);
            }
            if arr.len() == 0 {
                return Result::Err(TransmuteError::new("First value in sub must be a string"));
            }
            let template = match &arr[0] {
                ResourceValue::String(x) => x,
                _ => {
                    return Result::Err(
                        TransmuteError::new("First value in sub must be a string"),
                    );
                },
            };
            let mut table: Vec<(String, ResourceIr)> = Vec::new();
            let mut i: usize = 1;
            while i < arr.len()
                invariant
                    1 <= i <= arr.len(),
                    collect_overrides_spec(vrest.take(i - 1), ctx) == Result::Ok::<
                        Seq<(Seq<char>, IrView)>,
                        Seq<char>,
                    >(ir_pairs_view(table@)),
                decreases arr.len() - i,
            {
                proof {
                    assert(vrest.take(i as int).drop_last() =~= vrest.take(i - 1));
                    assert(vrest.take(i as int).last() == varr[i as int]);
                }
                match &arr[i] {
                    ResourceValue::Object(obj) => {
                        let ghost table0 = table@;
                        let ghost vobj = rv_pairs_view(obj@);
                        proof {
                            lemma_rv_pairs_view(obj@);
                        }
                        let mut j: usize = 0;
                        while j < obj.len()
                            invariant
                                0 <= j <= obj.len(),
                                table@.len() == table0.len() + j,
                                forall|k: int|
                                    0 <= k < table0.len() ==> table@[k] == table0[k],
                                translate_pairs_spec(vobj.take(j as int), ctx) == Result::Ok::<
                                    Seq<(Seq<char>, IrView)>,
                                    Seq<char>,
                                >(ir_pairs_view(table@.skip(table0.len() as int))),
                            decreases obj.len() - j,
                        {
                            match translate_resource(&obj[j].1, resource_translator) {
                                Result::Ok(ir) => {
                                    let ghost tpre = table@;
                                    let ghost vir = ir@;
                                    table.push((obj[j].0.clone(), ir));
                                    proof {
                                        lemma_ir_pairs_view(tpre.skip(table0.len() as int));
                                        lemma_ir_pairs_view(table@.skip(table0.len() as int));
                                        assert(vobj.take(j + 1).drop_last() =~= vobj.take(
                                            j as int,
                                        ));
                                        assert(vobj.take(j + 1).last() == vobj[j as int]);
                                        assert(ir_pairs_view(table@.skip(table0.len() as int))
                                            =~= ir_pairs_view(
                                            tpre.skip(table0.len() as int),
                                        ).push((obj@[j as int].0@, vir)));
                                    }
                                },
                                Result::Err(e) => {
                                    proof {
                                        assert(vobj.take(j + 1).drop_last() =~= vobj.take(
                                            j as int,
                                        ));
                                        assert(vobj.take(j + 1).last() == vobj[j as int]);
                                        lemma_pairs_err_extend(vobj, ctx, j + 1, vobj.len() as int);
                                        assert(vobj.take(vobj.len() as int) =~= vobj);
                                        lemma_overrides_err_extend(
                                            vrest,
                                            ctx,
                                            i as int,
                                            vrest.len() as int,
                                        );
                                        assert(vrest.take(vrest.len() as int) =~= vrest);
                                    }
                                    return Result::Err(e);
                                },
                            }
                            j = j + 1;
                        }
                        proof {
                            assert(vobj.take(obj@.len() as int) =~= vobj);
                            lemma_ir_pairs_view(table@);
                            lemma_ir_pairs_view(table0);
                            lemma_ir_pairs_view(table@.skip(table0.len() as int));
                            assert(ir_pairs_view(table@) =~= ir_pairs_view(table0)
                                + ir_pairs_view(table@.skip(table0.len() as int)));
                        }
                    },
                    _ => {
                        proof {
                            lemma_overrides_err_extend(vrest, ctx, i as int, vrest.len() as int);
                            assert(vrest.take(vrest.len() as int) =~= vrest);
                        }
                        return Result::Err(
                            TransmuteError::new("Sub excess map must be an object"),
                        );
                    },
                }
                i = i + 1;
            }
            proof {
                assert(vrest.take(arr@.len() - 1) =~= vrest);
            }
            let frags = match sub_parse_tree(template.as_str()) {
                Result::Ok(f) => f,
                Result::Err(e) => {
                    return Result::Err(e);
                },
            };
            let ghost vfrags = frags_view(frags@);
            let ghost vtable = ir_pairs_view(table@);
            let mut out: Vec<ResourceIr> = Vec::new();
            let mut k: usize = 0;
            while k < frags.len()
                invariant
                    0 <= k <= frags.len(),
                    resolve_frags_spec(vfrags.take(k as int), vtable, ctx) == irs_view(out@),
                decreases frags.len() - k,
            {
                let ghost out0 = out@;
                match &frags[k] {
                    SubValue::String(x) => {
                        out.push(ResourceIr::String(x.clone()));
                    },
                    SubValue::Variable(x) => {
                        match lookup_last(&table, x.as_str()) {
                            Option::Some(ir) => {
                                let c = ir.clone();
                                out.push(c);
                            },
                            Option::None => {
                                out.push(
                                    ResourceIr::Ref(
                                        find_ref(x.as_str(), resource_translator.parse_tree),
                                    ),
                                );
                            },
                        }
                    },
                }
                proof {
                    lemma_irs_view(out0);
                    lemma_irs_view(out@);
                    assert(vfrags.take(k + 1).drop_last() =~= vfrags.take(k as int));
                    assert(vfrags.take(k + 1).last() == vfrags[k as int]);
                    assert(irs_view(out@) =~= irs_view(out0).push(ir_view(out@[out@.len() - 1])));
                }
                k = k + 1;
            }
            proof {
                assert(vfrags.take(frags@.len() as int) =~= vfrags);
            }
            Result::Ok(ResourceIr::Sub(out))
        },
    }
}

} // verus!
