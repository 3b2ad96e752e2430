use crate::errors::TransmuteError;
use crate::ir::{IrView, ResourceIr};
use crate::reference::{pseudo_parameter_of, resolve_spec, Origin};
use crate::specification::{assoc, ComplexityView};
use crate::sub::SubFrag;
use crate::driver::top_ctx;
use crate::translate::{assoc_last, child_ctx, err_unknown_sub_property,
    lemma_complex_pairs_err_extend, resolve_frag_spec, resolve_frags_spec,
    translate_complex_pairs_spec, translate_spec, wf_ctx, CtxView};
use crate::values::ValView;
use vstd::prelude::*;

verus! {

/// The view of a translation outcome.
pub open spec fn res_view(r: Result<ResourceIr, TransmuteError>) -> Result<IrView, Seq<char>> {
    match r {
        Result::Ok(ir) => Result::Ok(ir@),
        Result::Err(e) => Result::Err(e@),
    }
}

/// Determinism: translation is a pure function of the raw value and the
/// context, so two runs on the same input yield structurally identical
/// outcomes.
pub proof fn lemma_translation_deterministic(
    r1: Result<ResourceIr, TransmuteError>,
    r2: Result<ResourceIr, TransmuteError>,
    v: ValView,
    ctx: CtxView,
)
    requires
        res_view(r1) == translate_spec(v, ctx),
        res_view(r2) == translate_spec(v, ctx),
    ensures
        res_view(r1) == res_view(r2),
{
}

proof fn lemma_complex_bad_entry(
    entries: Seq<(Seq<char>, ValView)>,
    t: Seq<char>,
    ctx: CtxView,
    i: int,
)
    requires
        0 <= i < entries.len(),
        (match assoc(ctx.spec_db.property_types, t) {
            Option::Some(trule) => match trule.properties {
                Option::Some(props) => assoc(props, entries[i].0) is None,
                Option::None => true,
            },
            Option::None => true,
        }),
    ensures
        translate_complex_pairs_spec(entries, t, ctx) is Err,
    decreases entries.len(),
{
    if i == entries.len() - 1 {
    } else {
        assert(entries.drop_last()[i] == entries[i]);
        lemma_complex_bad_entry(entries.drop_last(), t, ctx, i);
    }
}

/// Complexity propagation: under a complex classification of type `t`, every
/// key of the mapping is looked up against `t`'s own declared properties; a
/// key unknown under `t` makes translation of the object fail — it is never
/// silently skipped.
pub proof fn lemma_complex_unknown_key_fails(
    entries: Seq<(Seq<char>, ValView)>,
    t: Seq<char>,
    ctx: CtxView,
    i: int,
)
    requires
        ctx.complexity == ComplexityView::Complex(t),
        0 <= i < entries.len(),
        (match assoc(ctx.spec_db.property_types, t) {
            Option::Some(trule) => match trule.properties {
                Option::Some(props) => assoc(props, entries[i].0) is None,
                Option::None => true,
            },
            Option::None => true,
        }),
    ensures
        translate_spec(ValView::Object(entries), ctx) is Err,
{
    lemma_complex_bad_entry(entries, t, ctx, i);
}


/// Complexity propagation, precisely: when no earlier entry failed and the
/// key of entry `i` is not among `t`'s declared properties, the object fails
/// with the lookup-failure message naming that key and `t`.
pub proof fn lemma_complex_unknown_key_message(
    entries: Seq<(Seq<char>, ValView)>,
    t: Seq<char>,
    ctx: CtxView,
    i: int,
)
    requires
        ctx.complexity == ComplexityView::Complex(t),
        0 <= i < entries.len(),
        translate_complex_pairs_spec(entries.take(i), t, ctx) is Ok,
        (match assoc(ctx.spec_db.property_types, t) {
            Option::Some(trule) => match trule.properties {
                Option::Some(props) => assoc(props, entries[i].0) is None,
                Option::None => true,
            },
            Option::None => false,
        }),
    ensures
        translate_spec(ValView::Object(entries), ctx) == Result::Err::<IrView, Seq<char>>(
            err_unknown_sub_property(entries[i].0, t),
        ),
{
    assert(entries.take(i + 1).drop_last() =~= entries.take(i));
    assert(entries.take(i + 1).last() == entries[i]);
    lemma_complex_pairs_err_extend(entries, t, ctx, i + 1, entries.len() as int);
    assert(entries.take(entries.len() as int) =~= entries);
}

/// Order preservation: a substitution's resolved sequence has exactly one IR
/// node per fragment, in source order — literal text stays literal text, and
/// a variable becomes its override value or a resolved reference.
pub proof fn lemma_sub_order_preserved(
    frags: Seq<SubFrag>,
    table: Seq<(Seq<char>, IrView)>,
    ctx: CtxView,
)
    ensures
        resolve_frags_spec(frags, table, ctx).len() == frags.len(),
        forall|i: int|
            0 <= i < frags.len() ==> resolve_frags_spec(frags, table, ctx)[i]
                == resolve_frag_spec(frags[i], table, ctx),
    decreases frags.len(),
{
    if frags.len() > 0 {
        lemma_sub_order_preserved(frags.drop_last(), table, ctx);
    }
}

/// Override precedence: a variable with an entry in the merged override
/// table resolves to that entry's translated value, never to a reference.
pub proof fn lemma_override_precedence(
    n: Seq<char>,
    table: Seq<(Seq<char>, IrView)>,
    ctx: CtxView,
    ir: IrView,
)
    requires
        assoc_last(table, n) == Option::Some(ir),
    ensures
        resolve_frag_spec(SubFrag::Var(n), table, ctx) == ir,
{
}


/// Merged override tables: the table of a substitution is the concatenation
/// of its override objects' entries in source order, and a lookup takes the
/// latest binding — so on a key collision a later override object wins.
pub proof fn lemma_later_override_wins(
    a: Seq<(Seq<char>, IrView)>,
    b: Seq<(Seq<char>, IrView)>,
    k: Seq<char>,
)
    ensures
        assoc_last(a + b, k) == (match assoc_last(b, k) {
            Option::Some(v) => Option::Some(v),
            Option::None => assoc_last(a, k),
        }),
    decreases b.len(),
{
    if b.len() == 0 {
        assert(a + b =~= a);
    } else {
        assert((a + b).drop_last() =~= a + b.drop_last());
        assert((a + b).last() == b.last());
        lemma_later_override_wins(a, b.drop_last(), k);
    }
}

/// Reference resolution order: a pseudo-parameter name resolves to its
/// pseudo-parameter whatever the template declares; otherwise a declared
/// parameter name resolves to a parameter; any other symbol falls back to a
/// logical identifier.  The resolved reference keeps the symbol verbatim.
pub proof fn lemma_resolution_order(name: Seq<char>, parameters: Seq<Seq<char>>)
    ensures
        (match pseudo_parameter_of(name) {
            Option::Some(p) => resolve_spec(name, parameters).origin == Origin::PseudoParameter(
                p,
            ),
            Option::None => if parameters.contains(name) {
                resolve_spec(name, parameters).origin == Origin::Parameter
            } else {
                resolve_spec(name, parameters).origin == Origin::LogicalId
            },
        }),
        resolve_spec(name, parameters).name == name,
{
}

/// Join identity: a join holding only a separator translates to a join of no
/// operands; it is not an error.
pub proof fn lemma_join_identity(sep: Seq<char>, ctx: CtxView)
    ensures
        translate_spec(ValView::Join(seq![ValView::Str(sep)]), ctx) == Result::Ok::<
            IrView,
            Seq<char>,
        >(IrView::Join(sep, Seq::empty())),
{
    let arr = seq![ValView::Str(sep)];
    assert(arr.len() == 1);
    assert(arr[0] == ValView::Str(sep));
    assert(arr.drop_first() =~= Seq::<ValView>::empty());
    assert(crate::translate::translate_seq_spec(Seq::<ValView>::empty(), ctx)
        == Result::Ok::<Seq<IrView>, Seq<char>>(Seq::empty()));
}

/// Error shape: a join whose first element is not a string fails with the
/// join-specific malformed-intrinsic message.
pub proof fn lemma_join_error_shape(arr: Seq<ValView>, ctx: CtxView)
    requires
        arr.len() == 0 || !(arr[0] is Str),
    ensures
        translate_spec(ValView::Join(arr), ctx) == Result::Err::<IrView, Seq<char>>(
            "Separator for join must be a string"@,
        ),
{
}


/// The context invariant of a fresh child context: the property-type name is
/// present exactly when the classification is complex, and then names that
/// complex type.  Every context the engine derives for a nested property
/// satisfies it.
pub proof fn lemma_child_ctx_well_formed(c: ComplexityView, ctx: CtxView)
    ensures
        wf_ctx(child_ctx(c, ctx)),
{
}

/// The same invariant holds of the context a resource driver builds for a
/// top-level property.
pub proof fn lemma_top_ctx_well_formed(
    c: ComplexityView,
    resource_type: Seq<char>,
    db: crate::specification::SpecificationView,
    tree: crate::values::TreeView,
)
    ensures
        wf_ctx(top_ctx(c, resource_type, db, tree)),
{
}

} // verus!
