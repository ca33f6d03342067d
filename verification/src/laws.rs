use vstd::prelude::*;
use crate::decl::{PatView, RefTypeView, ParamTypeView, ParamView, DeclView};
use crate::names::{spec_synth_name, lemma_synth_name_injective};
use crate::rewrite::{
    CapabilityPair, spec_excluded, spec_rewrites, spec_rewrite_param, spec_param_binding,
    spec_bindings_prefix, spec_bindings, spec_transform, spec_binding_text, spec_impl_type_text,
    spec_var_name, spec_pat_text, spec_ref_text,
};

verus! {

/// The identifier named by a parameter's pattern, where the pattern is a
/// simple identifier.
pub open spec fn spec_ident_name(p: ParamView) -> Option<Seq<char>> {
    match p {
        ParamView::Typed { pat: PatView::Ident { name, .. }, .. } => Some(name),
        _ => None,
    }
}

/// Every declaration field except the parameter list and the body passes
/// through a transformation identical to the input.
pub proof fn lemma_pass_through_fields(d: DeclView, f: Set<Seq<char>>, pair: CapabilityPair)
    ensures
        spec_transform(d, f, pair).attrs == d.attrs,
        spec_transform(d, f, pair).vis == d.vis,
        spec_transform(d, f, pair).is_const == d.is_const,
        spec_transform(d, f, pair).is_async == d.is_async,
        spec_transform(d, f, pair).is_unsafe == d.is_unsafe,
        spec_transform(d, f, pair).abi == d.abi,
        spec_transform(d, f, pair).name == d.name,
        spec_transform(d, f, pair).generics == d.generics,
        spec_transform(d, f, pair).where_clause == d.where_clause,
        spec_transform(d, f, pair).variadic == d.variadic,
        spec_transform(d, f, pair).output == d.output,
{
}

/// The empty filter is a no-op gate, not a block-all: under it, every
/// typed, reference-shaped parameter is rewritten.
pub proof fn lemma_empty_filter_transforms_all(d: DeclView, pair: CapabilityPair)
    ensures
        forall|i: int|
            0 <= i < d.params.len() && (d.params[i] matches ParamView::Typed {
                ty: ParamTypeView::Reference { .. },
                ..
            }) ==> spec_rewrites(d.params[i], Set::<Seq<char>>::empty()),
{
    assert(Set::<Seq<char>>::empty().is_empty());
}

/// No binding statement arises from a parameter list in which no parameter
/// is rewritten.
proof fn lemma_no_bindings(ps: Seq<ParamView>, n: nat, f: Set<Seq<char>>, pair: CapabilityPair)
    requires
        n <= ps.len(),
        forall|i: int| 0 <= i < ps.len() ==> !spec_rewrites(ps[i], f),
    ensures
        spec_bindings_prefix(ps, n, f, pair) == Seq::<Seq<char>>::empty(),
    decreases n,
{
    if n > 0 {
        lemma_no_bindings(ps, (n - 1) as nat, f, pair);
        assert(spec_bindings_prefix(ps, n, f, pair) =~= Seq::<Seq<char>>::empty());
    }
}

/// A non-empty filter that contains none of the declaration's parameter
/// names transforms nothing, where every typed parameter binds a simple
/// identifier: every parameter and the body pass through unchanged.
pub proof fn lemma_unmatched_filter_transforms_none(
    d: DeclView,
    f: Set<Seq<char>>,
    pair: CapabilityPair,
)
    requires
        !f.is_empty(),
        forall|i: int|
            0 <= i < d.params.len() ==> ((#[trigger] d.params[i]) matches ParamView::Typed {
                ..
            } ==> (spec_ident_name(d.params[i]) matches Some(name) && !f.contains(name))),
    ensures
        spec_transform(d, f, pair).params == d.params,
        spec_transform(d, f, pair).body == d.body,
{
    assert forall|i: int| 0 <= i < d.params.len() implies !spec_rewrites(d.params[i], f) by {
        match d.params[i] {
            ParamView::Typed { pat, ty, attrs } => {
                assert(spec_ident_name(d.params[i]) matches Some(name) && !f.contains(name));
                assert(spec_excluded(pat, f));
            },
            ParamView::Receiver { .. } => {},
        }
    }
    assert(spec_transform(d, f, pair).params =~= d.params);
    lemma_no_bindings(d.params, d.params.len(), f, pair);
    assert(spec_transform(d, f, pair).body =~= d.body);
}

/// Longer binding prefixes extend shorter ones without moving what is
/// already placed.
proof fn lemma_prefix_extends(
    ps: Seq<ParamView>,
    n: nat,
    m: nat,
    f: Set<Seq<char>>,
    pair: CapabilityPair,
)
    requires
        n <= m <= ps.len(),
    ensures
        spec_bindings_prefix(ps, n, f, pair).len() <= spec_bindings_prefix(ps, m, f, pair).len(),
        forall|k: int|
            0 <= k < spec_bindings_prefix(ps, n, f, pair).len() ==> spec_bindings_prefix(
                ps,
                m,
                f,
                pair,
            )[k] == spec_bindings_prefix(ps, n, f, pair)[k],
    decreases m,
{
    if m > n {
        lemma_prefix_extends(ps, n, (m - 1) as nat, f, pair);
    }
}

/// The position, within the generated binding statements, of the binding of
/// the parameter at index `i`: the number of bindings generated by the
/// parameters before it.
pub open spec fn spec_binding_pos(
    ps: Seq<ParamView>,
    i: nat,
    f: Set<Seq<char>>,
    pair: CapabilityPair,
) -> nat {
    spec_bindings_prefix(ps, i, f, pair).len()
}

/// Each rewritten parameter's binding statement stands in the generated
/// bindings at its position, and for rewritten parameters `i < j` the
/// binding of `i` stands strictly before the binding of `j`: binding order
/// matches parameter order. In the transformed body, all bindings stand
/// before all original statements.
pub proof fn lemma_binding_order(
    d: DeclView,
    i: nat,
    j: nat,
    f: Set<Seq<char>>,
    pair: CapabilityPair,
)
    requires
        i < j < d.params.len(),
        spec_rewrites(d.params[i as int], f),
        spec_rewrites(d.params[j as int], f),
    ensures
        spec_binding_pos(d.params, i, f, pair) < spec_binding_pos(d.params, j, f, pair)
            < spec_bindings(d.params, f, pair).len(),
        spec_bindings(d.params, f, pair)[spec_binding_pos(d.params, i, f, pair) as int]
            == spec_param_binding(d.params[i as int], i, f, pair)->Some_0,
        spec_bindings(d.params, f, pair)[spec_binding_pos(d.params, j, f, pair) as int]
            == spec_param_binding(d.params[j as int], j, f, pair)->Some_0,
        spec_transform(d, f, pair).body == spec_bindings(d.params, f, pair) + d.body,
{
    let pi = spec_binding_pos(d.params, i, f, pair);
    let pj = spec_binding_pos(d.params, j, f, pair);
    assert(spec_param_binding(d.params[i as int], i, f, pair) matches Some(_));
    assert(spec_param_binding(d.params[j as int], j, f, pair) matches Some(_));
    assert(spec_bindings_prefix(d.params, i + 1, f, pair).len() == pi + 1);
    assert(spec_bindings_prefix(d.params, i + 1, f, pair)[pi as int] == spec_param_binding(
        d.params[i as int],
        i,
        f,
        pair,
    )->Some_0);
    lemma_prefix_extends(d.params, i + 1, j, f, pair);
    lemma_prefix_extends(d.params, j, d.params.len(), f, pair);
    assert(spec_bindings_prefix(d.params, j + 1, f, pair).len() == pj + 1);
    assert(spec_bindings_prefix(d.params, j + 1, f, pair)[pj as int] == spec_param_binding(
        d.params[j as int],
        j,
        f,
        pair,
    )->Some_0);
    lemma_prefix_extends(d.params, i + 1, d.params.len(), f, pair);
    lemma_prefix_extends(d.params, j + 1, d.params.len(), f, pair);
}

/// Name reuse and name synthesis: a rewritten simple-identifier parameter
/// keeps its own name as the replacement parameter's name; any other
/// rewritten parameter gets the synthesized positional name, which differs
/// from every synthesized name of another index and, wherever no
/// user-written parameter identifier has the synthesized shape, from every
/// user-written parameter identifier.
pub proof fn lemma_name_reuse_and_synthesis(d: DeclView, f: Set<Seq<char>>, pair: CapabilityPair)
    requires
        forall|k: int, m: nat|
            0 <= k < d.params.len() && m < d.params.len() ==> ((#[trigger] spec_ident_name(
                d.params[k],
            )) matches Some(name) ==> name != #[trigger] spec_synth_name(m)),
    ensures
        forall|i: nat|
            i < d.params.len() && spec_rewrites(d.params[i as int], f) ==> (match d.params[i as int] {
                ParamView::Typed { pat, .. } => spec_ident_name(
                    spec_rewrite_param(d.params[i as int], i, f, pair),
                ) == Some(spec_var_name(pat, i)),
                _ => true,
            }),
        forall|i: nat|
            i < d.params.len() && spec_rewrites(d.params[i as int], f) ==> (match d.params[i as int] {
                ParamView::Typed { pat: PatView::Ident { name, .. }, .. } => spec_ident_name(
                    spec_rewrite_param(d.params[i as int], i, f, pair),
                ) == Some(name),
                _ => true,
            }),
        forall|i: nat, k: int|
            i < d.params.len() && 0 <= k < d.params.len() ==> ((#[trigger] spec_ident_name(
                d.params[k],
            )) matches Some(name) ==> #[trigger] spec_synth_name(i) != name),
        forall|i: nat, j: nat|
            i < d.params.len() && j < d.params.len() && i != j ==> spec_synth_name(i)
                != spec_synth_name(j),
{
    assert forall|i: nat, j: nat|
        i < d.params.len() && j < d.params.len() && i != j implies spec_synth_name(i)
        != spec_synth_name(j) by {
        if spec_synth_name(i) == spec_synth_name(j) {
            lemma_synth_name_injective(i, j);
        }
    }
}

/// The binding prefixes of a parameter list in which exactly the parameter
/// at `i` generates a binding.
proof fn lemma_single_binding(
    ps: Seq<ParamView>,
    n: nat,
    f: Set<Seq<char>>,
    pair: CapabilityPair,
    i: nat,
    b: Seq<char>,
)
    requires
        n <= ps.len(),
        i < ps.len(),
        spec_param_binding(ps[i as int], i, f, pair) == Some(b),
        forall|k: nat|
            k < ps.len() && k != i ==> spec_param_binding(ps[k as int], k, f, pair) is None,
    ensures
        spec_bindings_prefix(ps, n, f, pair) == if n <= i {
            Seq::<Seq<char>>::empty()
        } else {
            seq![b]
        },
    decreases n,
{
    if n > 0 {
        lemma_single_binding(ps, (n - 1) as nat, f, pair, i, b);
        if n - 1 != i {
            assert(spec_param_binding(ps[n - 1], (n - 1) as nat, f, pair) is None);
        }
        if n <= i {
            assert(spec_bindings_prefix(ps, n, f, pair) =~= Seq::<Seq<char>>::empty());
        } else if n == i + 1 {
            assert(spec_bindings_prefix(ps, n, f, pair) =~= seq![b]);
        } else {
            assert(spec_bindings_prefix(ps, n, f, pair) =~= seq![b]);
        }
    }
}

/// A binding statement ascribes exactly the original reference type: the
/// characters between the pattern's ascription colon and the equals sign are
/// the original declared type's text, mutability qualifier and explicit
/// lifetime included.
pub proof fn lemma_exact_type_ascription(
    pat: PatView,
    rt: RefTypeView,
    var: Seq<char>,
    pair: CapabilityPair,
)
    ensures
        ({
            let b = spec_binding_text(pat, rt, var, pair);
            let off = "let "@.len() + spec_pat_text(pat).len() + ": "@.len();
            b.subrange(off as int, off as int + spec_ref_text(rt).len()) == spec_ref_text(rt)
        }),
{
    let b = spec_binding_text(pat, rt, var, pair);
    let off = "let "@.len() + spec_pat_text(pat).len() + ": "@.len();
    assert(b.subrange(off as int, off as int + spec_ref_text(rt).len()) =~= spec_ref_text(rt));
}

/// Receivers and parameters whose declared type is not reference-shaped
/// pass through unchanged and generate no binding, under every filter.
pub proof fn lemma_receiver_and_opaque_untouched(
    p: ParamView,
    i: nat,
    f: Set<Seq<char>>,
    pair: CapabilityPair,
)
    requires
        p matches ParamView::Receiver { .. } || (p matches ParamView::Typed { ty, .. } && !(ty
            matches ParamTypeView::Reference { .. })),
    ensures
        spec_rewrite_param(p, i, f, pair) == p,
        spec_param_binding(p, i, f, pair) is None,
{
}

/// A parameter that neither of two stacked transformations may touch: a
/// receiver, a simple identifier named by neither filter, or a parameter
/// that is not reference-shaped and binds no simple identifier.
pub open spec fn spec_bystander(p: ParamView, n1: Seq<char>, n2: Seq<char>) -> bool {
    match p {
        ParamView::Receiver { .. } => true,
        ParamView::Typed { pat, ty, .. } => match pat {
            PatView::Ident { name, .. } => name != n1 && name != n2,
            PatView::Other { .. } => !(ty matches ParamTypeView::Reference { .. }),
        },
    }
}

/// Two stacked transformations, the first restricted to `n1`, the second to
/// `n2`.
pub open spec fn spec_stacked(
    d: DeclView,
    n1: Seq<char>,
    n2: Seq<char>,
    p1: CapabilityPair,
    p2: CapabilityPair,
) -> DeclView {
    spec_transform(spec_transform(d, set![n1], p1), set![n2], p2)
}

/// Stacked transformations compose by sequential independent application:
/// restricting a first transformation to the reference parameter named `n1`
/// and a second to the one named `n2` rewrites each against its own
/// capability pair, leaves every other parameter untouched, and leaves both
/// binding statements in the body — the second transformation's binding
/// first, then the first's, then every original statement.
pub proof fn lemma_stacked_transforms(
    d: DeclView,
    i: nat,
    j: nat,
    n1: Seq<char>,
    n2: Seq<char>,
    p1: CapabilityPair,
    p2: CapabilityPair,
)
    requires
        i < d.params.len(),
        j < d.params.len(),
        i != j,
        n1 != n2,
        d.params[i as int] matches ParamView::Typed {
            pat: PatView::Ident { name: pn1, .. },
            ty: ParamTypeView::Reference { .. },
            ..
        } && pn1 == n1,
        d.params[j as int] matches ParamView::Typed {
            pat: PatView::Ident { name: pn2, .. },
            ty: ParamTypeView::Reference { .. },
            ..
        } && pn2 == n2,
        forall|k: nat|
            k < d.params.len() && k != i && k != j ==> spec_bystander(d.params[k as int], n1, n2),
    ensures
        (match d.params[i as int] {
            ParamView::Typed { attrs, pat, ty: ParamTypeView::Reference { ty: rt } } => {
                &&& spec_stacked(d, n1, n2, p1, p2).params[i as int] == (ParamView::Typed {
                    attrs,
                    pat: PatView::Ident { name: n1, is_mut: rt.is_mut },
                    ty: ParamTypeView::Other { tokens: spec_impl_type_text(rt, p1) },
                })
                &&& spec_stacked(d, n1, n2, p1, p2).body == seq![
                    spec_param_binding(d.params[j as int], j, set![n2], p2)->Some_0,
                ] + seq![spec_param_binding(d.params[i as int], i, set![n1], p1)->Some_0] + d.body
            },
            _ => false,
        }),
        (match d.params[j as int] {
            ParamView::Typed { attrs, pat, ty: ParamTypeView::Reference { ty: rt } } => {
                spec_stacked(d, n1, n2, p1, p2).params[j as int] == (ParamView::Typed {
                    attrs,
                    pat: PatView::Ident { name: n2, is_mut: rt.is_mut },
                    ty: ParamTypeView::Other { tokens: spec_impl_type_text(rt, p2) },
                })
            },
            _ => false,
        }),
        forall|k: nat|
            k < d.params.len() && k != i && k != j ==> spec_stacked(d, n1, n2, p1, p2).params[k as int]
                == d.params[k as int],
{
    let f1 = set![n1];
    let f2 = set![n2];
    assert(f1.contains(n1));
    assert(!f1.is_empty());
    assert(f2.contains(n2));
    assert(!f2.is_empty());
    assert(!f1.contains(n2));
    assert(!f2.contains(n1));
    let d1 = spec_transform(d, f1, p1);
    let d2 = spec_transform(d1, f2, p2);
    let b1 = spec_param_binding(d.params[i as int], i, f1, p1)->Some_0;
    assert forall|k: nat| k < d.params.len() && k != i implies spec_param_binding(
        d.params[k as int],
        k,
        f1,
        p1,
    ) is None by {
        if k == j {
        } else {
            assert(spec_bystander(d.params[k as int], n1, n2));
        }
    }
    lemma_single_binding(d.params, d.params.len(), f1, p1, i, b1);
    assert(d1.body =~= seq![b1] + d.body);
    assert(d1.params.len() == d.params.len());
    assert(d1.params[j as int] == d.params[j as int]);
    let b2 = spec_param_binding(d1.params[j as int], j, f2, p2)->Some_0;
    assert(b2 == spec_param_binding(d.params[j as int], j, f2, p2)->Some_0);
    assert forall|k: nat| k < d1.params.len() && k != j implies spec_param_binding(
        d1.params[k as int],
        k,
        f2,
        p2,
    ) is None by {
        if k == i {
            assert(d1.params[i as int] == spec_rewrite_param(d.params[i as int], i, f1, p1));
        } else {
            assert(d1.params[k as int] == spec_rewrite_param(d.params[k as int], k, f1, p1));
            assert(spec_bystander(d.params[k as int], n1, n2));
            assert(d1.params[k as int] == d.params[k as int]);
        }
    }
    lemma_single_binding(d1.params, d1.params.len(), f2, p2, j, b2);
    assert(d2.body =~= seq![b2] + d1.body);
    assert(d2.body =~= seq![b2] + seq![b1] + d.body);
    assert(d2.params[i as int] == d1.params[i as int]);
    assert(d2.params[j as int] == spec_rewrite_param(d1.params[j as int], j, f2, p2));
    assert forall|k: nat|
        k < d.params.len() && k != i && k != j implies d2.params[k as int] == d.params[k as int] by {
        assert(spec_bystander(d.params[k as int], n1, n2));
        assert(d1.params[k as int] == d.params[k as int]);
    }
}

} // verus!
