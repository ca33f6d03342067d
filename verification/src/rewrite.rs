use vstd::prelude::*;
use vstd::string::StringExecFns;
use crate::decl::{Pat, PatView, RefType, RefTypeView, ParamType, ParamTypeView, Param, ParamView, FnDecl, DeclView, clone_param, clone_strings};
use crate::names::{spec_synth_name, synth_name};
use crate::filter::Filter;

verus! {

/// The two capability pairs a transformation can target: the standard
/// conversion pair (`AsRef`/`AsMut`, accessors `as_ref`/`as_mut`) and the
/// borrow pair (`Borrow`/`BorrowMut`, accessors `borrow`/`borrow_mut`).
#[derive(Clone, Copy, PartialEq, Eq, Structural)]
pub enum CapabilityPair {
    Standard,
    Borrow,
}

/// The path of the read-capability trait of a pair.
pub open spec fn spec_read_trait(pair: CapabilityPair) -> Seq<char> {
    match pair {
        CapabilityPair::Standard => "::core::convert::AsRef"@,
        CapabilityPair::Borrow => "::core::borrow::Borrow"@,
    }
}

/// The path of the write-capability trait of a pair.
pub open spec fn spec_write_trait(pair: CapabilityPair) -> Seq<char> {
    match pair {
        CapabilityPair::Standard => "::core::convert::AsMut"@,
        CapabilityPair::Borrow => "::core::borrow::BorrowMut"@,
    }
}

/// The capability trait matching the mutability of a rewritten parameter.
pub open spec fn spec_cap_trait(pair: CapabilityPair, is_mut: bool) -> Seq<char> {
    if is_mut {
        spec_write_trait(pair)
    } else {
        spec_read_trait(pair)
    }
}

/// The accessor method matching the mutability of a rewritten parameter.
pub open spec fn spec_accessor(pair: CapabilityPair, is_mut: bool) -> Seq<char> {
    match pair {
        CapabilityPair::Standard => if is_mut {
            "as_mut"@
        } else {
            "as_ref"@
        },
        CapabilityPair::Borrow => if is_mut {
            "borrow_mut"@
        } else {
            "borrow"@
        },
    }
}

/// The text of a binding pattern.
pub open spec fn spec_pat_text(p: PatView) -> Seq<char> {
    match p {
        PatView::Ident { name, is_mut } => if is_mut {
            "mut "@ + name
        } else {
            name
        },
        PatView::Other { tokens } => tokens,
    }
}

/// The text of a borrowed-reference type, exactly as declared: ampersand,
/// the explicit lifetime if one was written, the mutability qualifier, the
/// element type.
pub open spec fn spec_ref_text(t: RefTypeView) -> Seq<char> {
    "&"@ + (match t.lifetime {
        Some(lt) => lt + " "@,
        None => Seq::<char>::empty(),
    }) + (if t.is_mut {
        "mut "@
    } else {
        Seq::<char>::empty()
    }) + t.elem
}

/// The replacement type of a rewritten parameter: an anonymous generic bound
/// by the capability trait applied to the element type, intersected with the
/// original lifetime where one was present.
pub open spec fn spec_impl_type_text(t: RefTypeView, pair: CapabilityPair) -> Seq<char> {
    "impl "@ + (match t.lifetime {
        Some(lt) => lt + " + "@,
        None => Seq::<char>::empty(),
    }) + spec_cap_trait(pair, t.is_mut) + "<"@ + t.elem + ">"@
}

/// The binding statement injected for a rewritten parameter: it shadows the
/// original pattern, ascribes exactly the original reference type, and
/// invokes the capability's accessor method on the parameter name `var`.
pub open spec fn spec_binding_text(
    pat: PatView,
    t: RefTypeView,
    var: Seq<char>,
    pair: CapabilityPair,
) -> Seq<char> {
    "let "@ + spec_pat_text(pat) + ": "@ + spec_ref_text(t) + " = "@ + var + "."@
        + spec_accessor(pair, t.is_mut) + "();"@
}

/// The name used for the replacement parameter at index `i`: a simple
/// identifier pattern's own name is reused, any other pattern gets the
/// synthesized positional name.
pub open spec fn spec_var_name(pat: PatView, i: nat) -> Seq<char> {
    match pat {
        PatView::Ident { name, .. } => name,
        PatView::Other { .. } => spec_synth_name(i),
    }
}

/// Whether the filter excludes a parameter: only a non-empty filter
/// excludes, and only a simple-identifier pattern whose name it does not
/// contain.
pub open spec fn spec_excluded(pat: PatView, f: Set<Seq<char>>) -> bool {
    match pat {
        PatView::Ident { name, .. } => !f.is_empty() && !f.contains(name),
        PatView::Other { .. } => false,
    }
}

/// Whether a parameter is rewritten: a typed, reference-shaped parameter
/// that the filter does not exclude. Receivers and opaque types always pass
/// through.
pub open spec fn spec_rewrites(p: ParamView, f: Set<Seq<char>>) -> bool {
    match p {
        ParamView::Typed { pat, ty, .. } => !spec_excluded(pat, f) && (ty matches
            ParamTypeView::Reference { .. }),
        ParamView::Receiver { .. } => false,
    }
}

/// The parameter emitted for source parameter `p` at index `i`.
pub open spec fn spec_rewrite_param(
    p: ParamView,
    i: nat,
    f: Set<Seq<char>>,
    pair: CapabilityPair,
) -> ParamView {
    if spec_rewrites(p, f) {
        match p {
            ParamView::Typed { attrs, pat, ty } => match ty {
                ParamTypeView::Reference { ty: rt } => ParamView::Typed {
                    attrs: attrs,
                    pat: PatView::Ident { name: spec_var_name(pat, i), is_mut: rt.is_mut },
                    ty: ParamTypeView::Other { tokens: spec_impl_type_text(rt, pair) },
                },
                ParamTypeView::Other { .. } => p,
            },
            ParamView::Receiver { .. } => p,
        }
    } else {
        p
    }
}

/// The binding statement generated for source parameter `p` at index `i`,
/// if the parameter is rewritten.
pub open spec fn spec_param_binding(
    p: ParamView,
    i: nat,
    f: Set<Seq<char>>,
    pair: CapabilityPair,
) -> Option<Seq<char>> {
    if spec_rewrites(p, f) {
        match p {
            ParamView::Typed { attrs, pat, ty } => match ty {
                ParamTypeView::Reference { ty: rt } => Some(
                    spec_binding_text(pat, rt, spec_var_name(pat, i), pair),
                ),
                ParamTypeView::Other { .. } => None,
            },
            ParamView::Receiver { .. } => None,
        }
    } else {
        None
    }
}

/// The binding statements generated for the first `n` parameters, in
/// parameter order.
pub open spec fn spec_bindings_prefix(
    ps: Seq<ParamView>,
    n: nat,
    f: Set<Seq<char>>,
    pair: CapabilityPair,
) -> Seq<Seq<char>>
    decreases n,
{
    if n == 0 {
        Seq::empty()
    } else {
        spec_bindings_prefix(ps, (n - 1) as nat, f, pair) + (match spec_param_binding(
            ps[n - 1],
            (n - 1) as nat,
            f,
            pair,
        ) {
            Some(b) => seq![b],
            None => Seq::<Seq<char>>::empty(),
        })
    }
}

/// The binding statements generated for a whole parameter list.
pub open spec fn spec_bindings(
    ps: Seq<ParamView>,
    f: Set<Seq<char>>,
    pair: CapabilityPair,
) -> Seq<Seq<char>> {
    spec_bindings_prefix(ps, ps.len(), f, pair)
}

/// The whole transformation: every declaration field other than the
/// parameter list and the body passes through unchanged; each parameter is
/// rewritten or kept as classification decides; the body is the generated
/// bindings, in parameter order, followed by every original statement in
/// original order.
pub open spec fn spec_transform(d: DeclView, f: Set<Seq<char>>, pair: CapabilityPair) -> DeclView {
    DeclView {
        params: Seq::new(d.params.len(), |i: int| spec_rewrite_param(d.params[i], i as nat, f, pair)),
        body: spec_bindings(d.params, f, pair) + d.body,
        ..d
    }
}

/// Renders the read- or write-capability trait path of a pair.
pub fn cap_trait_text(pair: CapabilityPair, is_mut: bool) -> (r: String)
    ensures
        r@ == spec_cap_trait(pair, is_mut),
{
    match pair {
        CapabilityPair::Standard => if is_mut {
            String::from_str("::core::convert::AsMut")
        } else {
            String::from_str("::core::convert::AsRef")
        },
        CapabilityPair::Borrow => if is_mut {
            String::from_str("::core::borrow::BorrowMut")
        } else {
            String::from_str("::core::borrow::Borrow")
        },
    }
}

/// Renders the accessor method name of a pair.
pub fn accessor_text(pair: CapabilityPair, is_mut: bool) -> (r: String)
    ensures
        r@ == spec_accessor(pair, is_mut),
{
    match pair {
        CapabilityPair::Standard => if is_mut {
            String::from_str("as_mut")
        } else {
            String::from_str("as_ref")
        },
        CapabilityPair::Borrow => if is_mut {
            String::from_str("borrow_mut")
        } else {
            String::from_str("borrow")
        },
    }
}

/// Renders a binding pattern.
pub fn pat_text(p: &Pat) -> (r: String)
    ensures
        r@ == spec_pat_text(p@),
{
    match p {
        Pat::Ident { name, is_mut } => {
            if *is_mut {
                let mut s = String::from_str("mut ");
                s.append(name.as_str());
                s
            } else {
                name.clone()
            }
        },
        Pat::Other { tokens } => tokens.clone(),
    }
}

/// Renders a borrowed-reference type exactly as declared.
pub fn ref_text(t: &RefType) -> (r: String)
    ensures
        r@ == spec_ref_text(t@),
{
    let mut s = String::from_str("&");
    match &t.lifetime {
        Some(lt) => {
            s.append(lt.as_str());
            s.append(" ");
        },
        None => {},
    }
    if t.is_mut {
        s.append("mut ");
    }
    s.append(t.elem.as_str());
    proof {
        assert(s@ =~= spec_ref_text(t@));
    }
    s
}

/// Renders the replacement generic-bound type of a rewritten parameter.
pub fn impl_type_text(t: &RefType, pair: CapabilityPair) -> (r: String)
    ensures
        r@ == spec_impl_type_text(t@, pair),
{
    let mut s = String::from_str("impl ");
    match &t.lifetime {
        Some(lt) => {
            s.append(lt.as_str());
            s.append(" + ");
        },
        None => {},
    }
    s.append(cap_trait_text(pair, t.is_mut).as_str());
    s.append("<");
    s.append(t.elem.as_str());
    s.append(">");
    proof {
        assert(s@ =~= spec_impl_type_text(t@, pair));
    }
    s
}

/// Renders the binding statement of a rewritten parameter.
pub fn binding_text(pat: &Pat, t: &RefType, var: &String, pair: CapabilityPair) -> (r: String)
    ensures
        r@ == spec_binding_text(pat@, t@, var@, pair),
{
    let mut s = String::from_str("let ");
    s.append(pat_text(pat).as_str());
    s.append(": ");
    s.append(ref_text(t).as_str());
    s.append(" = ");
    s.append(var.as_str());
    s.append(".");
    s.append(accessor_text(pair, t.is_mut).as_str());
    s.append("();");
    proof {
        assert(s@ =~= spec_binding_text(pat@, t@, var@, pair));
    }
    s
}

/// Rewrites a function declaration: classifies each parameter in declared
/// order against the filter, replaces each eligible borrowed-reference
/// parameter with a capability-bound generic parameter, and prepends the
/// matching binding statements to the body. All other fields pass through
/// unchanged.
pub fn transform(d: &FnDecl, filter: &Filter, pair: CapabilityPair) -> (r: FnDecl)
    ensures
        r@ == spec_transform(d@, filter@, pair),
{
    let filter_empty = filter.is_empty();
    let n = d.params.len();
    let mut out_params: Vec<Param> = Vec::new();
    let mut bindings: Vec<String> = Vec::new();
    let mut i: usize = 0;
    while i < n
        invariant
            n == d.params.len(),
            i <= n,
            filter_empty == filter@.is_empty(),
            out_params@.len() == i,
            forall|k: int|
                0 <= k < i ==> out_params@[k]@ == spec_rewrite_param(
                    d@.params[k],
                    k as nat,
                    filter@,
                    pair,
                ),
            bindings@.map_values(|s: String| s@) == spec_bindings_prefix(
                d@.params,
                i as nat,
                filter@,
                pair,
            ),
        decreases n - i,
    {
        let ghost old_bindings = bindings@;
        match &d.params[i] {
            Param::Receiver { tokens } => {
                out_params.push(Param::Receiver { tokens: tokens.clone() });
            },
            Param::Typed { attrs, pat, ty } => {
                let excluded = !filter_empty && (match pat {
                    Pat::Ident { name, .. } => !filter.contains(name),
                    Pat::Other { .. } => false,
                });
                if excluded {
                    out_params.push(clone_param(&d.params[i]));
                } else {
                    match ty {
                        ParamType::Reference { ty: rt } => {
                            let var: String = match pat {
                                Pat::Ident { name, .. } => name.clone(),
                                Pat::Other { .. } => synth_name(i),
                            };
                            bindings.push(binding_text(pat, rt, &var, pair));
                            out_params.push(
                                Param::Typed {
                                    attrs: clone_strings(attrs),
                                    pat: Pat::Ident { name: var, is_mut: rt.is_mut },
                                    ty: ParamType::Other { tokens: impl_type_text(rt, pair) },
                                },
                            );
                        },
                        ParamType::Other { .. } => {
                            out_params.push(clone_param(&d.params[i]));
                        },
                    }
                }
            },
        }
        i += 1;
        proof {
            assert(bindings@.map_values(|s: String| s@) =~= spec_bindings_prefix(
                d@.params,
                i as nat,
                filter@,
                pair,
            ));
        }
    }
    let mut body: Vec<String> = bindings;
    proof {
        assert(body@.map_values(|s: String| s@) =~= spec_bindings(d@.params, filter@, pair)
            + d@.body.subrange(0, 0));
    }
    let mut j: usize = 0;
    while j < d.body.len()
        invariant
            j <= d.body.len(),
            body@.map_values(|s: String| s@) == spec_bindings(d@.params, filter@, pair)
                + d@.body.subrange(0, j as int),
        decreases d.body.len() - j,
    {
        let ghost old_body = body@;
        let ghost j0 = j as int;
        body.push(d.body[j].clone());
        j += 1;
        proof {
            assert(body@.map_values(|s: String| s@) =~= old_body.map_values(|s: String| s@).push(
                d@.body[j0],
            ));
            assert(d@.body.subrange(0, j0 + 1) =~= d@.body.subrange(0, j0).push(d@.body[j0]));
            assert(body@.map_values(|s: String| s@) =~= spec_bindings(d@.params, filter@, pair)
                + d@.body.subrange(0, j as int));
        }
    }
    let r = FnDecl {
        attrs: clone_strings(&d.attrs),
        vis: d.vis.clone(),
        is_const: d.is_const,
        is_async: d.is_async,
        is_unsafe: d.is_unsafe,
        abi: d.abi.clone(),
        name: d.name.clone(),
        generics: d.generics.clone(),
        where_clause: d.where_clause.clone(),
        params: out_params,
        variadic: d.variadic,
        output: d.output.clone(),
        body: body,
    };
    proof {
        assert(d@.body.subrange(0, d@.body.len() as int) =~= d@.body);
        assert(r@.params =~= spec_transform(d@, filter@, pair).params);
        assert(r@.body =~= spec_transform(d@, filter@, pair).body);
        assert(r@ =~= spec_transform(d@, filter@, pair));
    }
    r
}

} // verus!
