use vstd::prelude::*;
use vstd::string::StringExecFns;
use vstd::string::StrSliceExecFns;
use crate::decl::{Pat, ParamType, ParamTypeView, Param, ParamView, FnDecl, DeclView};
use crate::rewrite::{spec_pat_text, spec_ref_text, pat_text, ref_text};

verus! {

/// A possibly absent part followed by one space where present.
pub open spec fn spec_opt_sp(s: Seq<char>) -> Seq<char> {
    if s.len() == 0 {
        Seq::<char>::empty()
    } else {
        s + " "@
    }
}

/// A possibly absent part preceded by one space where present.
pub open spec fn spec_opt_presp(s: Seq<char>) -> Seq<char> {
    if s.len() == 0 {
        Seq::<char>::empty()
    } else {
        " "@ + s
    }
}

/// The first `n` attributes, each followed by one space.
pub open spec fn spec_attrs_text(attrs: Seq<Seq<char>>, n: nat) -> Seq<char>
    decreases n,
{
    if n == 0 {
        Seq::<char>::empty()
    } else {
        spec_attrs_text(attrs, (n - 1) as nat) + attrs[n - 1] + " "@
    }
}

/// The text of a declared parameter type.
pub open spec fn spec_ty_text(ty: ParamTypeView) -> Seq<char> {
    match ty {
        ParamTypeView::Reference { ty: rt } => spec_ref_text(rt),
        ParamTypeView::Other { tokens } => tokens,
    }
}

/// The text of one parameter list entry.
pub open spec fn spec_render_param(p: ParamView) -> Seq<char> {
    match p {
        ParamView::Receiver { tokens } => tokens,
        ParamView::Typed { attrs, pat, ty } => spec_attrs_text(attrs, attrs.len())
            + spec_pat_text(pat) + ": "@ + spec_ty_text(ty),
    }
}

/// The first `n` parameters joined by comma separators.
pub open spec fn spec_params_join(ps: Seq<ParamView>, n: nat) -> Seq<char>
    decreases n,
{
    if n == 0 {
        Seq::<char>::empty()
    } else if n == 1 {
        spec_render_param(ps[0])
    } else {
        spec_params_join(ps, (n - 1) as nat) + ", "@ + spec_render_param(ps[n - 1])
    }
}

/// The whole parameter list, with the variadic marker where one was present.
pub open spec fn spec_params_text(ps: Seq<ParamView>, variadic: bool) -> Seq<char> {
    if variadic {
        if ps.len() == 0 {
            "..."@
        } else {
            spec_params_join(ps, ps.len()) + ", ..."@
        }
    } else {
        spec_params_join(ps, ps.len())
    }
}

/// The first `n` body statements, each followed by one space.
pub open spec fn spec_stmts_text(body: Seq<Seq<char>>, n: nat) -> Seq<char>
    decreases n,
{
    if n == 0 {
        Seq::<char>::empty()
    } else {
        spec_stmts_text(body, (n - 1) as nat) + body[n - 1] + " "@
    }
}

/// The text of a whole function declaration: its fields in declaration
/// order, single spaces between present parts, the parameter list in
/// parentheses, and the body statements between braces.
pub open spec fn spec_render_decl(d: DeclView) -> Seq<char> {
    spec_attrs_text(d.attrs, d.attrs.len()) + spec_opt_sp(d.vis) + (if d.is_const {
        "const "@
    } else {
        Seq::<char>::empty()
    }) + (if d.is_async {
        "async "@
    } else {
        Seq::<char>::empty()
    }) + (if d.is_unsafe {
        "unsafe "@
    } else {
        Seq::<char>::empty()
    }) + spec_opt_sp(d.abi) + "fn "@ + d.name + d.generics + "("@ + spec_params_text(
        d.params,
        d.variadic,
    ) + ")"@ + spec_opt_presp(d.output) + spec_opt_presp(d.where_clause) + " { "@
        + spec_stmts_text(d.body, d.body.len()) + "}"@
}

/// Renders one parameter list entry.
pub fn render_param(p: &Param) -> (r: String)
    ensures
        r@ == spec_render_param(p@),
{
    match p {
        Param::Receiver { tokens } => tokens.clone(),
        Param::Typed { attrs, pat, ty } => {
            let mut s = String::new();
            let mut k: usize = 0;
            while k < attrs.len()
                invariant
                    k <= attrs.len(),
                    s@ == spec_attrs_text(attrs@.map_values(|a: String| a@), k as nat),
                decreases attrs.len() - k,
            {
                s.append(attrs[k].as_str());
                s.append(" ");
                k += 1;
                proof {
                    assert(s@ =~= spec_attrs_text(attrs@.map_values(|a: String| a@), k as nat));
                }
            }
            s.append(pat_text(pat).as_str());
            s.append(": ");
            match ty {
                ParamType::Reference { ty: rt } => s.append(ref_text(rt).as_str()),
                ParamType::Other { tokens } => s.append(tokens.as_str()),
            }
            proof {
                assert(s@ =~= spec_render_param(p@));
            }
            s
        },
    }
}

/// Renders the leading attributes of a declaration, each followed by a
/// space.
fn render_attrs(attrs: &Vec<String>) -> (r: String)
    ensures
        r@ == spec_attrs_text(attrs@.map_values(|a: String| a@), attrs@.len()),
{
    let mut s = String::new();
    let mut k: usize = 0;
    while k < attrs.len()
        invariant
            k <= attrs.len(),
            s@ == spec_attrs_text(attrs@.map_values(|a: String| a@), k as nat),
        decreases attrs.len() - k,
    {
        s.append(attrs[k].as_str());
        s.append(" ");
        k += 1;
        proof {
            assert(s@ =~= spec_attrs_text(attrs@.map_values(|a: String| a@), k as nat));
        }
    }
    s
}

/// Renders a whole parameter list, with the variadic marker where one was
/// present.
fn render_params(params: &Vec<Param>, variadic: bool) -> (r: String)
    ensures
        r@ == spec_params_text(params@.map_values(|p: Param| p@), variadic),
{
    let ghost ps = params@.map_values(|p: Param| p@);
    let mut s = String::new();
    let mut k: usize = 0;
    while k < params.len()
        invariant
            k <= params.len(),
            ps == params@.map_values(|p: Param| p@),
            s@ == spec_params_join(ps, k as nat),
        decreases params.len() - k,
    {
        if k > 0 {
            s.append(", ");
        }
        s.append(render_param(&params[k]).as_str());
        k += 1;
        proof {
            assert(s@ =~= spec_params_join(ps, k as nat));
        }
    }
    if variadic {
        if params.len() == 0 {
            s.append("...");
        } else {
            s.append(", ...");
        }
        proof {
            assert(s@ =~= spec_params_text(ps, variadic));
        }
    }
    s
}

/// Renders the statements of a body, each followed by a space.
fn render_stmts(body: &Vec<String>) -> (r: String)
    ensures
        r@ == spec_stmts_text(body@.map_values(|a: String| a@), body@.len()),
{
    let mut s = String::new();
    let mut k: usize = 0;
    while k < body.len()
        invariant
            k <= body.len(),
            s@ == spec_stmts_text(body@.map_values(|a: String| a@), k as nat),
        decreases body.len() - k,
    {
        s.append(body[k].as_str());
        s.append(" ");
        k += 1;
        proof {
            assert(s@ =~= spec_stmts_text(body@.map_values(|a: String| a@), k as nat));
        }
    }
    s
}

/// Renders a whole function declaration as source text.
#[verifier::rlimit(60)]
pub fn render_decl(d: &FnDecl) -> (r: String)
    ensures
        r@ == spec_render_decl(d@),
{
    let mut s = render_attrs(&d.attrs);
    let ghost g0 = s@;
    if !d.vis.as_str().is_empty() {
        s.append(d.vis.as_str());
        s.append(" ");
    }
    proof {
        assert(s@ =~= g0 + spec_opt_sp(d@.vis));
    }
    let ghost g1 = s@;
    if d.is_const {
        s.append("const ");
    }
    if d.is_async {
        s.append("async ");
    }
    if d.is_unsafe {
        s.append("unsafe ");
    }
    proof {
        assert(s@ =~= g1 + (if d@.is_const {
            "const "@
        } else {
            Seq::<char>::empty()
        }) + (if d@.is_async {
            "async "@
        } else {
            Seq::<char>::empty()
        }) + (if d@.is_unsafe {
            "unsafe "@
        } else {
            Seq::<char>::empty()
        }));
    }
    let ghost g2 = s@;
    if !d.abi.as_str().is_empty() {
        s.append(d.abi.as_str());
        s.append(" ");
    }
    s.append("fn ");
    s.append(d.name.as_str());
    s.append(d.generics.as_str());
    s.append("(");
    proof {
        assert(s@ =~= g2 + spec_opt_sp(d@.abi) + "fn "@ + d@.name + d@.generics + "("@);
    }
    let ghost g3 = s@;
    s.append(render_params(&d.params, d.variadic).as_str());
    s.append(")");
    proof {
        assert(s@ =~= g3 + spec_params_text(d@.params, d@.variadic) + ")"@);
    }
    let ghost g4 = s@;
    if !d.output.as_str().is_empty() {
        s.append(" ");
        s.append(d.output.as_str());
    }
    proof {
        assert(s@ =~= g4 + spec_opt_presp(d@.output));
    }
    let ghost g5 = s@;
    if !d.where_clause.as_str().is_empty() {
        s.append(" ");
        s.append(d.where_clause.as_str());
    }
    proof {
        assert(s@ =~= g5 + spec_opt_presp(d@.where_clause));
    }
    let ghost g6 = s@;
    s.append(" { ");
    s.append(render_stmts(&d.body).as_str());
    s.append("}");
    proof {
        assert(s@ =~= g6 + " { "@ + spec_stmts_text(d@.body, d@.body.len()) + "}"@);
        assert(s@ =~= spec_render_decl(d@));
    }
    s
}

} // verus!
