use vstd::prelude::*;

verus! {

/// The binding pattern of a typed parameter: either a simple identifier
/// (possibly a `mut` binding), or the raw token text of any other pattern
/// (tuple, struct, slice, ... destructurings).
#[derive(Debug)]
pub enum Pat {
    Ident { name: String, is_mut: bool },
    Other { tokens: String },
}

/// Mathematical model of a `Pat`.
pub enum PatView {
    Ident { name: Seq<char>, is_mut: bool },
    Other { tokens: Seq<char> },
}

impl View for Pat {
    type V = PatView;

    open spec fn view(&self) -> PatView {
        match self {
            Pat::Ident { name, is_mut } => PatView::Ident { name: name@, is_mut: *is_mut },
            Pat::Other { tokens } => PatView::Other { tokens: tokens@ },
        }
    }
}

/// A borrowed-reference type `&'lifetime mut Elem`: the optional explicit
/// lifetime (as token text, e.g. `'a`), the mutability qualifier, and the
/// referenced element type (as token text).
#[derive(Debug)]
pub struct RefType {
    pub lifetime: Option<String>,
    pub is_mut: bool,
    pub elem: String,
}

/// Mathematical model of a `RefType`.
pub struct RefTypeView {
    pub lifetime: Option<Seq<char>>,
    pub is_mut: bool,
    pub elem: Seq<char>,
}

impl View for RefType {
    type V = RefTypeView;

    open spec fn view(&self) -> RefTypeView {
        RefTypeView {
            lifetime: match &self.lifetime {
                Some(l) => Some(l@),
                None => None,
            },
            is_mut: self.is_mut,
            elem: self.elem@,
        }
    }
}

/// The declared type of a typed parameter: a borrowed reference, decomposed,
/// or the raw token text of any other type.
#[derive(Debug)]
pub enum ParamType {
    Reference { ty: RefType },
    Other { tokens: String },
}

/// Mathematical model of a `ParamType`.
pub enum ParamTypeView {
    Reference { ty: RefTypeView },
    Other { tokens: Seq<char> },
}

impl View for ParamType {
    type V = ParamTypeView;

    open spec fn view(&self) -> ParamTypeView {
        match self {
            ParamType::Reference { ty } => ParamTypeView::Reference { ty: ty@ },
            ParamType::Other { tokens } => ParamTypeView::Other { tokens: tokens@ },
        }
    }
}

/// One entry of a function's parameter list: a receiver (`self` in any of its
/// forms, kept as raw token text and never classified), or a typed parameter
/// with its own attributes, a binding pattern, and a declared type.
#[derive(Debug)]
pub enum Param {
    Receiver { tokens: String },
    Typed { attrs: Vec<String>, pat: Pat, ty: ParamType },
}

/// Mathematical model of a `Param`.
pub enum ParamView {
    Receiver { tokens: Seq<char> },
    Typed { attrs: Seq<Seq<char>>, pat: PatView, ty: ParamTypeView },
}

impl View for Param {
    type V = ParamView;

    open spec fn view(&self) -> ParamView {
        match self {
            Param::Receiver { tokens } => ParamView::Receiver { tokens: tokens@ },
            Param::Typed { attrs, pat, ty } => ParamView::Typed {
                attrs: attrs@.map_values(|a: String| a@),
                pat: pat@,
                ty: ty@,
            },
        }
    }
}

/// A structured function declaration. Every textual field holds raw token
/// text; an empty string stands for an absent part (visibility, ABI, generic
/// parameter list, where-clause, return type). The body is the ordered list
/// of its statements, each as token text.
#[derive(Debug)]
pub struct FnDecl {
    pub attrs: Vec<String>,
    pub vis: String,
    pub is_const: bool,
    pub is_async: bool,
    pub is_unsafe: bool,
    pub abi: String,
    pub name: String,
    pub generics: String,
    pub where_clause: String,
    pub params: Vec<Param>,
    pub variadic: bool,
    pub output: String,
    pub body: Vec<String>,
}

/// Mathematical model of a `FnDecl`.
pub struct DeclView {
    pub attrs: Seq<Seq<char>>,
    pub vis: Seq<char>,
    pub is_const: bool,
    pub is_async: bool,
    pub is_unsafe: bool,
    pub abi: Seq<char>,
    pub name: Seq<char>,
    pub generics: Seq<char>,
    pub where_clause: Seq<char>,
    pub params: Seq<ParamView>,
    pub variadic: bool,
    pub output: Seq<char>,
    pub body: Seq<Seq<char>>,
}

impl View for FnDecl {
    type V = DeclView;

    open spec fn view(&self) -> DeclView {
        DeclView {
            attrs: self.attrs@.map_values(|a: String| a@),
            vis: self.vis@,
            is_const: self.is_const,
            is_async: self.is_async,
            is_unsafe: self.is_unsafe,
            abi: self.abi@,
            name: self.name@,
            generics: self.generics@,
            where_clause: self.where_clause@,
            params: self.params@.map_values(|p: Param| p@),
            variadic: self.variadic,
            output: self.output@,
            body: self.body@.map_values(|s: String| s@),
        }
    }
}

/// Clones a vector of strings; the sequence of views is kept.
pub fn clone_strings(v: &Vec<String>) -> (r: Vec<String>)
    ensures
        r@.map_values(|a: String| a@) == v@.map_values(|a: String| a@),
{
    let mut r: Vec<String> = Vec::new();
    let mut i: usize = 0;
    while i < v.len()
        invariant
            i <= v.len(),
            r@.len() == i,
            forall|j: int| 0 <= j < i ==> r@[j]@ == v@[j]@,
        decreases v.len() - i,
    {
        r.push(v[i].clone());
        i += 1;
    }
    proof {
        assert(r@.map_values(|a: String| a@) =~= v@.map_values(|a: String| a@));
    }
    r
}

/// Clones a pattern; the view is kept.
pub fn clone_pat(p: &Pat) -> (r: Pat)
    ensures
        r@ == p@,
{
    match p {
        Pat::Ident { name, is_mut } => Pat::Ident { name: name.clone(), is_mut: *is_mut },
        Pat::Other { tokens } => Pat::Other { tokens: tokens.clone() },
    }
}

/// Clones a reference type; the view is kept.
pub fn clone_ref_type(t: &RefType) -> (r: RefType)
    ensures
        r@ == t@,
{
    RefType {
        lifetime: match &t.lifetime {
            Some(l) => Some(l.clone()),
            None => None,
        },
        is_mut: t.is_mut,
        elem: t.elem.clone(),
    }
}

/// Clones a parameter type; the view is kept.
pub fn clone_param_type(t: &ParamType) -> (r: ParamType)
    ensures
        r@ == t@,
{
    match t {
        ParamType::Reference { ty } => ParamType::Reference { ty: clone_ref_type(ty) },
        ParamType::Other { tokens } => ParamType::Other { tokens: tokens.clone() },
    }
}

/// Clones a parameter; the view is kept.
pub fn clone_param(p: &Param) -> (r: Param)
    ensures
        r@ == p@,
{
    match p {
        Param::Receiver { tokens } => Param::Receiver { tokens: tokens.clone() },
        Param::Typed { attrs, pat, ty } => Param::Typed {
            attrs: clone_strings(attrs),
            pat: clone_pat(pat),
            ty: clone_param_type(ty),
        },
    }
}

} // verus!
