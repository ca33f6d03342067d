use auto_ref::auto_borrow;
use auto_ref::auto_ref;
use auto_ref::filter::Filter;
use auto_ref::rewrite::{transform, CapabilityPair};
use auto_ref::decl::{FnDecl, Param, ParamType, Pat, RefType};
use auto_ref::render::render_decl;

fn simple_decl(params: Vec<Param>, body: Vec<String>) -> FnDecl {
    FnDecl {
        attrs: vec![],
        vis: String::new(),
        is_const: false,
        is_async: false,
        is_unsafe: false,
        abi: String::new(),
        name: "f".to_string(),
        generics: String::new(),
        where_clause: String::new(),
        params,
        variadic: false,
        output: String::new(),
        body,
    }
}

fn ident_pat(name: &str) -> Pat {
    Pat::Ident { name: name.to_string(), is_mut: false }
}

fn ref_param(name: &str, lifetime: Option<&str>, is_mut: bool, elem: &str) -> Param {
    Param::Typed {
        attrs: vec![],
        pat: ident_pat(name),
        ty: ParamType::Reference {
            ty: RefType {
                lifetime: lifetime.map(|l| l.to_string()),
                is_mut,
                elem: elem.to_string(),
            },
        },
    }
}

fn plain_param(name: &str, ty: &str) -> Param {
    Param::Typed {
        attrs: vec![],
        pat: ident_pat(name),
        ty: ParamType::Other { tokens: ty.to_string() },
    }
}

#[test]
fn test_auto_ref() {
    let d = FnDecl {
        attrs: vec![],
        vis: "pub(in crate::a)".to_string(),
        is_const: true,
        is_async: true,
        is_unsafe: true,
        abi: "extern \"C\"".to_string(),
        name: "test".to_string(),
        generics: "<'a, T: Sized>".to_string(),
        where_clause: "where T: 'a + Sized + Sized".to_string(),
        params: vec![ref_param("s", Some("'a"), false, "str"), plain_param("t", "T")],
        variadic: true,
        output: "-> ()".to_string(),
        body: vec!["println!(\"{}\", s);".to_string()],
    };
    let out = auto_ref("", &d).unwrap();
    assert_eq!(
        render_decl(&out),
        "pub(in crate::a) const async unsafe extern \"C\" \
         fn test<'a, T: Sized>(s: impl 'a + ::core::convert::AsRef<str>, t: T, ...) -> () \
         where T: 'a + Sized + Sized \
         { let s: &'a str = s.as_ref(); println!(\"{}\", s); }"
    );
}

#[test]
fn empty_filter_transforms_every_eligible_parameter() {
    let d = simple_decl(
        vec![ref_param("s", None, false, "str"), ref_param("t", None, false, "str")],
        vec!["g();".to_string()],
    );
    let out = auto_ref("", &d).unwrap();
    assert_eq!(
        render_decl(&out),
        "fn f(s: impl ::core::convert::AsRef<str>, t: impl ::core::convert::AsRef<str>) \
         { let s: &str = s.as_ref(); let t: &str = t.as_ref(); g(); }"
    );
}

#[test]
fn unmatched_filter_transforms_none() {
    let d = simple_decl(
        vec![ref_param("s", None, false, "str"), ref_param("t", None, false, "str")],
        vec!["g();".to_string()],
    );
    let out = auto_ref("zzz", &d).unwrap();
    assert_eq!(render_decl(&out), "fn f(s: &str, t: &str) { g(); }");
}

#[test]
fn binding_order_matches_parameter_order() {
    let d = simple_decl(
        vec![
            ref_param("a", None, false, "str"),
            plain_param("b", "i32"),
            ref_param("c", None, true, "u8"),
        ],
        vec!["g();".to_string(), "h();".to_string()],
    );
    let out = auto_ref("", &d).unwrap();
    assert_eq!(
        render_decl(&out),
        "fn f(a: impl ::core::convert::AsRef<str>, b: i32, mut c: impl ::core::convert::AsMut<u8>) \
         { let a: &str = a.as_ref(); let c: &mut u8 = c.as_mut(); g(); h(); }"
    );
}

#[test]
fn binding_ascribes_exact_original_reference_type() {
    let d = simple_decl(vec![ref_param("x", Some("'a"), true, "Foo")], vec![]);
    let out = auto_ref("", &d).unwrap();
    assert_eq!(
        render_decl(&out),
        "fn f(mut x: impl 'a + ::core::convert::AsMut<Foo>) { let x: &'a mut Foo = x.as_mut(); }"
    );
}

#[test]
fn non_identifier_pattern_gets_synthesized_positional_name() {
    let d = simple_decl(
        vec![
            plain_param("n", "u8"),
            Param::Typed {
                attrs: vec![],
                pat: Pat::Other { tokens: "(a, b)".to_string() },
                ty: ParamType::Reference {
                    ty: RefType { lifetime: None, is_mut: false, elem: "(u8, u8)".to_string() },
                },
            },
        ],
        vec![],
    );
    let out = auto_ref("", &d).unwrap();
    assert_eq!(
        render_decl(&out),
        "fn f(n: u8, __p1: impl ::core::convert::AsRef<(u8, u8)>) \
         { let (a, b): &(u8, u8) = __p1.as_ref(); }"
    );
}

#[test]
fn filter_exclusion_leaves_type_untouched() {
    let d = simple_decl(
        vec![ref_param("s", None, false, "str"), ref_param("t", None, false, "str")],
        vec![],
    );
    let out = auto_ref("s", &d).unwrap();
    assert_eq!(
        render_decl(&out),
        "fn f(s: impl ::core::convert::AsRef<str>, t: &str) { let s: &str = s.as_ref(); }"
    );
}

#[test]
fn stacked_transforms_compose() {
    let d = simple_decl(
        vec![ref_param("s", None, false, "str"), ref_param("t", None, false, "str")],
        vec!["g();".to_string()],
    );
    let first = auto_ref("s", &d).unwrap();
    let second = auto_borrow("t", &first).unwrap();
    assert_eq!(
        render_decl(&second),
        "fn f(s: impl ::core::convert::AsRef<str>, t: impl ::core::borrow::Borrow<str>) \
         { let t: &str = t.borrow(); let s: &str = s.as_ref(); g(); }"
    );
}

#[test]
fn receiver_and_non_reference_parameters_untouched() {
    let d = simple_decl(
        vec![
            Param::Receiver { tokens: "&self".to_string() },
            plain_param("x", "i32"),
            ref_param("y", None, false, "str"),
        ],
        vec![],
    );
    let out = auto_ref("", &d).unwrap();
    assert_eq!(
        render_decl(&out),
        "fn f(&self, x: i32, y: impl ::core::convert::AsRef<str>) { let y: &str = y.as_ref(); }"
    );
}

#[test]
fn malformed_configuration_surfaces_position() {
    let d = simple_decl(vec![ref_param("s", None, false, "str")], vec![]);
    let e = auto_ref("1abc", &d).unwrap_err();
    assert_eq!(e.pos, 0);
}

#[test]
fn auto_borrow_uses_borrow_pair() {
    let d = simple_decl(
        vec![ref_param("s", None, false, "str"), ref_param("t", None, true, "String")],
        vec![],
    );
    let out = auto_borrow("", &d).unwrap();
    assert_eq!(
        render_decl(&out),
        "fn f(s: impl ::core::borrow::Borrow<str>, mut t: impl ::core::borrow::BorrowMut<String>) \
         { let s: &str = s.borrow(); let t: &mut String = t.borrow_mut(); }"
    );
}

#[test]
fn mut_binding_identifier_parameter_keeps_pattern_in_binding() {
    let d = simple_decl(
        vec![Param::Typed {
            attrs: vec![],
            pat: Pat::Ident { name: "x".to_string(), is_mut: true },
            ty: ParamType::Reference {
                ty: RefType { lifetime: None, is_mut: false, elem: "str".to_string() },
            },
        }],
        vec![],
    );
    let out = auto_ref("", &d).unwrap();
    assert_eq!(
        render_decl(&out),
        "fn f(x: impl ::core::convert::AsRef<str>) { let mut x: &str = x.as_ref(); }"
    );
}

#[test]
fn parameter_attributes_are_preserved_on_replacement() {
    let d = simple_decl(
        vec![Param::Typed {
            attrs: vec!["#[cfg(unix)]".to_string()],
            pat: ident_pat("s"),
            ty: ParamType::Reference {
                ty: RefType { lifetime: None, is_mut: false, elem: "str".to_string() },
            },
        }],
        vec![],
    );
    let out = auto_ref("", &d).unwrap();
    assert_eq!(
        render_decl(&out),
        "fn f(#[cfg(unix)] s: impl ::core::convert::AsRef<str>) { let s: &str = s.as_ref(); }"
    );
}

#[test]
fn direct_transform_with_a_fresh_empty_filter() {
    let d = simple_decl(vec![ref_param("s", None, false, "str")], vec![]);
    let f = Filter::new_empty();
    let out = transform(&d, &f, CapabilityPair::Standard);
    assert_eq!(
        render_decl(&out),
        "fn f(s: impl ::core::convert::AsRef<str>) { let s: &str = s.as_ref(); }"
    );
}
