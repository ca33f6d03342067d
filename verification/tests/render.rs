use auto_ref::decl::{FnDecl, Param, ParamType, Pat};
use auto_ref::render::render_decl;

fn bare_decl() -> FnDecl {
    FnDecl {
        attrs: vec![],
        vis: String::new(),
        is_const: false,
        is_async: false,
        is_unsafe: false,
        abi: String::new(),
        name: "f".to_string(),
        generics: String::new(),
        where_clause: String::new(),
        params: vec![],
        variadic: false,
        output: String::new(),
        body: vec![],
    }
}

#[test]
fn minimal_declaration_renders_with_empty_body() {
    let d = bare_decl();
    assert_eq!(render_decl(&d), "fn f() { }");
}

#[test]
fn variadic_marker_stands_alone_without_parameters() {
    let mut d = bare_decl();
    d.variadic = true;
    assert_eq!(render_decl(&d), "fn f(...) { }");
}

#[test]
fn attributes_and_output_and_where_clause_round_trip() {
    let mut d = bare_decl();
    d.attrs = vec!["#[inline]".to_string(), "#[must_use]".to_string()];
    d.output = "-> u8".to_string();
    d.where_clause = "where T: Copy".to_string();
    d.generics = "<T>".to_string();
    d.params = vec![Param::Typed {
        attrs: vec![],
        pat: Pat::Ident { name: "x".to_string(), is_mut: false },
        ty: ParamType::Other { tokens: "T".to_string() },
    }];
    d.body = vec!["0".to_string()];
    assert_eq!(
        render_decl(&d),
        "#[inline] #[must_use] fn f<T>(x: T) -> u8 where T: Copy { 0 }"
    );
}
