use auto_ref::filter::parse_filter;
use auto_ref::names::dec_string;
use auto_ref::names::synth_name;

#[test]
fn empty_payload_yields_empty_filter() {
    let f = parse_filter("").unwrap();
    assert!(f.is_empty());
}

#[test]
fn whitespace_only_payload_yields_empty_filter() {
    let f = parse_filter("  \t\n ").unwrap();
    assert!(f.is_empty());
}

#[test]
fn comma_separated_identifiers() {
    let f = parse_filter("a, b, c").unwrap();
    assert!(!f.is_empty());
    assert!(f.contains(&"a".to_string()));
    assert!(f.contains(&"b".to_string()));
    assert!(f.contains(&"c".to_string()));
    assert!(!f.contains(&"d".to_string()));
}

#[test]
fn identifiers_without_separating_comma_are_accepted() {
    let f = parse_filter("a b").unwrap();
    assert!(f.contains(&"a".to_string()));
    assert!(f.contains(&"b".to_string()));
}

#[test]
fn trailing_comma_is_permitted() {
    let f = parse_filter("a, b,").unwrap();
    assert!(f.contains(&"a".to_string()));
    assert!(f.contains(&"b".to_string()));
}

#[test]
fn repeated_identifiers_collapse() {
    let f = parse_filter("a, a, a").unwrap();
    assert!(f.contains(&"a".to_string()));
    assert!(!f.contains(&"b".to_string()));
}

#[test]
fn leading_comma_is_rejected_at_its_position() {
    let e = parse_filter(", a").unwrap_err();
    assert_eq!(e.pos, 0);
}

#[test]
fn doubled_comma_is_rejected_at_the_second_comma() {
    let e = parse_filter("a,, b").unwrap_err();
    assert_eq!(e.pos, 2);
}

#[test]
fn non_identifier_token_is_rejected_at_its_position() {
    let e = parse_filter("a, 1b").unwrap_err();
    assert_eq!(e.pos, 3);
}

#[test]
fn lone_underscore_is_rejected() {
    let e = parse_filter("_").unwrap_err();
    assert_eq!(e.pos, 0);
}

#[test]
fn underscore_prefixed_identifier_is_accepted() {
    let f = parse_filter("_a, __p0").unwrap();
    assert!(f.contains(&"_a".to_string()));
    assert!(f.contains(&"__p0".to_string()));
}

#[test]
fn digits_may_continue_an_identifier() {
    let f = parse_filter("a1b2").unwrap();
    assert!(f.contains(&"a1b2".to_string()));
}

#[test]
fn decimal_rendering_is_exact() {
    assert_eq!(dec_string(0), "0");
    assert_eq!(dec_string(7), "7");
    assert_eq!(dec_string(10), "10");
    assert_eq!(dec_string(123), "123");
    assert_eq!(dec_string(18446744073709551615), "18446744073709551615");
}

#[test]
fn synthesized_names_follow_positional_index() {
    assert_eq!(synth_name(0), "__p0");
    assert_eq!(synth_name(12), "__p12");
}
