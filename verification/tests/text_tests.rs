use clayout::ids::{uniq_id, IdGenerator};
use clayout::text::{
    bit2byte, consume_ident_chars, ident_part, is_ident_char, is_valid_ident, parse_typename,
    push_decimal, push_signed_decimal, ParseError,
};

fn strings(parts: &[&str]) -> Vec<String> {
    parts.iter().map(|p| p.to_string()).collect()
}

#[test]
fn bit2byte_rounds_up() {
    assert_eq!(bit2byte(0), 0);
    assert_eq!(bit2byte(1), 1);
    assert_eq!(bit2byte(7), 1);
    assert_eq!(bit2byte(8), 1);
    assert_eq!(bit2byte(9), 2);
    assert_eq!(bit2byte(64), 8);
    assert_eq!(bit2byte(72), 9);
}

#[test]
fn bit2byte_takes_the_largest_count() {
    assert_eq!(bit2byte(u64::MAX), 1u64 << 61);
    assert_eq!(bit2byte(u64::MAX - 7), (1u64 << 61) - 1);
}

#[test]
fn uniq_id_counts_from_zero() {
    let mut ids = IdGenerator::new();
    assert_eq!(uniq_id(&mut ids), 0);
    assert_eq!(uniq_id(&mut ids), 1);
    assert_eq!(uniq_id(&mut ids), 2);
    assert_eq!(ids.next, 3);
}

#[test]
fn uniq_id_wraps_around() {
    let mut ids = IdGenerator { next: u64::MAX };
    assert_eq!(uniq_id(&mut ids), u64::MAX);
    assert_eq!(uniq_id(&mut ids), 0);
}

#[test]
fn ident_chars_are_underscore_and_alphanumerics() {
    assert!(is_ident_char('_'));
    assert!(is_ident_char('a'));
    assert!(is_ident_char('Z'));
    assert!(is_ident_char('7'));
    assert!(is_ident_char('é'));
    assert!(!is_ident_char(':'));
    assert!(!is_ident_char('<'));
    assert!(!is_ident_char(' '));
    assert!(!is_ident_char('*'));
    assert!(!is_ident_char('-'));
}

#[test]
fn ident_part_stops_at_the_first_other_character() {
    assert_eq!(ident_part("vector<int>"), "vector");
    assert_eq!(ident_part("plain_name1"), "plain_name1");
    assert_eq!(ident_part(""), "");
    assert_eq!(ident_part("<lambda>"), "");
    assert_eq!(ident_part("Foo*"), "Foo");
    assert_eq!(ident_part("héllo wörld"), "héllo");
}

#[test]
fn valid_idents_hold_ident_chars_only() {
    assert!(is_valid_ident("a_b1"));
    assert!(is_valid_ident("_"));
    assert!(is_valid_ident(""));
    assert!(!is_valid_ident("a b"));
    assert!(!is_valid_ident("operator+"));
    assert!(!is_valid_ident("x:"));
}

#[test]
fn consume_ident_chars_returns_the_stop_character() {
    let mut out = String::from("pre");
    let mut input = "abc_1::rest".chars();
    assert_eq!(consume_ident_chars(&mut out, &mut input), Some(':'));
    assert_eq!(out, "preabc_1");
    assert_eq!(input.as_str(), ":rest");
}

#[test]
fn consume_ident_chars_reads_to_the_end() {
    let mut out = String::new();
    let mut input = "abc".chars();
    assert_eq!(consume_ident_chars(&mut out, &mut input), None);
    assert_eq!(out, "abc");
    assert_eq!(input.as_str(), "");
    assert_eq!(consume_ident_chars(&mut out, &mut input), None);
    assert_eq!(out, "abc");
}

#[test]
fn consume_ident_chars_may_read_nothing() {
    let mut out = String::new();
    let mut input = "<x".chars();
    assert_eq!(consume_ident_chars(&mut out, &mut input), Some('<'));
    assert_eq!(out, "");
    assert_eq!(input.as_str(), "x");
}

#[test]
fn parse_typename_splits_at_double_colons() {
    assert_eq!(
        parse_typename("namespace1::namespace2::TypeName"),
        Ok(strings(&["namespace1", "namespace2", "TypeName"]))
    );
    assert_eq!(parse_typename("TypeName"), Ok(strings(&["TypeName"])));
}

#[test]
fn parse_typename_splits_at_dots() {
    assert_eq!(parse_typename("ns1.ns2.T"), Ok(strings(&["ns1", "ns2", "T"])));
    assert_eq!(parse_typename("ns1::ns2.T"), Ok(strings(&["ns1", "ns2", "T"])));
    assert_eq!(parse_typename("ns1.ns2::T"), Ok(strings(&["ns1", "ns2", "T"])));
    assert_eq!(parse_typename(".a..b."), Ok(strings(&["a", "b"])));
    assert_eq!(parse_typename("a.::b"), Ok(strings(&["a", "b"])));
    assert_eq!(parse_typename("."), Ok(Vec::new()));
    assert_eq!(parse_typename("a.b<c.d>"), Ok(strings(&["a", "b<c.d>"])));
    assert_eq!(parse_typename("a.b c.d"), Ok(strings(&["a", "b c.d"])));
    assert_eq!(parse_typename("a.:b"), Err(ParseError::InvalidSymbol));
    assert_eq!(parse_typename("a.b:"), Err(ParseError::InvalidSymbol));
}

#[test]
fn parse_typename_keeps_template_arguments_whole() {
    assert_eq!(
        parse_typename(
            "::std::_Rb_tree_key_compare<std::less<niagara::TabletEventListener *> >"
        ),
        Ok(strings(&[
            "std",
            "_Rb_tree_key_compare<std::less<niagara::TabletEventListener *> >"
        ]))
    );
    assert_eq!(parse_typename("a::b c::d"), Ok(strings(&["a", "b c::d"])));
    assert_eq!(parse_typename("<x>"), Ok(strings(&["<x>"])));
}

#[test]
fn parse_typename_drops_empty_segments() {
    assert_eq!(parse_typename(""), Ok(Vec::new()));
    assert_eq!(parse_typename("::"), Ok(Vec::new()));
    assert_eq!(parse_typename("a::::b"), Ok(strings(&["a", "b"])));
    assert_eq!(parse_typename("a::"), Ok(strings(&["a"])));
    assert_eq!(parse_typename("::a"), Ok(strings(&["a"])));
}

#[test]
fn parse_typename_refuses_a_single_colon() {
    assert_eq!(parse_typename("a:b"), Err(ParseError::InvalidSymbol));
    assert_eq!(parse_typename("a:"), Err(ParseError::InvalidSymbol));
    assert_eq!(parse_typename(":"), Err(ParseError::InvalidSymbol));
    assert_eq!(parse_typename("a::b:c"), Err(ParseError::InvalidSymbol));
    assert_eq!(parse_typename("a:<b"), Err(ParseError::InvalidSymbol));
}

#[test]
fn push_decimal_writes_every_digit() {
    let mut out = String::from("n=");
    push_decimal(&mut out, 0);
    assert_eq!(out, "n=0");
    let mut out = String::new();
    push_decimal(&mut out, 1234567890);
    assert_eq!(out, "1234567890");
    let mut out = String::new();
    push_decimal(&mut out, u64::MAX);
    assert_eq!(out, "18446744073709551615");
    let mut out = String::new();
    push_decimal(&mut out, 10);
    assert_eq!(out, "10");
}

#[test]
fn push_signed_decimal_writes_the_sign() {
    let mut out = String::new();
    push_signed_decimal(&mut out, -1);
    assert_eq!(out, "-1");
    let mut out = String::new();
    push_signed_decimal(&mut out, 0);
    assert_eq!(out, "0");
    let mut out = String::new();
    push_signed_decimal(&mut out, i64::MIN);
    assert_eq!(out, "-9223372036854775808");
    let mut out = String::new();
    push_signed_decimal(&mut out, i64::MAX);
    assert_eq!(out, "9223372036854775807");
}
