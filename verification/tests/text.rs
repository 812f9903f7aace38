use social_credit::text::chars_of;
use social_credit::text::i32_to_string;
use social_credit::text::i64_to_string;
use social_credit::text::parse_i32;
use social_credit::text::string_from_chars;
use social_credit::user_util::extract_userdata_from_string;

#[test]
fn parse_plain_number() {
    assert_eq!(parse_i32(&chars_of("25")), Some(25));
}

#[test]
fn parse_negative_number() {
    assert_eq!(parse_i32(&chars_of("-25")), Some(-25));
}

#[test]
fn parse_plus_sign() {
    assert_eq!(parse_i32(&chars_of("+7")), Some(7));
}

#[test]
fn parse_extremes() {
    assert_eq!(parse_i32(&chars_of("2147483647")), Some(i32::MAX));
    assert_eq!(parse_i32(&chars_of("-2147483648")), Some(i32::MIN));
}

#[test]
fn parse_overflow_rejected() {
    assert_eq!(parse_i32(&chars_of("2147483648")), None);
    assert_eq!(parse_i32(&chars_of("-2147483649")), None);
    assert_eq!(parse_i32(&chars_of("99999999999999999999")), None);
}

#[test]
fn parse_garbage_rejected() {
    assert_eq!(parse_i32(&chars_of("")), None);
    assert_eq!(parse_i32(&chars_of("-")), None);
    assert_eq!(parse_i32(&chars_of("+")), None);
    assert_eq!(parse_i32(&chars_of("12x")), None);
    assert_eq!(parse_i32(&chars_of("--5")), None);
    assert_eq!(parse_i32(&chars_of(" 5")), None);
}

#[test]
fn render_integers() {
    assert_eq!(i32_to_string(0), "0");
    assert_eq!(i32_to_string(55), "55");
    assert_eq!(i32_to_string(-25), "-25");
    assert_eq!(i32_to_string(i32::MIN), "-2147483648");
    assert_eq!(i64_to_string(i64::MAX), "9223372036854775807");
    assert_eq!(i64_to_string(i64::MIN), "-9223372036854775808");
}

#[test]
fn chars_round_trip_with_emoji() {
    let s = "a \u{1f611} b";
    let v = chars_of(s);
    assert_eq!(v.len(), 5);
    assert_eq!(string_from_chars(&v), s);
}

#[test]
fn extracts_canonical_tag() {
    let r = extract_userdata_from_string("@alice:example.org");
    assert_eq!(r, Some(("alice".to_string(), "example.org".to_string())));
}

#[test]
fn extracts_tag_inside_text() {
    // the domain runs to the first quote or bracket, so a space does not
    // end it: everything after the colon belongs to the domain
    let r = extract_userdata_from_string("hello @bob:server.net more");
    assert_eq!(r, Some(("bob".to_string(), "server.net more".to_string())));
}

#[test]
fn rejects_tag_without_local_part() {
    assert_eq!(extract_userdata_from_string("@:example.org"), None);
    assert_eq!(extract_userdata_from_string("no tag here"), None);
    assert_eq!(extract_userdata_from_string("@nodomain"), None);
}

#[test]
fn domain_stops_at_quote() {
    let r = extract_userdata_from_string("@a:b\"c");
    assert_eq!(r, Some(("a".to_string(), "b".to_string())));
}
