use movie_store::json::movie_to_json;
use movie_store::parse::parse_movie;
use movie_store::record::Movie;

fn movie(id: &str, name: &str, year: u16, was_good: bool) -> Movie {
    Movie { id: String::from(id), name: String::from(name), year, was_good }
}

#[test]
fn encode_exact_output() {
    let m = movie("m1", "Inception", 2010, true);
    assert_eq!(
        movie_to_json(&m),
        "{\"id\":\"m1\",\"name\":\"Inception\",\"year\":2010,\"was_good\":true}"
    );
}

#[test]
fn encode_false_and_small_year() {
    let m = movie("x", "Y", 0, false);
    assert_eq!(movie_to_json(&m), "{\"id\":\"x\",\"name\":\"Y\",\"year\":0,\"was_good\":false}");
}

#[test]
fn encode_escapes() {
    let m = movie("a\"b", "c\\d\ne\tf", 65535, true);
    assert_eq!(
        movie_to_json(&m),
        "{\"id\":\"a\\\"b\",\"name\":\"c\\\\d\\ne\\tf\",\"year\":65535,\"was_good\":true}"
    );
}

#[test]
fn encode_control_character() {
    let m = movie("a\u{1}b", "n", 1, true);
    assert_eq!(
        movie_to_json(&m),
        "{\"id\":\"a\\u0001b\",\"name\":\"n\",\"year\":1,\"was_good\":true}"
    );
}

#[test]
fn parse_canonical() {
    let m = parse_movie("{\"id\":\"m1\",\"name\":\"Inception\",\"year\":2010,\"was_good\":true}")
        .expect("well-formed record should parse");
    assert!(m == movie("m1", "Inception", 2010, true));
}

#[test]
fn parse_field_order_permuted() {
    let m = parse_movie("{\"was_good\":false,\"year\":1998,\"id\":\"m5\",\"name\":\"Following\"}")
        .expect("field order should not matter");
    assert!(m == movie("m5", "Following", 1998, false));
}

#[test]
fn parse_with_whitespace() {
    let m = parse_movie(
        " {\n \"id\" : \"m1\" ,\t\"name\": \"Inception\", \"year\" :\t2010 , \"was_good\" : true }\n",
    )
    .expect("whitespace between tokens should be accepted");
    assert!(m == movie("m1", "Inception", 2010, true));
}

#[test]
fn parse_escapes() {
    let m = parse_movie(
        "{\"id\":\"a\\\"b\",\"name\":\"c\\\\d\\ne\\tf\\/g\\bh\\fi\\rj\",\"year\":3,\"was_good\":true}",
    )
    .expect("recognised escapes should be accepted");
    assert_eq!(m.id, "a\"b");
    assert_eq!(m.name, "c\\d\ne\tf/g\u{8}h\u{c}i\rj");
}

#[test]
fn parse_missing_year_rejected() {
    assert!(parse_movie("{\"id\":\"m1\",\"name\":\"Inception\",\"was_good\":true}").is_none());
}

#[test]
fn parse_missing_other_fields_rejected() {
    assert!(parse_movie("{\"name\":\"Inception\",\"year\":2010,\"was_good\":true}").is_none());
    assert!(parse_movie("{\"id\":\"m1\",\"year\":2010,\"was_good\":true}").is_none());
    assert!(parse_movie("{\"id\":\"m1\",\"name\":\"Inception\",\"year\":2010}").is_none());
    assert!(parse_movie("{}").is_none());
}

#[test]
fn parse_unknown_field_rejected() {
    assert!(parse_movie(
        "{\"id\":\"m1\",\"name\":\"Inception\",\"year\":2010,\"was_good\":true,\"rating\":5}"
    )
    .is_none());
}

#[test]
fn parse_duplicate_field_rejected() {
    assert!(parse_movie(
        "{\"id\":\"m1\",\"id\":\"m2\",\"name\":\"Inception\",\"year\":2010,\"was_good\":true}"
    )
    .is_none());
}

#[test]
fn parse_year_bounds() {
    let m = parse_movie("{\"id\":\"m\",\"name\":\"n\",\"year\":65535,\"was_good\":false}")
        .expect("largest year should parse");
    assert_eq!(m.year, 65535);
    assert!(
        parse_movie("{\"id\":\"m\",\"name\":\"n\",\"year\":65536,\"was_good\":false}").is_none()
    );
    assert!(
        parse_movie("{\"id\":\"m\",\"name\":\"n\",\"year\":70000,\"was_good\":false}").is_none()
    );
}

#[test]
fn parse_year_zero_and_leading_zero() {
    let m = parse_movie("{\"id\":\"m\",\"name\":\"n\",\"year\":0,\"was_good\":true}")
        .expect("year zero should parse");
    assert_eq!(m.year, 0);
    assert!(
        parse_movie("{\"id\":\"m\",\"name\":\"n\",\"year\":0123,\"was_good\":true}").is_none()
    );
    assert!(
        parse_movie("{\"id\":\"m\",\"name\":\"n\",\"year\":-1,\"was_good\":true}").is_none()
    );
}

#[test]
fn parse_wrong_types_rejected() {
    assert!(
        parse_movie("{\"id\":7,\"name\":\"n\",\"year\":2010,\"was_good\":true}").is_none()
    );
    assert!(
        parse_movie("{\"id\":\"m\",\"name\":\"n\",\"year\":\"2010\",\"was_good\":true}").is_none()
    );
    assert!(
        parse_movie("{\"id\":\"m\",\"name\":\"n\",\"year\":2010,\"was_good\":1}").is_none()
    );
}

#[test]
fn parse_malformed_shapes_rejected() {
    assert!(parse_movie("").is_none());
    assert!(parse_movie("   ").is_none());
    assert!(parse_movie("null").is_none());
    assert!(parse_movie("[1,2]").is_none());
    assert!(parse_movie("{\"id\":\"m\",\"name\":\"n\",\"year\":2010,\"was_good\":true").is_none());
    assert!(
        parse_movie("{\"id\":\"m\",\"name\":\"n\",\"year\":2010,\"was_good\":true}}").is_none()
    );
    assert!(
        parse_movie("{\"id\":\"m\",\"name\":\"n\",\"year\":2010,\"was_good\":true} x").is_none()
    );
    assert!(
        parse_movie("{\"id\":\"m\" \"name\":\"n\",\"year\":2010,\"was_good\":true}").is_none()
    );
    assert!(
        parse_movie("{\"id\":\"m\",\"name\":\"n\",\"year\":2010,\"was_good\":true,}").is_none()
    );
}

#[test]
fn parse_hex_escapes() {
    let m = parse_movie("{\"id\":\"a\\u0001b\\u0041\",\"name\":\"\\u00ff\",\"year\":1,\"was_good\":true}")
        .expect("two-digit hex escapes should be accepted");
    assert_eq!(m.id, "a\u{1}bA");
    assert_eq!(m.name, "\u{ff}");
    assert!(
        parse_movie("{\"id\":\"\\u0394\",\"name\":\"n\",\"year\":1,\"was_good\":true}").is_none()
    );
    assert!(
        parse_movie("{\"id\":\"\\u00g1\",\"name\":\"n\",\"year\":1,\"was_good\":true}").is_none()
    );
    assert!(
        parse_movie("{\"id\":\"\\u00\",\"name\":\"n\",\"year\":1,\"was_good\":true}").is_none()
    );
}

#[test]
fn parse_unknown_escape_and_raw_control_rejected() {
    assert!(
        parse_movie("{\"id\":\"a\\qb\",\"name\":\"n\",\"year\":1,\"was_good\":true}").is_none()
    );
    assert!(
        parse_movie("{\"id\":\"a\u{1}b\",\"name\":\"n\",\"year\":1,\"was_good\":true}").is_none()
    );
}

#[test]
fn round_trip_encode_parse() {
    let samples = [
        movie("m1", "Inception", 2010, true),
        movie("", "", 0, false),
        movie("a\"b\\c", "line\nbreak\ttab", 65535, true),
        movie("caf\u{e9}", "\u{1}\u{1f}control", 1, false),
    ];
    for m in samples.iter() {
        let text = movie_to_json(m);
        let back = parse_movie(&text).expect("encoded record should parse back");
        assert!(back == *m);
    }
}
