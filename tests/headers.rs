use minicurl::{construct_header_map, parse_headers, HeaderError};

fn pairs(v: &[(&str, &str)]) -> Vec<(String, String)> {
    v.iter().map(|(n, x)| (n.to_string(), x.to_string())).collect()
}

#[test]
fn parse_two_pairs_trimmed() {
    let r = parse_headers("A: 1, B: 2");
    assert_eq!(r, Ok(pairs(&[("A", "1"), ("B", "2")])));
}

#[test]
fn parse_empty_spec_gives_no_pairs() {
    assert_eq!(parse_headers(""), Ok(Vec::new()));
}

#[test]
fn parse_without_colon_is_malformed() {
    assert_eq!(parse_headers("A1"), Err(HeaderError::MalformedHeaderSpec));
}

#[test]
fn parse_splits_at_first_colon_only() {
    let r = parse_headers("Referer: http://example.com:8080/a, X: y");
    assert_eq!(
        r,
        Ok(pairs(&[("Referer", "http://example.com:8080/a"), ("X", "y")]))
    );
}

#[test]
fn parse_whitespace_only_segment_is_malformed() {
    assert_eq!(parse_headers("A: 1, , B: 2"), Err(HeaderError::MalformedHeaderSpec));
    assert_eq!(parse_headers("   "), Err(HeaderError::MalformedHeaderSpec));
}

#[test]
fn parse_trailing_comma_is_malformed() {
    assert_eq!(parse_headers("A: 1,"), Err(HeaderError::MalformedHeaderSpec));
}

#[test]
fn parse_empty_name_or_value_is_malformed() {
    assert_eq!(parse_headers(": x"), Err(HeaderError::MalformedHeaderSpec));
    assert_eq!(parse_headers("A:"), Err(HeaderError::MalformedHeaderSpec));
    assert_eq!(parse_headers("A:   , B: 2"), Err(HeaderError::MalformedHeaderSpec));
}

#[test]
fn parse_trims_unicode_whitespace() {
    let r = parse_headers("\u{3000}A\t:\u{a0}v w\u{2003}");
    assert_eq!(r, Ok(pairs(&[("A", "v w")])));
}

#[test]
fn build_last_occurrence_wins() {
    let ps = parse_headers("A: 1, B: 2, A: 3").unwrap();
    let m = construct_header_map(ps).unwrap();
    assert_eq!(m.len(), 2);
    assert_eq!(m.get("a").unwrap().to_str().unwrap(), "3");
    assert_eq!(m.get("b").unwrap().to_str().unwrap(), "2");
}

#[test]
fn build_names_ignore_ascii_case() {
    let ps = parse_headers("X-Token: one, x-token: two").unwrap();
    let m = construct_header_map(ps).unwrap();
    assert_eq!(m.len(), 1);
    assert_eq!(m.get("x-token").unwrap().to_str().unwrap(), "two");
    let names: Vec<&str> = m.keys().map(|k| k.as_str()).collect();
    assert_eq!(names, vec!["x-token"]);
}

#[test]
fn build_rejects_name_with_space() {
    let r = construct_header_map(pairs(&[("Bad Name", "1")]));
    assert_eq!(r.unwrap_err(), HeaderError::InvalidHeaderName);
}

#[test]
fn build_rejects_name_with_colon() {
    let r = construct_header_map(pairs(&[("A", "1"), ("B:C", "2")]));
    assert_eq!(r.unwrap_err(), HeaderError::InvalidHeaderName);
}

#[test]
fn build_rejects_value_with_control_character() {
    let r = construct_header_map(pairs(&[("A", "x\u{1}y")]));
    assert_eq!(r.unwrap_err(), HeaderError::InvalidHeaderValue);
}

#[test]
fn build_accepts_tab_and_non_ascii_in_value() {
    let m = construct_header_map(pairs(&[("A", "x\ty"), ("B", "caf\u{e9}")])).unwrap();
    assert_eq!(m.get("a").unwrap().as_bytes(), b"x\ty");
    assert_eq!(m.get("b").unwrap().as_bytes(), "caf\u{e9}".as_bytes());
}

#[test]
fn build_first_invalid_pair_decides_error() {
    let r = construct_header_map(pairs(&[("A", "\u{7f}"), ("B C", "1")]));
    assert_eq!(r.unwrap_err(), HeaderError::InvalidHeaderValue);
    let r = construct_header_map(pairs(&[("B C", "1"), ("A", "\u{7f}")]));
    assert_eq!(r.unwrap_err(), HeaderError::InvalidHeaderName);
}

#[test]
fn build_empty_gives_empty_map() {
    let m = construct_header_map(Vec::new()).unwrap();
    assert!(m.is_empty());
}

#[test]
fn round_trip_keeps_last_value_per_name_in_any_order() {
    let m1 = construct_header_map(parse_headers("Accept: text/plain, X-Id: 7, Accept: */*").unwrap())
        .unwrap();
    let m2 = construct_header_map(parse_headers("X-Id: 7, Accept: text/plain, Accept: */*").unwrap())
        .unwrap();
    for m in [&m1, &m2] {
        assert_eq!(m.len(), 2);
        assert_eq!(m.get("accept").unwrap().to_str().unwrap(), "*/*");
        assert_eq!(m.get("x-id").unwrap().to_str().unwrap(), "7");
    }
    assert_eq!(m1, m2);
}

#[test]
fn error_messages() {
    assert_eq!(HeaderError::MalformedHeaderSpec.message(), "malformed header specification");
    assert_eq!(HeaderError::InvalidHeaderName.message(), "invalid header name");
    assert_eq!(HeaderError::InvalidHeaderValue.message(), "invalid header value");
    assert_eq!(HeaderError::TooManyHeaders.message(), "too many headers");
}

#[test]
fn build_value_newline_rejected_tab_accepted() {
    let r = construct_header_map(pairs(&[("A", "x\ny")]));
    assert_eq!(r.unwrap_err(), HeaderError::InvalidHeaderValue);
    let m = construct_header_map(pairs(&[("X-T", "a\tb")])).unwrap();
    assert_eq!(m.get("x-t").unwrap().as_bytes(), b"a\tb");
}
