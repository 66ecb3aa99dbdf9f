use qlog_filter::{
    convert_value_and_get, float_bits_eq, get_item, header, parse_u64, split_on, Filter,
    FilterError, Json, JsonNumber, Literal, Pattern,
};

fn uint(n: u64) -> Json {
    Json::Number(JsonNumber {
        unsigned: Some(n),
        float_bits: (n as f64).to_bits(),
    })
}

fn float(f: f64) -> Json {
    Json::Number(JsonNumber {
        unsigned: None,
        float_bits: f.to_bits(),
    })
}

fn text(s: &str) -> Json {
    Json::Str(s.to_string())
}

fn obj(entries: Vec<(&str, Json)>) -> Json {
    Json::Object(entries.into_iter().map(|(k, v)| (k.to_string(), v)).collect())
}

fn filter_of(s: &str) -> Filter {
    let last = split_on(s, '/').pop().unwrap();
    let bits = last.parse::<f64>().ok().map(f64::to_bits);
    Filter::parse(s, bits).unwrap()
}

fn segs(p: &Pattern) -> Vec<&str> {
    p.0.iter().map(|s| s.as_str()).collect()
}

#[test]
fn path_parse_splits_on_slash() {
    assert_eq!(segs(&Pattern::parse("a/b")), vec!["a", "b"]);
    assert_eq!(segs(&Pattern::parse("abc")), vec!["abc"]);
    assert_eq!(segs(&Pattern::parse("a//b")), vec!["a", "", "b"]);
    assert_eq!(segs(&Pattern::parse("/a/")), vec!["", "a", ""]);
}

#[test]
fn path_parse_of_empty_string_has_one_segment() {
    assert_eq!(segs(&Pattern::parse("")), vec![""]);
}

#[test]
fn filter_parse_splits_path_and_literal() {
    let f = Filter::parse("a/b/5", None).unwrap();
    assert_eq!(segs(&f.pattern), vec!["a", "b"]);
    assert_eq!(f.value, Literal::Int(5));
}

#[test]
fn filter_parse_without_slash_has_empty_path() {
    let f = Filter::parse("7", None).unwrap();
    assert!(f.pattern.0.is_empty());
    assert_eq!(f.value, Literal::Int(7));
    assert!(f.filter(&uint(7)));
    assert!(!f.filter(&obj(vec![("a", uint(7))])));
}

#[test]
fn filter_parse_of_empty_string_succeeds() {
    let r: Result<Filter, FilterError> = Filter::parse("", None);
    let f = r.unwrap();
    assert!(f.pattern.0.is_empty());
    assert_eq!(f.value, Literal::Str(String::new()));
}

#[test]
fn literal_prefers_integer_then_float_then_text() {
    assert_eq!(Literal::from_token("10", Some(10.0f64.to_bits())), Literal::Int(10));
    assert_eq!(
        Literal::from_token("1.5", Some(1.5f64.to_bits())),
        Literal::Float(1.5f64.to_bits())
    );
    assert_eq!(Literal::from_token("abc", None), Literal::Str("abc".to_string()));
}

#[test]
fn literal_integer_takes_no_sign() {
    assert_eq!(parse_u64("+5"), None);
    assert_eq!(parse_u64("-5"), None);
    assert_eq!(
        Literal::from_token("+5", Some(5.0f64.to_bits())),
        Literal::Float(5.0f64.to_bits())
    );
}

#[test]
fn parse_u64_edges() {
    assert_eq!(parse_u64("0"), Some(0));
    assert_eq!(parse_u64("007"), Some(7));
    assert_eq!(parse_u64(""), None);
    assert_eq!(parse_u64("12a"), None);
    assert_eq!(parse_u64("18446744073709551615"), Some(u64::MAX));
    assert_eq!(parse_u64("18446744073709551616"), None);
}

#[test]
fn float_equality_follows_ieee() {
    let nan = f64::NAN.to_bits();
    assert!(!float_bits_eq(nan, nan));
    assert!(float_bits_eq(0.0f64.to_bits(), (-0.0f64).to_bits()));
    assert!(float_bits_eq(1.0f64.to_bits(), 1.0f64.to_bits()));
    assert!(!float_bits_eq(1.0f64.to_bits(), 2.0f64.to_bits()));
    assert!(float_bits_eq(f64::INFINITY.to_bits(), f64::INFINITY.to_bits()));
}

#[test]
fn resolver_follows_nested_objects() {
    let v = obj(vec![("a", obj(vec![("b", uint(5))]))]);
    let p = Pattern::parse("a/b");
    assert_eq!(p.resolve(&v), Some(&uint(5)));
}

#[test]
fn resolver_takes_first_array_match() {
    let v = obj(vec![(
        "a",
        Json::Array(vec![obj(vec![("b", uint(1))]), obj(vec![("b", uint(2))])]),
    )]);
    let p = Pattern::parse("a/b");
    assert_eq!(p.resolve(&v), Some(&uint(1)));
}

#[test]
fn resolver_skips_array_elements_without_match() {
    let v = Json::Array(vec![uint(3), obj(vec![("c", uint(1))]), obj(vec![("b", uint(2))])]);
    assert_eq!(convert_value_and_get(&v, "b"), Some(&uint(2)));
}

#[test]
fn resolver_missing_key_yields_nothing() {
    let v = obj(vec![("a", obj(vec![("b", uint(5))]))]);
    let p = Pattern::parse("a/c");
    assert_eq!(p.resolve(&v), None);
}

#[test]
fn step_on_scalar_yields_nothing() {
    assert_eq!(convert_value_and_get(&uint(1), "a"), None);
    assert_eq!(convert_value_and_get(&text("a"), "a"), None);
    assert_eq!(convert_value_and_get(&Json::Null, "a"), None);
}

#[test]
fn filter_is_type_exact() {
    let f = filter_of("a/b/5");
    assert!(f.filter(&obj(vec![("a", obj(vec![("b", uint(5))]))])));
    assert!(!f.filter(&obj(vec![("a", obj(vec![("b", uint(6))]))])));
    assert!(!f.filter(&obj(vec![("a", obj(vec![("b", text("5"))]))])));
}

#[test]
fn filter_on_float_and_text() {
    let f = filter_of("a/1.5");
    assert!(f.filter(&obj(vec![("a", float(1.5))])));
    assert!(!f.filter(&obj(vec![("a", text("1.5"))])));
    let g = filter_of("a/quic");
    assert!(g.filter(&obj(vec![("a", text("quic"))])));
    assert!(!g.filter(&obj(vec![("a", text("tcp"))])));
}

#[test]
fn filter_on_missing_path_is_false() {
    let f = filter_of("x/1");
    assert!(!f.filter(&obj(vec![("a", uint(1))])));
}

#[test]
fn record_without_numeric_time_is_dropped() {
    let pats = vec![Pattern::parse("a")];
    let no_time = obj(vec![("a", uint(1))]);
    assert!(get_item(&no_time, &pats, None).is_none());
    let text_time = obj(vec![("time", text("1")), ("a", uint(1))]);
    assert!(get_item(&text_time, &pats, None).is_none());
    let not_object = Json::Array(vec![obj(vec![("time", float(1.0)), ("a", uint(1))])]);
    assert!(get_item(&not_object, &pats, None).is_none());
    assert!(get_item(&no_time, &[], None).is_none());
}

#[test]
fn record_dropped_when_one_path_fails() {
    let v = obj(vec![("time", float(1.0)), ("a", uint(1))]);
    let pats = vec![Pattern::parse("a"), Pattern::parse("b")];
    assert!(get_item(&v, &pats, None).is_none());
    let one = vec![Pattern::parse("a")];
    let row = get_item(&v, &one, None).unwrap();
    assert_eq!(row.0, 1.0f64.to_bits());
    assert_eq!(row.1, vec![&uint(1)]);
}

#[test]
fn record_with_integer_time() {
    let v = obj(vec![("time", uint(3)), ("a", uint(1))]);
    let row = get_item(&v, &[Pattern::parse("a")], None).unwrap();
    assert_eq!(f64::from_bits(row.0), 3.0);
}

#[test]
fn record_needs_every_filter() {
    let v = obj(vec![("time", float(1.0)), ("a", uint(1)), ("b", text("x"))]);
    let pats = vec![Pattern::parse("a")];
    let both = vec![filter_of("a/1"), filter_of("b/x")];
    assert!(get_item(&v, &pats, Some(&both)).is_some());
    let one_fails = vec![filter_of("a/1"), filter_of("b/y")];
    assert!(get_item(&v, &pats, Some(&one_fails)).is_none());
    assert!(get_item(&v, &pats, Some(&[])).is_some());
}

fn stream() -> Vec<Json> {
    vec![
        obj(vec![("x", uint(1))]),
        obj(vec![("time", float(1.0)), ("a", obj(vec![("b", uint(7))]))]),
        obj(vec![("time", float(2.0)), ("a", obj(vec![("b", uint(8))]))]),
    ]
}

#[test]
fn end_to_end_without_filter() {
    let records = stream();
    let pats = vec![Pattern::parse("a/b")];
    let rows: Vec<(u64, Vec<&Json>)> =
        records.iter().filter_map(|r| get_item(r, &pats, None)).collect();
    assert_eq!(rows.len(), 2);
    assert_eq!(rows[0].0, 1.0f64.to_bits());
    assert_eq!(rows[0].1, vec![&uint(7)]);
    assert_eq!(rows[1].0, 2.0f64.to_bits());
    assert_eq!(rows[1].1, vec![&uint(8)]);
}

#[test]
fn end_to_end_with_filter() {
    let records = stream();
    let pats = vec![Pattern::parse("a/b")];
    let filters = vec![filter_of("a/b/8")];
    let rows: Vec<(u64, Vec<&Json>)> =
        records.iter().filter_map(|r| get_item(r, &pats, Some(&filters))).collect();
    assert_eq!(rows.len(), 1);
    assert_eq!(rows[0].0, 2.0f64.to_bits());
    assert_eq!(rows[0].1, vec![&uint(8)]);
}

#[test]
fn header_uses_last_segments() {
    let pats = vec![Pattern::parse("a/b"), Pattern::parse("c/d/e")];
    assert_eq!(header(&pats), vec!["time", "b", "e"]);
}

#[test]
fn header_of_empty_path_is_empty_label() {
    let pats = vec![Pattern(Vec::new())];
    assert_eq!(header(&pats), vec!["time", ""]);
}
