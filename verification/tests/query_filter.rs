use rusticsearch::{
    parse_filter, parse_query, Document, Filter, Json, Query, QuerySyntaxError,
};

fn obj(members: Vec<(&str, Json)>) -> Json {
    Json::Object(members.into_iter().map(|(k, v)| (k.to_string(), v)).collect())
}

fn s(text: &str) -> Json {
    Json::String(text.to_string())
}

#[test]
fn test_parse_match_query_with_field() {
    let json = obj(vec![("match", obj(vec![("field", s("title")), ("query", s("foo"))]))]);
    match parse_query(&json) {
        Ok(Query::Match { field, query }) => {
            assert_eq!(field, "title");
            assert_eq!(query, "foo");
        }
        other => panic!("expected a match query, got {:?}", other),
    }
}

#[test]
fn test_parse_match_query_defaults_to_all_field() {
    let json = obj(vec![("match", obj(vec![("query", s("foo"))]))]);
    match parse_query(&json) {
        Ok(Query::Match { field, query }) => {
            assert_eq!(field, "_all");
            assert_eq!(query, "foo");
        }
        other => panic!("expected a match query, got {:?}", other),
    }
}

#[test]
fn test_parse_unknown_query_type() {
    let json = obj(vec![("bogus", obj(vec![]))]);
    match parse_query(&json) {
        Err(QuerySyntaxError::UnknownQueryType(name)) => assert_eq!(name, "bogus"),
        other => panic!("expected UnknownQueryType, got {:?}", other),
    }
}

#[test]
fn test_parse_query_errors() {
    assert!(matches!(parse_query(&Json::U64(3)), Err(QuerySyntaxError::ExpectedObject)));
    assert!(matches!(parse_query(&obj(vec![])), Err(QuerySyntaxError::NoQuery)));
    assert!(matches!(
        parse_query(&obj(vec![("match", obj(vec![]))])),
        Err(QuerySyntaxError::MissingQueryString)
    ));
    assert!(matches!(
        parse_query(&obj(vec![("match", obj(vec![("field", Json::U64(1)), ("query", s("q"))]))])),
        Err(QuerySyntaxError::ExpectedString)
    ));
}

#[test]
fn test_parse_multi_match_query() {
    let json = obj(vec![(
        "multi_match",
        obj(vec![
            ("fields", Json::Array(vec![s("title"), s("body")])),
            ("query", s("foo")),
        ]),
    )]);
    match parse_query(&json) {
        Ok(Query::MultiMatch { fields, query }) => {
            assert_eq!(fields, vec!["title".to_string(), "body".to_string()]);
            assert_eq!(query, "foo");
        }
        other => panic!("expected a multi_match query, got {:?}", other),
    }
}

#[test]
fn test_parse_multi_match_query_errors() {
    assert!(matches!(
        parse_query(&obj(vec![("multi_match", obj(vec![("query", s("q"))]))])),
        Err(QuerySyntaxError::MultiMatchMissingFields)
    ));
    assert!(matches!(
        parse_query(&obj(vec![(
            "multi_match",
            obj(vec![("fields", s("title")), ("query", s("q"))])
        )])),
        Err(QuerySyntaxError::ExpectedArray)
    ));
    assert!(matches!(
        parse_query(&obj(vec![(
            "multi_match",
            obj(vec![("fields", Json::Array(vec![Json::U64(1)])), ("query", s("q"))])
        )])),
        Err(QuerySyntaxError::ExpectedString)
    ));
    assert!(matches!(
        parse_query(&obj(vec![(
            "multi_match",
            obj(vec![("fields", Json::Array(vec![])), ("query", s("q"))])
        )])),
        Err(QuerySyntaxError::MultiMatchMissingFields)
    ));
}

#[test]
fn test_parse_filtered_query() {
    let json = obj(vec![(
        "filtered",
        obj(vec![
            ("filter", obj(vec![("term", obj(vec![("status", s("open"))]))])),
            ("query", obj(vec![("match", obj(vec![("query", s("foo"))]))])),
        ]),
    )]);
    match parse_query(&json) {
        Ok(Query::Filtered { query, filter }) => {
            assert!(matches!(*query, Query::Match { .. }));
            assert!(matches!(*filter, Filter::Term(ref f, _) if f == "status"));
        }
        other => panic!("expected a filtered query, got {:?}", other),
    }
}

#[test]
fn test_parse_filtered_query_errors() {
    assert!(matches!(
        parse_query(&obj(vec![("filtered", obj(vec![(
            "query",
            obj(vec![("match", obj(vec![("query", s("q"))]))])
        )]))])),
        Err(QuerySyntaxError::FilteredNoFilter)
    ));
    assert!(matches!(
        parse_query(&obj(vec![("filtered", obj(vec![(
            "filter",
            obj(vec![("term", obj(vec![("a", s("b"))]))])
        )]))])),
        Err(QuerySyntaxError::FilteredNoQuery)
    ));
}

#[test]
fn test_parse_unknown_filter_becomes_sentinel() {
    // An unrecognised filter name does not error: it parses to the
    // never-matching sentinel term filter.
    match parse_filter(&obj(vec![("geo_distance", obj(vec![]))])) {
        Ok(Filter::Term(field, value)) => {
            assert_eq!(field, "not");
            assert!(matches!(value, Json::String(ref v) if v == "implemented"));
        }
        other => panic!("expected the sentinel filter, got {:?}", other),
    }
}

#[test]
fn test_sentinel_filter_never_matches() {
    let filter = parse_filter(&obj(vec![("geo_distance", obj(vec![]))])).unwrap();
    let doc = Document { data: obj(vec![("not", s("implemented2"))]) };
    assert!(!filter.matches(&doc));
}

#[test]
fn test_term_filter_matches_exact_value() {
    let filter = parse_filter(&obj(vec![("term", obj(vec![("status", s("open"))]))])).unwrap();
    let open_doc = Document { data: obj(vec![("status", s("open"))]) };
    let closed_doc = Document { data: obj(vec![("status", s("closed"))]) };
    let missing_doc = Document { data: obj(vec![("other", s("open"))]) };
    assert!(filter.matches(&open_doc));
    assert!(!filter.matches(&closed_doc));
    assert!(!filter.matches(&missing_doc));
}

#[test]
fn test_and_filter_matches_only_when_all_match() {
    let filter = parse_filter(&obj(vec![(
        "and",
        Json::Array(vec![
            obj(vec![("term", obj(vec![("a", Json::U64(1))]))]),
            obj(vec![("term", obj(vec![("b", Json::U64(2))]))]),
        ]),
    )]))
    .unwrap();
    let both = Document { data: obj(vec![("a", Json::U64(1)), ("b", Json::U64(2))]) };
    let first_only = Document { data: obj(vec![("a", Json::U64(1)), ("b", Json::U64(3))]) };
    let second_only = Document { data: obj(vec![("a", Json::U64(9)), ("b", Json::U64(2))]) };
    assert!(filter.matches(&both));
    assert!(!filter.matches(&first_only));
    assert!(!filter.matches(&second_only));
}

#[test]
fn test_or_filter_matches_when_any_matches() {
    let filter = parse_filter(&obj(vec![(
        "or",
        Json::Array(vec![
            obj(vec![("term", obj(vec![("a", Json::U64(1))]))]),
            obj(vec![("term", obj(vec![("b", Json::U64(2))]))]),
        ]),
    )]))
    .unwrap();
    let first = Document { data: obj(vec![("a", Json::U64(1))]) };
    let neither = Document { data: obj(vec![("a", Json::U64(2)), ("b", Json::U64(1))]) };
    assert!(filter.matches(&first));
    assert!(!filter.matches(&neither));
}

#[test]
fn test_not_filter_inverts_inner_filter() {
    let filter =
        parse_filter(&obj(vec![("not", obj(vec![("term", obj(vec![("a", Json::U64(1))]))]))]))
            .unwrap();
    let matching = Document { data: obj(vec![("a", Json::U64(1))]) };
    let not_matching = Document { data: obj(vec![("a", Json::U64(2))]) };
    assert!(!filter.matches(&matching));
    assert!(filter.matches(&not_matching));
}

#[test]
fn test_prefix_filter() {
    let filter =
        parse_filter(&obj(vec![("prefix", obj(vec![("title", s("hel"))]))])).unwrap();
    let yes = Document { data: obj(vec![("title", s("hello world"))]) };
    let no = Document { data: obj(vec![("title", s("goodbye"))]) };
    let not_a_string = Document { data: obj(vec![("title", Json::U64(1))]) };
    assert!(filter.matches(&yes));
    assert!(!filter.matches(&no));
    assert!(!filter.matches(&not_a_string));
}

#[test]
fn test_filter_on_non_object_document_never_matches() {
    let filter = parse_filter(&obj(vec![("term", obj(vec![("a", Json::U64(1))]))])).unwrap();
    let doc = Document { data: Json::U64(1) };
    assert!(!filter.matches(&doc));
}

#[test]
fn test_parse_filter_errors() {
    assert!(matches!(parse_filter(&Json::U64(1)), Err(QuerySyntaxError::ExpectedObject)));
    assert!(matches!(
        parse_filter(&obj(vec![("term", s("oops"))])),
        Err(QuerySyntaxError::ExpectedObject)
    ));
    assert!(matches!(
        parse_filter(&obj(vec![("prefix", obj(vec![("title", Json::U64(1))]))])),
        Err(QuerySyntaxError::ExpectedString)
    ));
    assert!(matches!(
        parse_filter(&obj(vec![("and", s("oops"))])),
        Err(QuerySyntaxError::ExpectedArray)
    ));
}

#[test]
fn test_duplicate_field_names_resolve_to_first() {
    let filter = parse_filter(&obj(vec![("term", obj(vec![("a", Json::U64(1))]))])).unwrap();
    let doc = Document { data: obj(vec![("a", Json::U64(1)), ("a", Json::U64(2))]) };
    let doc_reversed = Document { data: obj(vec![("a", Json::U64(2)), ("a", Json::U64(1))]) };
    assert!(filter.matches(&doc));
    assert!(!filter.matches(&doc_reversed));
}
