use rusticsearch::{
    get_edgengram_analyzer, get_standard_analyzer, parse_boolean, DateTime, Edge, FieldMapping,
    FieldType, Json, Mapping, MappingRegistry, Number, Term, TokenizerSpec,
};

fn obj(members: Vec<(&str, Json)>) -> Json {
    Json::Object(members.into_iter().map(|(k, v)| (k.to_string(), v)).collect())
}

fn s(text: &str) -> Json {
    Json::String(text.to_string())
}

fn term_texts(tokens: &[rusticsearch::Token]) -> Vec<String> {
    tokens
        .iter()
        .map(|t| match &t.term {
            Term::String(text) => text.clone(),
            other => panic!("expected a string term, got {:?}", other),
        })
        .collect()
}

#[test]
fn test_boolean_coercion() {
    // "yes" -> true, "no" -> false, any other string -> false with the
    // recognised flag cleared as the diagnostic; a JSON boolean passes
    // through unchanged.
    assert_eq!(parse_boolean(&s("yes")), (true, true));
    assert_eq!(parse_boolean(&s("no")), (false, true));
    assert_eq!(parse_boolean(&s("maybe")), (false, false));
    assert_eq!(parse_boolean(&Json::Boolean(true)), (true, true));
    assert_eq!(parse_boolean(&Json::Boolean(false)), (false, true));
    assert_eq!(parse_boolean(&Json::U64(1)), (false, false));
}

#[test]
fn test_boolean_field_produces_single_token() {
    let mut mapping = FieldMapping::default();
    mapping.data_type = FieldType::Boolean;
    let tokens = mapping.process_value_for_index(s("yes")).unwrap();
    assert_eq!(tokens.len(), 1);
    assert_eq!(tokens[0].term, Term::Boolean(true));
    assert_eq!(tokens[0].position, 1);
    let tokens = mapping.process_value_for_index(s("nope")).unwrap();
    assert_eq!(tokens[0].term, Term::Boolean(false));
}

#[test]
fn test_integer_field() {
    let mut mapping = FieldMapping::default();
    mapping.data_type = FieldType::Integer;
    let tokens = mapping.process_value_for_index(Json::U64(7)).unwrap();
    assert_eq!(tokens.len(), 1);
    assert_eq!(tokens[0].term, Term::I64(7));
    assert_eq!(tokens[0].position, 1);
    let tokens = mapping.process_value_for_index(Json::I64(-7)).unwrap();
    assert_eq!(tokens[0].term, Term::I64(-7));
    assert_eq!(mapping.process_value_for_index(s("7")), None);
    assert_eq!(mapping.process_value_for_index(Json::Null), None);
}

#[test]
fn test_string_field_analyzes_text() {
    let mapping = FieldMapping::default();
    let tokens = mapping.process_value_for_index(s("Hello World")).unwrap();
    assert_eq!(term_texts(&tokens), vec!["hello".to_string(), "world".to_string()]);
    assert_eq!(tokens[0].position, 1);
    assert_eq!(tokens[1].position, 2);
}

#[test]
fn test_string_field_folds_accents() {
    let mapping = FieldMapping::default();
    let tokens = mapping.process_value_for_index(s("Café")).unwrap();
    assert_eq!(term_texts(&tokens), vec!["cafe".to_string()]);
}

#[test]
fn test_string_field_stringifies_numbers() {
    let mapping = FieldMapping::default();
    let tokens = mapping.process_value_for_index(Json::U64(123)).unwrap();
    assert_eq!(term_texts(&tokens), vec!["123".to_string()]);
    // The standard analyzer's word segmentation keeps only the digits of a
    // negative number's text.
    let tokens = mapping.process_value_for_index(Json::I64(-45)).unwrap();
    assert_eq!(term_texts(&tokens), vec!["45".to_string()]);
}

#[test]
fn test_string_field_joins_string_arrays() {
    let mapping = FieldMapping::default();
    let value = Json::Array(vec![s("one"), Json::Null, s("two")]);
    let tokens = mapping.process_value_for_index(value).unwrap();
    assert_eq!(term_texts(&tokens), vec!["one".to_string(), "two".to_string()]);
    // Any non-string, non-null element rejects the whole field.
    let value = Json::Array(vec![s("one"), Json::U64(2)]);
    assert_eq!(mapping.process_value_for_index(value), None);
}

#[test]
fn test_date_field_parses_rfc3339() {
    let mut mapping = FieldMapping::default();
    mapping.data_type = FieldType::Date;
    let tokens = mapping.process_value_for_index(s("2016-07-23T16:15:00+01:00")).unwrap();
    assert_eq!(tokens.len(), 1);
    assert_eq!(tokens[0].term, Term::DateTime(DateTime { seconds: 1469286900, nanos: 0 }));
    assert_eq!(mapping.process_value_for_index(s("not a date")), None);
    // Numeric epoch values are unsupported.
    assert_eq!(mapping.process_value_for_index(Json::U64(1469286900)), None);
}

#[test]
fn test_null_is_never_indexed() {
    let mapping = FieldMapping::default();
    assert_eq!(mapping.process_value_for_index(Json::Null), None);
}

#[test]
fn test_process_value_for_query_matches_indexing() {
    let mapping = FieldMapping::default();
    let a = mapping.process_value_for_index(s("Hello"));
    let b = mapping.process_value_for_query(s("Hello"));
    assert_eq!(a, b);
}

#[test]
fn test_edgengram_analyzer_produces_front_grams() {
    let analyzer = get_edgengram_analyzer();
    let tokens = analyzer.analyze("hello");
    let texts: Vec<String> = term_texts(&tokens);
    assert_eq!(
        texts,
        vec!["he", "hel", "hell", "hello"]
            .into_iter()
            .map(|t| t.to_string())
            .collect::<Vec<String>>()
    );
}

#[test]
fn test_standard_analyzer_shape() {
    let analyzer = get_standard_analyzer();
    assert_eq!(analyzer.tokenizer, TokenizerSpec::Standard);
    let tokens = analyzer.analyze("");
    assert_eq!(tokens.len(), 0);
}

#[test]
fn test_ngram_analysis_unanchored() {
    let mut analyzer = get_standard_analyzer();
    analyzer.tokenizer = TokenizerSpec::NGram { min_size: 2, max_size: 3, edge: Edge::Neither };
    analyzer.filters = Vec::new();
    let texts = term_texts(&analyzer.analyze("abc"));
    assert_eq!(
        texts,
        vec!["ab", "abc", "bc"].into_iter().map(|t| t.to_string()).collect::<Vec<String>>()
    );
}

#[test]
fn test_ngram_analysis_back_anchored() {
    let mut analyzer = get_standard_analyzer();
    analyzer.tokenizer = TokenizerSpec::NGram { min_size: 2, max_size: 3, edge: Edge::Right };
    analyzer.filters = Vec::new();
    let texts = term_texts(&analyzer.analyze("abc"));
    assert_eq!(
        texts,
        vec!["bc", "abc"].into_iter().map(|t| t.to_string()).collect::<Vec<String>>()
    );
}

#[test]
fn test_field_mapping_from_json() {
    let json = obj(vec![
        ("type", s("integer")),
        ("boost", Json::U64(2)),
        ("store", s("yes")),
        ("include_in_all", s("no")),
    ]);
    let mapping = FieldMapping::from_json(&json).unwrap();
    assert_eq!(mapping.data_type, FieldType::Integer);
    assert_eq!(mapping.boost, Number::U64(2));
    assert!(mapping.is_stored);
    assert!(!mapping.is_in_all);
    assert_eq!(FieldMapping::from_json(&s("nope")), None);
}

#[test]
fn test_field_mapping_from_json_defaults() {
    let mapping = FieldMapping::from_json(&obj(vec![])).unwrap();
    assert_eq!(mapping.data_type, FieldType::String);
    assert!(!mapping.is_stored);
    assert!(mapping.is_in_all);
    assert_eq!(mapping.boost, Number::U64(1));
    // An unrecognised type name falls back to the default type.
    let mapping = FieldMapping::from_json(&obj(vec![("type", s("geo_point"))])).unwrap();
    assert_eq!(mapping.data_type, FieldType::String);
}

#[test]
fn test_field_mapping_not_analyzed() {
    let json = obj(vec![("index", s("not_analyzed"))]);
    let mapping = FieldMapping::from_json(&json).unwrap();
    let tokens = mapping.process_value_for_index(s("Hello World")).unwrap();
    assert_eq!(term_texts(&tokens), vec!["Hello World".to_string()]);
    assert_eq!(tokens[0].position, 1);
}

#[test]
fn test_field_mapping_edgengram_index_analyzer() {
    let json = obj(vec![("index_analyzer", s("edgengram_analyzer"))]);
    let mapping = FieldMapping::from_json(&json).unwrap();
    assert_eq!(mapping.index_analyzer(), &get_edgengram_analyzer());
    // The search analyzer is not overridden: it stays the base analyzer.
    assert_eq!(mapping.search_analyzer(), &get_standard_analyzer());
}

#[test]
fn test_mapping_from_json_and_field_lookup() {
    let json = obj(vec![(
        "properties",
        obj(vec![
            ("title", obj(vec![("type", s("string"))])),
            ("count", obj(vec![("type", s("integer"))])),
        ]),
    )]);
    let mapping = Mapping::from_json(&json).unwrap();
    assert_eq!(mapping.fields.len(), 2);
    assert_eq!(mapping.field("count").unwrap().data_type, FieldType::Integer);
    assert!(mapping.field("missing").is_none());
    assert!(Mapping::from_json(&obj(vec![])).is_none());
}

#[test]
fn test_mapping_registry_field_lookup() {
    let mut registry = MappingRegistry::new();
    let articles = Mapping::from_json(&obj(vec![(
        "properties",
        obj(vec![("title", obj(vec![("type", s("string"))]))]),
    )]))
    .unwrap();
    let users = Mapping::from_json(&obj(vec![(
        "properties",
        obj(vec![("name", obj(vec![("type", s("string"))])), ("age", obj(vec![("type", s("integer"))]))]),
    )]))
    .unwrap();
    registry.insert_mapping("articles".to_string(), articles);
    registry.insert_mapping("users".to_string(), users);
    assert_eq!(registry.get_field("age").unwrap().data_type, FieldType::Integer);
    assert_eq!(registry.get_field("title").unwrap().data_type, FieldType::String);
    assert!(registry.get_field("missing").is_none());
}

#[test]
fn test_get_search_options_uses_search_analyzer() {
    let mapping = FieldMapping::default();
    let options = mapping.get_search_options();
    assert_eq!(&options.analyzer, mapping.search_analyzer());
}
