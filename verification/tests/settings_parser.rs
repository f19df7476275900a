use rusticsearch::{
    parse, Edge, FilterParseError, FilterSpec, IndexSettings, IndexSettingsParseError, Json,
    TokenizerParseError, TokenizerSpec,
};

fn to_json(value: serde_json::Value) -> Json {
    match value {
        serde_json::Value::Null => Json::Null,
        serde_json::Value::Bool(b) => Json::Boolean(b),
        serde_json::Value::Number(n) => {
            if let Some(u) = n.as_u64() {
                Json::U64(u)
            } else if let Some(i) = n.as_i64() {
                Json::I64(i)
            } else {
                Json::Float(n.to_string())
            }
        }
        serde_json::Value::String(s) => Json::String(s),
        serde_json::Value::Array(items) => {
            Json::Array(items.into_iter().map(to_json).collect())
        }
        serde_json::Value::Object(members) => {
            Json::Object(members.into_iter().map(|(k, v)| (k, to_json(v))).collect())
        }
    }
}

fn json_from_str(text: &str) -> Json {
    to_json(serde_json::from_str::<serde_json::Value>(text).unwrap())
}

#[test]
fn test_empty() {
    let mut settings = IndexSettings::default();
    parse(
        &mut settings,
        json_from_str(
            "
        {
        }
        ",
        ),
    )
    .expect("parse() returned an error");

    assert_eq!(settings.analyzers.tokenizers_len(), 0);
    assert_eq!(settings.analyzers.filters_len(), 0);
    assert_eq!(settings.analyzers.len(), 0);
}

#[test]
fn test_custom_analyser() {
    let mut settings = IndexSettings::default();
    parse(
        &mut settings,
        json_from_str(
            "
        {
            \"settings\": {
                \"analysis\": {
                    \"tokenizer\": {
                        \"ngram_tokenizer\": {
                            \"type\": \"nGram\",
                            \"min_gram\": 3,
                            \"max_gram\": 15
                        },
                        \"edgengram_tokenizer\": {
                            \"type\": \"edgeNGram\",
                            \"min_gram\": 2,
                            \"max_gram\": 15
                        },
                        \"edgengram_tokenizer_side_front\": {
                            \"type\": \"edgeNGram\",
                            \"min_gram\": 2,
                            \"max_gram\": 15,
                            \"side\": \"front\"
                        },
                        \"edgengram_tokenizer_side_back\": {
                            \"type\": \"edgeNGram\",
                            \"min_gram\": 2,
                            \"max_gram\": 15,
                            \"side\": \"back\"
                        }
                    },
                    \"filter\": {
                        \"ngram_filter\": {
                            \"type\": \"nGram\",
                            \"min_gram\": 3,
                            \"max_gram\": 15
                        },
                        \"edgengram_filter\": {
                            \"type\": \"edgeNGram\",
                            \"min_gram\": 2,
                            \"max_gram\": 15
                        },
                        \"edgengram_filter_side_front\": {
                            \"type\": \"edgeNGram\",
                            \"min_gram\": 2,
                            \"max_gram\": 15,
                            \"side\": \"front\"
                        },
                        \"edgengram_filter_side_back\": {
                            \"type\": \"edgeNGram\",
                            \"min_gram\": 2,
                            \"max_gram\": 15,
                            \"side\": \"back\"
                        }
                    }
                }
            }
        }
        ",
        ),
    )
    .expect("parse() returned an error");

    assert_eq!(settings.analyzers.tokenizers_len(), 4);
    assert_eq!(settings.analyzers.filters_len(), 4);
    assert_eq!(settings.analyzers.len(), 0);

    // Check tokenizers
    let ngram_tokenizer = settings
        .analyzers
        .get_tokenizer("ngram_tokenizer")
        .expect("'ngram_tokenizer' wasn't created");
    assert_eq!(
        *ngram_tokenizer,
        TokenizerSpec::NGram { min_size: 3, max_size: 15, edge: Edge::Neither }
    );

    let edgengram_tokenizer = settings
        .analyzers
        .get_tokenizer("edgengram_tokenizer")
        .expect("'edgengram_tokenizer' wasn't created");
    assert_eq!(
        *edgengram_tokenizer,
        TokenizerSpec::NGram { min_size: 2, max_size: 15, edge: Edge::Left }
    );

    let edgengram_tokenizer_side_front = settings
        .analyzers
        .get_tokenizer("edgengram_tokenizer_side_front")
        .expect("'edgengram_tokenizer_side_front' wasn't created");
    assert_eq!(
        *edgengram_tokenizer_side_front,
        TokenizerSpec::NGram { min_size: 2, max_size: 15, edge: Edge::Left }
    );

    let edgengram_tokenizer_side_back = settings
        .analyzers
        .get_tokenizer("edgengram_tokenizer_side_back")
        .expect("'edgengram_tokenizer_side_back' wasn't created");
    assert_eq!(
        *edgengram_tokenizer_side_back,
        TokenizerSpec::NGram { min_size: 2, max_size: 15, edge: Edge::Right }
    );

    // Check filters
    let ngram_filter = settings
        .analyzers
        .get_filter("ngram_filter")
        .expect("'ngram_filter' wasn't created");
    assert_eq!(
        *ngram_filter,
        FilterSpec::NGram { min_size: 3, max_size: 15, edge: Edge::Neither }
    );

    let edgengram_filter = settings
        .analyzers
        .get_filter("edgengram_filter")
        .expect("'edgengram_filter' wasn't created");
    assert_eq!(
        *edgengram_filter,
        FilterSpec::NGram { min_size: 2, max_size: 15, edge: Edge::Left }
    );

    let edgengram_filter_side_front = settings
        .analyzers
        .get_filter("edgengram_filter_side_front")
        .expect("'edgengram_filter_side_front' wasn't created");
    assert_eq!(
        *edgengram_filter_side_front,
        FilterSpec::NGram { min_size: 2, max_size: 15, edge: Edge::Left }
    );

    let edgengram_filter_side_back = settings
        .analyzers
        .get_filter("edgengram_filter_side_back")
        .expect("'edgengram_filter_side_back' wasn't created");
    assert_eq!(
        *edgengram_filter_side_back,
        FilterSpec::NGram { min_size: 2, max_size: 15, edge: Edge::Right }
    );
}

#[test]
fn test_custom_analyser_bad_tokenizer_type() {
    let mut settings = IndexSettings::default();
    let error = parse(
        &mut settings,
        json_from_str(
            "
        {
            \"settings\": {
                \"analysis\": {
                    \"tokenizer\": {
                        \"bad_tokenizer\": {
                            \"type\": \"foo\"
                        }
                    }
                }
            }
        }
        ",
        ),
    )
    .err()
    .expect("parse() was supposed to return an error, but didn't");

    assert_eq!(
        error,
        IndexSettingsParseError::TokenizerParseError(
            "bad_tokenizer".to_string(),
            TokenizerParseError::UnrecognisedType("foo".to_string())
        )
    );
}

#[test]
fn test_custom_analyser_bad_filter_type() {
    let mut settings = IndexSettings::default();
    let error = parse(
        &mut settings,
        json_from_str(
            "
        {
            \"settings\": {
                \"analysis\": {
                    \"filter\": {
                        \"bad_filter\": {
                            \"type\": \"foo\"
                        }
                    }
                }
            }
        }
        ",
        ),
    )
    .err()
    .expect("parse() was supposed to return an error, but didn't");

    assert_eq!(
        error,
        IndexSettingsParseError::FilterParseError(
            "bad_filter".to_string(),
            FilterParseError::UnrecognisedType("foo".to_string())
        )
    );
}

#[test]
fn test_custom_analyser_resolves_names() {
    let mut settings = IndexSettings::default();
    parse(
        &mut settings,
        json_from_str(
            "{\"settings\": {\"analysis\": {
                \"tokenizer\": {\"t\": {\"type\": \"standard\"}},
                \"filter\": {\"f\": {\"type\": \"lowercase\"}},
                \"analyzer\": {\"a\": {\"tokenizer\": \"t\", \"filter\": [\"f\"]}}
            }}}",
        ),
    )
    .expect("parse() returned an error");

    assert_eq!(settings.analyzers.len(), 1);
    let analyzer = settings.analyzers.get("a").expect("'a' wasn't created");
    assert_eq!(analyzer.tokenizer, TokenizerSpec::Standard);
    assert_eq!(analyzer.filters, vec![FilterSpec::Lowercase]);
}

#[test]
fn test_custom_analyser_unknown_tokenizer_reference() {
    let mut settings = IndexSettings::default();
    let error = parse(
        &mut settings,
        json_from_str(
            "{\"settings\": {\"analysis\": {
                \"analyzer\": {\"a\": {\"tokenizer\": \"missing\"}}
            }}}",
        ),
    )
    .err()
    .expect("parse() was supposed to return an error, but didn't");

    assert!(matches!(
        error,
        IndexSettingsParseError::AnalyzerParseError(ref name, rusticsearch::AnalyzerParseError::UnrecognisedTokenizer(ref t))
            if name == "a" && t == "missing"
    ));
}
