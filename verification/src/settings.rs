//! Parsing of an index's settings document: the named tokenizers, token
//! filters and analyzers under `settings.analysis`.
//!
//! Parsing registers definitions as it reads them, in document order, and
//! stops at the first bad definition: what was registered before the error
//! stays registered. An unrecognised `type` is reported with the name of
//! the offending definition, never resolved silently to a default.
use vstd::prelude::*;

use crate::analysis::{
    assoc_get, AnalyzerRegistry, AnalyzerSpec, AnalyzerSpecV, Edge, FilterSpec, TokenizerSpec,
};
use crate::json::{
    json_view, jsons_view, lemma_jsons_view, lemma_members_view, members_view, obj_get, str_eq,
    Json, JsonV,
};

verus! {

broadcast use vstd::std_specs::vec::group_vec_axioms;

/// Why a tokenizer definition failed to parse.
#[derive(Debug, PartialEq)]
pub enum TokenizerParseError {
    /// The definition was not an object.
    ExpectedObject,
    /// The definition has no `type` member.
    MissingType,
    /// A member that must be a string was not one.
    ExpectedString,
    /// The `type` names no known tokenizer kind.
    UnrecognisedType(String),
    /// A required n-gram parameter is absent.
    MissingParameter(String),
    /// An n-gram size was not an unsigned number that fits.
    ExpectedUnsignedInteger,
    /// The `side` names neither `front` nor `back`.
    UnrecognisedSide(String),
}

/// The mathematical value of a `TokenizerParseError`.
pub ghost enum TokenizerParseErrorV {
    ExpectedObject,
    MissingType,
    ExpectedString,
    UnrecognisedType(Seq<char>),
    MissingParameter(Seq<char>),
    ExpectedUnsignedInteger,
    UnrecognisedSide(Seq<char>),
}

impl View for TokenizerParseError {
    type V = TokenizerParseErrorV;

    open spec fn view(&self) -> TokenizerParseErrorV {
        match self {
            TokenizerParseError::ExpectedObject => TokenizerParseErrorV::ExpectedObject,
            TokenizerParseError::MissingType => TokenizerParseErrorV::MissingType,
            TokenizerParseError::ExpectedString => TokenizerParseErrorV::ExpectedString,
            TokenizerParseError::UnrecognisedType(s) => TokenizerParseErrorV::UnrecognisedType(
                s@,
            ),
            TokenizerParseError::MissingParameter(s) => TokenizerParseErrorV::MissingParameter(
                s@,
            ),
            TokenizerParseError::ExpectedUnsignedInteger
                => TokenizerParseErrorV::ExpectedUnsignedInteger,
            TokenizerParseError::UnrecognisedSide(s) => TokenizerParseErrorV::UnrecognisedSide(
                s@,
            ),
        }
    }
}

/// Why a token-filter definition failed to parse.
#[derive(Debug, PartialEq)]
pub enum FilterParseError {
    ExpectedObject,
    MissingType,
    ExpectedString,
    UnrecognisedType(String),
    MissingParameter(String),
    ExpectedUnsignedInteger,
    UnrecognisedSide(String),
}

/// The mathematical value of a `FilterParseError`.
pub ghost enum FilterParseErrorV {
    ExpectedObject,
    MissingType,
    ExpectedString,
    UnrecognisedType(Seq<char>),
    MissingParameter(Seq<char>),
    ExpectedUnsignedInteger,
    UnrecognisedSide(Seq<char>),
}

impl View for FilterParseError {
    type V = FilterParseErrorV;

    open spec fn view(&self) -> FilterParseErrorV {
        match self {
            FilterParseError::ExpectedObject => FilterParseErrorV::ExpectedObject,
            FilterParseError::MissingType => FilterParseErrorV::MissingType,
            FilterParseError::ExpectedString => FilterParseErrorV::ExpectedString,
            FilterParseError::UnrecognisedType(s) => FilterParseErrorV::UnrecognisedType(s@),
            FilterParseError::MissingParameter(s) => FilterParseErrorV::MissingParameter(s@),
            FilterParseError::ExpectedUnsignedInteger
                => FilterParseErrorV::ExpectedUnsignedInteger,
            FilterParseError::UnrecognisedSide(s) => FilterParseErrorV::UnrecognisedSide(s@),
        }
    }
}

/// Why an analyzer definition failed to parse.
#[derive(Debug, PartialEq)]
pub enum AnalyzerParseError {
    ExpectedObject,
    /// The definition has no `tokenizer` member.
    MissingTokenizer,
    ExpectedString,
    ExpectedArray,
    /// The named tokenizer is not registered.
    UnrecognisedTokenizer(String),
    /// A named token filter is not registered.
    UnrecognisedFilter(String),
}

/// The mathematical value of an `AnalyzerParseError`.
pub ghost enum AnalyzerParseErrorV {
    ExpectedObject,
    MissingTokenizer,
    ExpectedString,
    ExpectedArray,
    UnrecognisedTokenizer(Seq<char>),
    UnrecognisedFilter(Seq<char>),
}

impl View for AnalyzerParseError {
    type V = AnalyzerParseErrorV;

    open spec fn view(&self) -> AnalyzerParseErrorV {
        match self {
            AnalyzerParseError::ExpectedObject => AnalyzerParseErrorV::ExpectedObject,
            AnalyzerParseError::MissingTokenizer => AnalyzerParseErrorV::MissingTokenizer,
            AnalyzerParseError::ExpectedString => AnalyzerParseErrorV::ExpectedString,
            AnalyzerParseError::ExpectedArray => AnalyzerParseErrorV::ExpectedArray,
            AnalyzerParseError::UnrecognisedTokenizer(s)
                => AnalyzerParseErrorV::UnrecognisedTokenizer(s@),
            AnalyzerParseError::UnrecognisedFilter(s) => AnalyzerParseErrorV::UnrecognisedFilter(
                s@,
            ),
        }
    }
}

/// Why a settings document failed to parse: a structural failure, or a bad
/// definition tagged with its name.
#[derive(Debug, PartialEq)]
pub enum IndexSettingsParseError {
    ExpectedObject,
    TokenizerParseError(String, TokenizerParseError),
    FilterParseError(String, FilterParseError),
    AnalyzerParseError(String, AnalyzerParseError),
}

/// The mathematical value of an `IndexSettingsParseError`.
pub ghost enum IndexSettingsParseErrorV {
    ExpectedObject,
    TokenizerParseError(Seq<char>, TokenizerParseErrorV),
    FilterParseError(Seq<char>, FilterParseErrorV),
    AnalyzerParseError(Seq<char>, AnalyzerParseErrorV),
}

impl View for IndexSettingsParseError {
    type V = IndexSettingsParseErrorV;

    open spec fn view(&self) -> IndexSettingsParseErrorV {
        match self {
            IndexSettingsParseError::ExpectedObject => IndexSettingsParseErrorV::ExpectedObject,
            IndexSettingsParseError::TokenizerParseError(n, e)
                => IndexSettingsParseErrorV::TokenizerParseError(n@, e@),
            IndexSettingsParseError::FilterParseError(n, e)
                => IndexSettingsParseErrorV::FilterParseError(n@, e@),
            IndexSettingsParseError::AnalyzerParseError(n, e)
                => IndexSettingsParseErrorV::AnalyzerParseError(n@, e@),
        }
    }
}

/// An index's settings: its analyzer registry.
#[derive(Debug)]
pub struct IndexSettings {
    pub analyzers: AnalyzerRegistry,
}

impl Default for IndexSettings {
    /// Settings with nothing registered.
    fn default() -> (r: IndexSettings)
        ensures
            r.analyzers.tokenizers_v().len() == 0,
            r.analyzers.filters_v().len() == 0,
            r.analyzers.analyzers_v().len() == 0,
    {
        IndexSettings { analyzers: AnalyzerRegistry::new() }
    }
}

/// The n-gram bounds of a definition: its `min_gram` and `max_gram`
/// members, each a required unsigned number that fits the platform.
pub open spec fn spec_ngram_bounds(ms: Seq<(Seq<char>, JsonV)>) -> Result<
    (usize, usize),
    TokenizerParseErrorV,
> {
    match obj_get(ms, "min_gram"@) {
        None => Err(TokenizerParseErrorV::MissingParameter("min_gram"@)),
        Some(JsonV::U64(mn)) => {
            if mn > usize::MAX {
                Err(TokenizerParseErrorV::ExpectedUnsignedInteger)
            } else {
                match obj_get(ms, "max_gram"@) {
                    None => Err(TokenizerParseErrorV::MissingParameter("max_gram"@)),
                    Some(JsonV::U64(mx)) => {
                        if mx > usize::MAX {
                            Err(TokenizerParseErrorV::ExpectedUnsignedInteger)
                        } else {
                            Ok((mn as usize, mx as usize))
                        }
                    },
                    Some(_) => Err(TokenizerParseErrorV::ExpectedUnsignedInteger),
                }
            }
        },
        Some(_) => Err(TokenizerParseErrorV::ExpectedUnsignedInteger),
    }
}

/// The edge a definition's `side` member picks: `front` anchors at the
/// front, `back` at the back; absent means `front` for an edge n-gram.
pub open spec fn spec_ngram_side(ms: Seq<(Seq<char>, JsonV)>) -> Result<
    Edge,
    TokenizerParseErrorV,
> {
    match obj_get(ms, "side"@) {
        None => Ok(Edge::Left),
        Some(JsonV::String(s)) => {
            if s == "front"@ {
                Ok(Edge::Left)
            } else if s == "back"@ {
                Ok(Edge::Right)
            } else {
                Err(TokenizerParseErrorV::UnrecognisedSide(s))
            }
        },
        Some(_) => Err(TokenizerParseErrorV::ExpectedString),
    }
}

/// What a tokenizer definition yields: `standard`, or an (edge) n-gram
/// tokenizer with its bounds and side. An unrecognised `type` is an error
/// carrying that type's name.
pub open spec fn spec_parse_tokenizer(j: JsonV) -> Result<TokenizerSpec, TokenizerParseErrorV> {
    match j {
        JsonV::Object(ms) => match obj_get(ms, "type"@) {
            None => Err(TokenizerParseErrorV::MissingType),
            Some(JsonV::String(t)) => {
                if t == "standard"@ {
                    Ok(TokenizerSpec::Standard)
                } else if t == "nGram"@ {
                    match spec_ngram_bounds(ms) {
                        Ok((mn, mx)) => Ok(
                            TokenizerSpec::NGram {
                                min_size: mn,
                                max_size: mx,
                                edge: Edge::Neither,
                            },
                        ),
                        Err(e) => Err(e),
                    }
                } else if t == "edgeNGram"@ {
                    match spec_ngram_bounds(ms) {
                        Ok((mn, mx)) => match spec_ngram_side(ms) {
                            Ok(edge) => Ok(
                                TokenizerSpec::NGram { min_size: mn, max_size: mx, edge },
                            ),
                            Err(e) => Err(e),
                        },
                        Err(e) => Err(e),
                    }
                } else {
                    Err(TokenizerParseErrorV::UnrecognisedType(t))
                }
            },
            Some(_) => Err(TokenizerParseErrorV::ExpectedString),
        },
        _ => Err(TokenizerParseErrorV::ExpectedObject),
    }
}

/// What a token-filter definition yields: `lowercase`, `asciifolding`, or
/// an (edge) n-gram filter with its bounds and side.
pub open spec fn spec_parse_filter_def(j: JsonV) -> Result<FilterSpec, FilterParseErrorV> {
    match j {
        JsonV::Object(ms) => match obj_get(ms, "type"@) {
            None => Err(FilterParseErrorV::MissingType),
            Some(JsonV::String(t)) => {
                if t == "lowercase"@ {
                    Ok(FilterSpec::Lowercase)
                } else if t == "asciifolding"@ {
                    Ok(FilterSpec::ASCIIFolding)
                } else if t == "nGram"@ {
                    match spec_ngram_bounds(ms) {
                        Ok((mn, mx)) => Ok(
                            FilterSpec::NGram { min_size: mn, max_size: mx, edge: Edge::Neither },
                        ),
                        Err(e) => Err(tokenizer_err_as_filter_err(e)),
                    }
                } else if t == "edgeNGram"@ {
                    match spec_ngram_bounds(ms) {
                        Ok((mn, mx)) => match spec_ngram_side(ms) {
                            Ok(edge) => Ok(
                                FilterSpec::NGram { min_size: mn, max_size: mx, edge },
                            ),
                            Err(e) => Err(tokenizer_err_as_filter_err(e)),
                        },
                        Err(e) => Err(tokenizer_err_as_filter_err(e)),
                    }
                } else {
                    Err(FilterParseErrorV::UnrecognisedType(t))
                }
            },
            Some(_) => Err(FilterParseErrorV::ExpectedString),
        },
        _ => Err(FilterParseErrorV::ExpectedObject),
    }
}

/// The same parameter failure, reported for a filter definition.
pub open spec fn tokenizer_err_as_filter_err(e: TokenizerParseErrorV) -> FilterParseErrorV {
    match e {
        TokenizerParseErrorV::ExpectedObject => FilterParseErrorV::ExpectedObject,
        TokenizerParseErrorV::MissingType => FilterParseErrorV::MissingType,
        TokenizerParseErrorV::ExpectedString => FilterParseErrorV::ExpectedString,
        TokenizerParseErrorV::UnrecognisedType(s) => FilterParseErrorV::UnrecognisedType(s),
        TokenizerParseErrorV::MissingParameter(s) => FilterParseErrorV::MissingParameter(s),
        TokenizerParseErrorV::ExpectedUnsignedInteger
            => FilterParseErrorV::ExpectedUnsignedInteger,
        TokenizerParseErrorV::UnrecognisedSide(s) => FilterParseErrorV::UnrecognisedSide(s),
    }
}

/// The filters an analyzer definition's `filter` array names, resolved in
/// order; the first unregistered name is an error.
pub open spec fn spec_resolve_filters(
    els: Seq<JsonV>,
    registered: Seq<(Seq<char>, FilterSpec)>,
) -> Result<Seq<FilterSpec>, AnalyzerParseErrorV>
    decreases els.len(),
{
    if els.len() == 0 {
        Ok(Seq::empty())
    } else {
        match els[0] {
            JsonV::String(name) => match assoc_get(registered, name) {
                Some(f) => match spec_resolve_filters(els.drop_first(), registered) {
                    Ok(rest) => Ok(seq![f] + rest),
                    Err(e) => Err(e),
                },
                None => Err(AnalyzerParseErrorV::UnrecognisedFilter(name)),
            },
            _ => Err(AnalyzerParseErrorV::ExpectedString),
        }
    }
}

/// What an analyzer definition yields: the tokenizer registered under its
/// `tokenizer` name, and the filters its `filter` array names (none when
/// the array is absent).
pub open spec fn spec_parse_analyzer(
    j: JsonV,
    tokenizers: Seq<(Seq<char>, TokenizerSpec)>,
    filters: Seq<(Seq<char>, FilterSpec)>,
) -> Result<AnalyzerSpecV, AnalyzerParseErrorV> {
    match j {
        JsonV::Object(ms) => match obj_get(ms, "tokenizer"@) {
            None => Err(AnalyzerParseErrorV::MissingTokenizer),
            Some(JsonV::String(tname)) => match assoc_get(tokenizers, tname) {
                None => Err(AnalyzerParseErrorV::UnrecognisedTokenizer(tname)),
                Some(tok) => match obj_get(ms, "filter"@) {
                    None => Ok(AnalyzerSpecV { tokenizer: tok, filters: Seq::empty() }),
                    Some(JsonV::Array(els)) => match spec_resolve_filters(els, filters) {
                        Ok(fs) => Ok(AnalyzerSpecV { tokenizer: tok, filters: fs }),
                        Err(e) => Err(e),
                    },
                    Some(_) => Err(AnalyzerParseErrorV::ExpectedArray),
                },
            },
            Some(_) => Err(AnalyzerParseErrorV::ExpectedString),
        },
        _ => Err(AnalyzerParseErrorV::ExpectedObject),
    }
}

/// Parses a tokenizer definition.
pub fn parse_tokenizer(json: &Json) -> (r: Result<TokenizerSpec, TokenizerParseError>)
    ensures
        match r {
            Ok(t) => spec_parse_tokenizer(json@) == Ok::<TokenizerSpec, TokenizerParseErrorV>(t),
            Err(e) => spec_parse_tokenizer(json@) == Err::<TokenizerSpec, TokenizerParseErrorV>(
                e@,
            ),
        },
{
    let ms = match json {
        Json::Object(ms) => ms,
        _ => {
            return Err(TokenizerParseError::ExpectedObject);
        },
    };
    let t = match Json::object_get(ms, "type") {
        None => {
            return Err(TokenizerParseError::MissingType);
        },
        Some(v) => match v {
            Json::String(t) => t,
            _ => {
                return Err(TokenizerParseError::ExpectedString);
            },
        },
    };
    if str_eq(t.as_str(), "standard") {
        Ok(TokenizerSpec::Standard)
    } else if str_eq(t.as_str(), "nGram") {
        match ngram_bounds(ms) {
            Ok((mn, mx)) => Ok(
                TokenizerSpec::NGram { min_size: mn, max_size: mx, edge: Edge::Neither },
            ),
            Err(e) => Err(e),
        }
    } else if str_eq(t.as_str(), "edgeNGram") {
        match ngram_bounds(ms) {
            Ok((mn, mx)) => match ngram_side(ms) {
                Ok(edge) => Ok(TokenizerSpec::NGram { min_size: mn, max_size: mx, edge }),
                Err(e) => Err(e),
            },
            Err(e) => Err(e),
        }
    } else {
        Err(TokenizerParseError::UnrecognisedType(t.clone()))
    }
}

fn ngram_bounds(ms: &Vec<(String, Json)>) -> (r: Result<(usize, usize), TokenizerParseError>)
    ensures
        match r {
            Ok(b) => spec_ngram_bounds(members_view(ms@)) == Ok::<
                (usize, usize),
                TokenizerParseErrorV,
            >(b),
            Err(e) => spec_ngram_bounds(members_view(ms@)) == Err::<
                (usize, usize),
                TokenizerParseErrorV,
            >(e@),
        },
{
    let mn = match Json::object_get(ms, "min_gram") {
        None => {
            return Err(TokenizerParseError::MissingParameter(String::from_str("min_gram")));
        },
        Some(v) => match v {
            Json::U64(n) => {
                if *n > usize::MAX as u64 {
                    return Err(TokenizerParseError::ExpectedUnsignedInteger);
                }
                *n as usize
            },
            _ => {
                return Err(TokenizerParseError::ExpectedUnsignedInteger);
            },
        },
    };
    let mx = match Json::object_get(ms, "max_gram") {
        None => {
            return Err(TokenizerParseError::MissingParameter(String::from_str("max_gram")));
        },
        Some(v) => match v {
            Json::U64(n) => {
                if *n > usize::MAX as u64 {
                    return Err(TokenizerParseError::ExpectedUnsignedInteger);
                }
                *n as usize
            },
            _ => {
                return Err(TokenizerParseError::ExpectedUnsignedInteger);
            },
        },
    };
    Ok((mn, mx))
}

fn ngram_side(ms: &Vec<(String, Json)>) -> (r: Result<Edge, TokenizerParseError>)
    ensures
        match r {
            Ok(e) => spec_ngram_side(members_view(ms@)) == Ok::<Edge, TokenizerParseErrorV>(e),
            Err(e) => spec_ngram_side(members_view(ms@)) == Err::<Edge, TokenizerParseErrorV>(
                e@,
            ),
        },
{
    match Json::object_get(ms, "side") {
        None => Ok(Edge::Left),
        Some(v) => match v {
            Json::String(s) => {
                if str_eq(s.as_str(), "front") {
                    Ok(Edge::Left)
                } else if str_eq(s.as_str(), "back") {
                    Ok(Edge::Right)
                } else {
                    Err(TokenizerParseError::UnrecognisedSide(s.clone()))
                }
            },
            _ => Err(TokenizerParseError::ExpectedString),
        },
    }
}

fn tokenizer_err_to_filter_err(e: TokenizerParseError) -> (r: FilterParseError)
    ensures
        r@ == tokenizer_err_as_filter_err(e@),
{
    match e {
        TokenizerParseError::ExpectedObject => FilterParseError::ExpectedObject,
        TokenizerParseError::MissingType => FilterParseError::MissingType,
        TokenizerParseError::ExpectedString => FilterParseError::ExpectedString,
        TokenizerParseError::UnrecognisedType(s) => FilterParseError::UnrecognisedType(s),
        TokenizerParseError::MissingParameter(s) => FilterParseError::MissingParameter(s),
        TokenizerParseError::ExpectedUnsignedInteger => FilterParseError::ExpectedUnsignedInteger,
        TokenizerParseError::UnrecognisedSide(s) => FilterParseError::UnrecognisedSide(s),
    }
}

/// Parses a token-filter definition.
pub fn parse_filter_def(json: &Json) -> (r: Result<FilterSpec, FilterParseError>)
    ensures
        match r {
            Ok(f) => spec_parse_filter_def(json@) == Ok::<FilterSpec, FilterParseErrorV>(f),
            Err(e) => spec_parse_filter_def(json@) == Err::<FilterSpec, FilterParseErrorV>(e@),
        },
{
    let ms = match json {
        Json::Object(ms) => ms,
        _ => {
            return Err(FilterParseError::ExpectedObject);
        },
    };
    let t = match Json::object_get(ms, "type") {
        None => {
            return Err(FilterParseError::MissingType);
        },
        Some(v) => match v {
            Json::String(t) => t,
            _ => {
                return Err(FilterParseError::ExpectedString);
            },
        },
    };
    if str_eq(t.as_str(), "lowercase") {
        Ok(FilterSpec::Lowercase)
    } else if str_eq(t.as_str(), "asciifolding") {
        Ok(FilterSpec::ASCIIFolding)
    } else if str_eq(t.as_str(), "nGram") {
        match ngram_bounds(ms) {
            Ok((mn, mx)) => Ok(
                FilterSpec::NGram { min_size: mn, max_size: mx, edge: Edge::Neither },
            ),
            Err(e) => Err(tokenizer_err_to_filter_err(e)),
        }
    } else if str_eq(t.as_str(), "edgeNGram") {
        match ngram_bounds(ms) {
            Ok((mn, mx)) => match ngram_side(ms) {
                Ok(edge) => Ok(FilterSpec::NGram { min_size: mn, max_size: mx, edge }),
                Err(e) => Err(tokenizer_err_to_filter_err(e)),
            },
            Err(e) => Err(tokenizer_err_to_filter_err(e)),
        }
    } else {
        Err(FilterParseError::UnrecognisedType(t.clone()))
    }
}

/// Parses an analyzer definition against what the registry holds.
pub fn parse_analyzer(json: &Json, registry: &AnalyzerRegistry) -> (r: Result<
    AnalyzerSpec,
    AnalyzerParseError,
>)
    ensures
        match r {
            Ok(a) => spec_parse_analyzer(json@, registry.tokenizers_v(), registry.filters_v())
                == Ok::<AnalyzerSpecV, AnalyzerParseErrorV>(a@),
            Err(e) => spec_parse_analyzer(json@, registry.tokenizers_v(), registry.filters_v())
                == Err::<AnalyzerSpecV, AnalyzerParseErrorV>(e@),
        },
{
    let ms = match json {
        Json::Object(ms) => ms,
        _ => {
            return Err(AnalyzerParseError::ExpectedObject);
        },
    };
    let tname = match Json::object_get(ms, "tokenizer") {
        None => {
            return Err(AnalyzerParseError::MissingTokenizer);
        },
        Some(v) => match v {
            Json::String(t) => t,
            _ => {
                return Err(AnalyzerParseError::ExpectedString);
            },
        },
    };
    let tok = match registry.get_tokenizer(tname.as_str()) {
        None => {
            return Err(AnalyzerParseError::UnrecognisedTokenizer(tname.clone()));
        },
        Some(t) => *t,
    };
    let els = match Json::object_get(ms, "filter") {
        None => {
            let a = AnalyzerSpec { tokenizer: tok, filters: Vec::new() };
            proof {
                assert(a@.filters =~= Seq::<FilterSpec>::empty());
            }
            return Ok(a);
        },
        Some(v) => match v {
            Json::Array(els) => els,
            _ => {
                return Err(AnalyzerParseError::ExpectedArray);
            },
        },
    };
    proof {
        lemma_jsons_view(els@);
    }
    let ghost ev = jsons_view(els@);
    let mut filters: Vec<FilterSpec> = Vec::new();
    let mut i: usize = 0;
    proof {
        assert(ev.skip(0) =~= ev);
        if spec_resolve_filters(ev, registry.filters_v()) is Ok {
            assert(filters@ + spec_resolve_filters(ev, registry.filters_v())->Ok_0
                =~= spec_resolve_filters(ev, registry.filters_v())->Ok_0);
        }
    }
    while i < els.len()
        invariant
            i <= els@.len(),
            ev == jsons_view(els@),
            ev.len() == els@.len(),
            forall|j: int| 0 <= j < els@.len() ==> ev[j] == json_view(els@[j]),
            spec_parse_analyzer(json@, registry.tokenizers_v(), registry.filters_v()) == (
            match spec_resolve_filters(ev, registry.filters_v()) {
                Ok(fs) => Ok::<AnalyzerSpecV, AnalyzerParseErrorV>(
                    AnalyzerSpecV { tokenizer: tok, filters: fs },
                ),
                Err(e) => Err::<AnalyzerSpecV, AnalyzerParseErrorV>(e),
            }),
            spec_resolve_filters(ev, registry.filters_v()) == match spec_resolve_filters(
                ev.skip(i as int),
                registry.filters_v(),
            ) {
                Ok(rest) => Ok::<Seq<FilterSpec>, AnalyzerParseErrorV>(filters@ + rest),
                Err(e) => Err::<Seq<FilterSpec>, AnalyzerParseErrorV>(e),
            },
        decreases els@.len() - i,
    {
        proof {
            assert(ev.skip(i as int)[0] == ev[i as int]);
            assert(ev.skip(i as int).drop_first() =~= ev.skip(i + 1));
        }
        let fname = match &els[i] {
            Json::String(s) => s,
            _ => {
                return Err(AnalyzerParseError::ExpectedString);
            },
        };
        let ghost prev = filters@;
        match registry.get_filter(fname.as_str()) {
            Some(f) => {
                filters.push(*f);
                proof {
                    if spec_resolve_filters(ev.skip(i + 1), registry.filters_v()) is Ok {
                        let rest = spec_resolve_filters(
                            ev.skip(i + 1),
                            registry.filters_v(),
                        )->Ok_0;
                        assert(prev + (seq![*f] + rest) =~= filters@ + rest);
                    }
                }
            },
            None => {
                return Err(AnalyzerParseError::UnrecognisedFilter(fname.clone()));
            },
        }
        i = i + 1;
    }
    proof {
        assert(ev.skip(i as int) =~= Seq::<JsonV>::empty());
        assert(filters@ + Seq::<FilterSpec>::empty() =~= filters@);
    }
    Ok(AnalyzerSpec { tokenizer: tok, filters })
}


/// Tokenizer definitions registered in document order; the first bad one
/// stops the walk with its error, keeping what was registered before it.
pub open spec fn spec_apply_tokenizers(
    t: Seq<(Seq<char>, TokenizerSpec)>,
    members: Seq<(Seq<char>, JsonV)>,
) -> (Seq<(Seq<char>, TokenizerSpec)>, Option<IndexSettingsParseErrorV>)
    decreases members.len(),
{
    if members.len() == 0 {
        (t, None)
    } else {
        match spec_parse_tokenizer(members[0].1) {
            Err(e) => (
                t,
                Some(IndexSettingsParseErrorV::TokenizerParseError(members[0].0, e)),
            ),
            Ok(tok) => spec_apply_tokenizers(seq![(members[0].0, tok)] + t, members.drop_first()),
        }
    }
}

/// Token-filter definitions registered in document order, as for
/// tokenizers.
pub open spec fn spec_apply_filter_defs(
    f: Seq<(Seq<char>, FilterSpec)>,
    members: Seq<(Seq<char>, JsonV)>,
) -> (Seq<(Seq<char>, FilterSpec)>, Option<IndexSettingsParseErrorV>)
    decreases members.len(),
{
    if members.len() == 0 {
        (f, None)
    } else {
        match spec_parse_filter_def(members[0].1) {
            Err(e) => (f, Some(IndexSettingsParseErrorV::FilterParseError(members[0].0, e))),
            Ok(fd) => spec_apply_filter_defs(seq![(members[0].0, fd)] + f, members.drop_first()),
        }
    }
}

/// Analyzer definitions registered in document order, each resolved against
/// the tokenizers and filters registered when the walk began.
pub open spec fn spec_apply_analyzers(
    a: Seq<(Seq<char>, AnalyzerSpecV)>,
    members: Seq<(Seq<char>, JsonV)>,
    tokenizers: Seq<(Seq<char>, TokenizerSpec)>,
    filters: Seq<(Seq<char>, FilterSpec)>,
) -> (Seq<(Seq<char>, AnalyzerSpecV)>, Option<IndexSettingsParseErrorV>)
    decreases members.len(),
{
    if members.len() == 0 {
        (a, None)
    } else {
        match spec_parse_analyzer(members[0].1, tokenizers, filters) {
            Err(e) => (a, Some(IndexSettingsParseErrorV::AnalyzerParseError(members[0].0, e))),
            Ok(an) => spec_apply_analyzers(
                seq![(members[0].0, an)] + a,
                members.drop_first(),
                tokenizers,
                filters,
            ),
        }
    }
}

/// What parsing a settings document does to a registry holding the given
/// tokenizers, filters and analyzers: the three lists afterwards, and the
/// error that stopped the walk, if one did. A document without
/// `settings.analysis` changes nothing; each section is walked in document
/// order, tokenizers first, then filters, then analyzers.
pub open spec fn spec_apply_settings(
    t0: Seq<(Seq<char>, TokenizerSpec)>,
    f0: Seq<(Seq<char>, FilterSpec)>,
    a0: Seq<(Seq<char>, AnalyzerSpecV)>,
    data: JsonV,
) -> (
    Seq<(Seq<char>, TokenizerSpec)>,
    Seq<(Seq<char>, FilterSpec)>,
    Seq<(Seq<char>, AnalyzerSpecV)>,
    Option<IndexSettingsParseErrorV>,
) {
    match data {
        JsonV::Object(ms) => match obj_get(ms, "settings"@) {
            None => (t0, f0, a0, None),
            Some(JsonV::Object(sms)) => match obj_get(sms, "analysis"@) {
                None => (t0, f0, a0, None),
                Some(JsonV::Object(ams)) => {
                    let tstep = match obj_get(ams, "tokenizer"@) {
                        None => (t0, None),
                        Some(JsonV::Object(tms)) => spec_apply_tokenizers(t0, tms),
                        Some(_) => (t0, Some(IndexSettingsParseErrorV::ExpectedObject)),
                    };
                    if tstep.1 is Some {
                        (tstep.0, f0, a0, tstep.1)
                    } else {
                        let fstep = match obj_get(ams, "filter"@) {
                            None => (f0, None),
                            Some(JsonV::Object(fms)) => spec_apply_filter_defs(f0, fms),
                            Some(_) => (f0, Some(IndexSettingsParseErrorV::ExpectedObject)),
                        };
                        if fstep.1 is Some {
                            (tstep.0, fstep.0, a0, fstep.1)
                        } else {
                            let astep = match obj_get(ams, "analyzer"@) {
                                None => (a0, None),
                                Some(JsonV::Object(ams2)) => spec_apply_analyzers(
                                    a0,
                                    ams2,
                                    tstep.0,
                                    fstep.0,
                                ),
                                Some(_) => (
                                    a0,
                                    Some(IndexSettingsParseErrorV::ExpectedObject),
                                ),
                            };
                            (tstep.0, fstep.0, astep.0, astep.1)
                        }
                    }
                },
                Some(_) => (t0, f0, a0, Some(IndexSettingsParseErrorV::ExpectedObject)),
            },
            Some(_) => (t0, f0, a0, Some(IndexSettingsParseErrorV::ExpectedObject)),
        },
        _ => (t0, f0, a0, Some(IndexSettingsParseErrorV::ExpectedObject)),
    }
}

fn apply_tokenizer_defs(reg: &mut AnalyzerRegistry, tms: &Vec<(String, Json)>) -> (r: Result<
    (),
    IndexSettingsParseError,
>)
    ensures
        ({
            let step = spec_apply_tokenizers(old(reg).tokenizers_v(), members_view(tms@));
            &&& final(reg).tokenizers_v() == step.0
            &&& final(reg).filters_v() == old(reg).filters_v()
            &&& final(reg).analyzers_v() == old(reg).analyzers_v()
            &&& (match r {
                Ok(_) => step.1 is None,
                Err(e) => step.1 == Some(e@),
            })
        }),
{
    proof {
        lemma_members_view(tms@);
    }
    let ghost msv = members_view(tms@);
    let ghost t0 = reg.tokenizers_v();
    let ghost f0 = reg.filters_v();
    let ghost a0 = reg.analyzers_v();
    let mut i: usize = 0;
    proof {
        assert(msv.skip(0) =~= msv);
    }
    while i < tms.len()
        invariant
            i <= tms@.len(),
            msv == members_view(tms@),
            msv.len() == tms@.len(),
            forall|j: int|
                0 <= j < tms@.len() ==> msv[j] == (tms@[j].0@, json_view(tms@[j].1)),
            t0 == old(reg).tokenizers_v(),
            f0 == old(reg).filters_v(),
            a0 == old(reg).analyzers_v(),
            spec_apply_tokenizers(t0, msv) == spec_apply_tokenizers(
                reg.tokenizers_v(),
                msv.skip(i as int),
            ),
            reg.filters_v() == f0,
            reg.analyzers_v() == a0,
        decreases tms@.len() - i,
    {
        proof {
            assert(msv.skip(i as int)[0] == msv[i as int]);
            assert(msv.skip(i as int).drop_first() =~= msv.skip(i + 1));
        }
        match parse_tokenizer(&tms[i].1) {
            Ok(tok) => {
                reg.insert_tokenizer(tms[i].0.clone(), tok);
            },
            Err(e) => {
                return Err(IndexSettingsParseError::TokenizerParseError(tms[i].0.clone(), e));
            },
        }
        i = i + 1;
    }
    proof {
        assert(msv.skip(i as int).len() == 0);
    }
    Ok(())
}

fn apply_filter_defs(reg: &mut AnalyzerRegistry, fms: &Vec<(String, Json)>) -> (r: Result<
    (),
    IndexSettingsParseError,
>)
    ensures
        ({
            let step = spec_apply_filter_defs(old(reg).filters_v(), members_view(fms@));
            &&& final(reg).filters_v() == step.0
            &&& final(reg).tokenizers_v() == old(reg).tokenizers_v()
            &&& final(reg).analyzers_v() == old(reg).analyzers_v()
            &&& (match r {
                Ok(_) => step.1 is None,
                Err(e) => step.1 == Some(e@),
            })
        }),
{
    proof {
        lemma_members_view(fms@);
    }
    let ghost msv = members_view(fms@);
    let ghost t0 = reg.tokenizers_v();
    let ghost f0 = reg.filters_v();
    let ghost a0 = reg.analyzers_v();
    let mut i: usize = 0;
    proof {
        assert(msv.skip(0) =~= msv);
    }
    while i < fms.len()
        invariant
            i <= fms@.len(),
            msv == members_view(fms@),
            msv.len() == fms@.len(),
            forall|j: int|
                0 <= j < fms@.len() ==> msv[j] == (fms@[j].0@, json_view(fms@[j].1)),
            t0 == old(reg).tokenizers_v(),
            f0 == old(reg).filters_v(),
            a0 == old(reg).analyzers_v(),
            spec_apply_filter_defs(f0, msv) == spec_apply_filter_defs(
                reg.filters_v(),
                msv.skip(i as int),
            ),
            reg.tokenizers_v() == t0,
            reg.analyzers_v() == a0,
        decreases fms@.len() - i,
    {
        proof {
            assert(msv.skip(i as int)[0] == msv[i as int]);
            assert(msv.skip(i as int).drop_first() =~= msv.skip(i + 1));
        }
        match parse_filter_def(&fms[i].1) {
            Ok(fd) => {
                reg.insert_filter(fms[i].0.clone(), fd);
            },
            Err(e) => {
                return Err(IndexSettingsParseError::FilterParseError(fms[i].0.clone(), e));
            },
        }
        i = i + 1;
    }
    proof {
        assert(msv.skip(i as int).len() == 0);
    }
    Ok(())
}

fn apply_analyzer_defs(reg: &mut AnalyzerRegistry, ams: &Vec<(String, Json)>) -> (r: Result<
    (),
    IndexSettingsParseError,
>)
    ensures
        ({
            let step = spec_apply_analyzers(
                old(reg).analyzers_v(),
                members_view(ams@),
                old(reg).tokenizers_v(),
                old(reg).filters_v(),
            );
            &&& final(reg).analyzers_v() == step.0
            &&& final(reg).tokenizers_v() == old(reg).tokenizers_v()
            &&& final(reg).filters_v() == old(reg).filters_v()
            &&& (match r {
                Ok(_) => step.1 is None,
                Err(e) => step.1 == Some(e@),
            })
        }),
{
    proof {
        lemma_members_view(ams@);
    }
    let ghost msv = members_view(ams@);
    let ghost t0 = reg.tokenizers_v();
    let ghost f0 = reg.filters_v();
    let ghost a0 = reg.analyzers_v();
    let mut i: usize = 0;
    proof {
        assert(msv.skip(0) =~= msv);
    }
    while i < ams.len()
        invariant
            i <= ams@.len(),
            msv == members_view(ams@),
            msv.len() == ams@.len(),
            forall|j: int|
                0 <= j < ams@.len() ==> msv[j] == (ams@[j].0@, json_view(ams@[j].1)),
            t0 == old(reg).tokenizers_v(),
            f0 == old(reg).filters_v(),
            a0 == old(reg).analyzers_v(),
            spec_apply_analyzers(a0, msv, t0, f0) == spec_apply_analyzers(
                reg.analyzers_v(),
                msv.skip(i as int),
                t0,
                f0,
            ),
            reg.tokenizers_v() == t0,
            reg.filters_v() == f0,
        decreases ams@.len() - i,
    {
        proof {
            assert(msv.skip(i as int)[0] == msv[i as int]);
            assert(msv.skip(i as int).drop_first() =~= msv.skip(i + 1));
        }
        match parse_analyzer(&ams[i].1, reg) {
            Ok(an) => {
                reg.insert(ams[i].0.clone(), an);
            },
            Err(e) => {
                return Err(IndexSettingsParseError::AnalyzerParseError(ams[i].0.clone(), e));
            },
        }
        i = i + 1;
    }
    proof {
        assert(msv.skip(i as int).len() == 0);
    }
    Ok(())
}

/// Reads a settings document into the settings' analyzer registry:
/// tokenizer definitions first, then token filters, then analyzers, each in
/// document order. The walk stops at the first bad definition, keeping what
/// was registered before it; a document without `settings.analysis` changes
/// nothing.
pub fn parse(index_settings: &mut IndexSettings, data: Json) -> (r: Result<
    (),
    IndexSettingsParseError,
>)
    ensures
        ({
            let step = spec_apply_settings(
                old(index_settings).analyzers.tokenizers_v(),
                old(index_settings).analyzers.filters_v(),
                old(index_settings).analyzers.analyzers_v(),
                data@,
            );
            &&& final(index_settings).analyzers.tokenizers_v() == step.0
            &&& final(index_settings).analyzers.filters_v() == step.1
            &&& final(index_settings).analyzers.analyzers_v() == step.2
            &&& (match r {
                Ok(_) => step.3 is None,
                Err(e) => step.3 == Some(e@),
            })
        }),
{
    let ms = match &data {
        Json::Object(ms) => ms,
        _ => {
            return Err(IndexSettingsParseError::ExpectedObject);
        },
    };
    let sms = match Json::object_get(ms, "settings") {
        None => {
            return Ok(());
        },
        Some(v) => match v {
            Json::Object(sms) => sms,
            _ => {
                return Err(IndexSettingsParseError::ExpectedObject);
            },
        },
    };
    let ams = match Json::object_get(sms, "analysis") {
        None => {
            return Ok(());
        },
        Some(v) => match v {
            Json::Object(ams) => ams,
            _ => {
                return Err(IndexSettingsParseError::ExpectedObject);
            },
        },
    };
    match Json::object_get(ams, "tokenizer") {
        None => {},
        Some(v) => match v {
            Json::Object(tms) => {
                match apply_tokenizer_defs(&mut index_settings.analyzers, tms) {
                    Ok(_) => {},
                    Err(e) => {
                        return Err(e);
                    },
                }
            },
            _ => {
                return Err(IndexSettingsParseError::ExpectedObject);
            },
        },
    }
    match Json::object_get(ams, "filter") {
        None => {},
        Some(v) => match v {
            Json::Object(fms) => {
                match apply_filter_defs(&mut index_settings.analyzers, fms) {
                    Ok(_) => {},
                    Err(e) => {
                        return Err(e);
                    },
                }
            },
            _ => {
                return Err(IndexSettingsParseError::ExpectedObject);
            },
        },
    }
    match Json::object_get(ams, "analyzer") {
        None => {},
        Some(v) => match v {
            Json::Object(ams2) => {
                match apply_analyzer_defs(&mut index_settings.analyzers, ams2) {
                    Ok(_) => {},
                    Err(e) => {
                        return Err(e);
                    },
                }
            },
            _ => {
                return Err(IndexSettingsParseError::ExpectedObject);
            },
        },
    }
    Ok(())
}

} // verus!
