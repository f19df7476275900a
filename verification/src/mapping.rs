//! Field mappings: how a schema binds a field name to a type and to
//! analyzers, and how a raw JSON value becomes indexable tokens.
//!
//! `process_value_for_index` never errs: a value the field's type cannot
//! take yields `None`, which means "do not index this field for this
//! document" — distinct from indexing an empty token list.
use vstd::prelude::*;

use crate::analysis::{
    assoc_get, edgengram_analyzer, get_standard_analyzer, spec_analyze, standard_analyzer,
    string_from_chars, tokens_view, AnalyzerSpec, AnalyzerSpecV, TokenizerSpec,
};
use crate::json::{
    json_view, lemma_members_view, members_view, obj_get, str_eq, Json, JsonV,
};
use crate::term::{parse_rfc3339, rfc3339_instant, DateTime, Term, TermV, Token, TokenV};

verus! {

broadcast use vstd::std_specs::vec::group_vec_axioms;

/// The declared type of a field.
#[derive(Debug, Clone, Copy, PartialEq, Eq, Structural)]
pub enum FieldType {
    String,
    Integer,
    Boolean,
    Date,
}

impl Default for FieldType {
    /// A field is a string field unless declared otherwise.
    fn default() -> (r: FieldType)
        ensures
            r == FieldType::String,
    {
        FieldType::String
    }
}

/// A JSON number as configuration carries it; the library never computes
/// with it.
#[derive(Debug, Clone, PartialEq)]
pub enum Number {
    U64(u64),
    I64(i64),
    Float(String),
}

/// The mathematical value of a `Number`.
pub ghost enum NumberV {
    U64(u64),
    I64(i64),
    Float(Seq<char>),
}

impl View for Number {
    type V = NumberV;

    open spec fn view(&self) -> NumberV {
        match self {
            Number::U64(n) => NumberV::U64(*n),
            Number::I64(n) => NumberV::I64(*n),
            Number::Float(s) => NumberV::Float(s@),
        }
    }
}

/// The similarity model a search uses; its parameters are configuration,
/// carried but never computed with here.
#[derive(Debug, Clone, PartialEq)]
pub enum SimilarityModel {
    Bm25 { k1: Number, b: Number },
}

/// The mathematical value of a `SimilarityModel`.
pub ghost enum SimilarityModelV {
    Bm25 { k1: NumberV, b: NumberV },
}

impl View for SimilarityModel {
    type V = SimilarityModelV;

    open spec fn view(&self) -> SimilarityModelV {
        match self {
            SimilarityModel::Bm25 { k1, b } => SimilarityModelV::Bm25 { k1: k1@, b: b@ },
        }
    }
}

/// The default similarity model: BM25 with k1 = 1.2 and b = 0.75.
pub open spec fn default_similarity() -> SimilarityModelV {
    SimilarityModelV::Bm25 { k1: NumberV::Float("1.2"@), b: NumberV::Float("0.75"@) }
}

fn default_similarity_exec() -> (r: SimilarityModel)
    ensures
        r@ == default_similarity(),
{
    SimilarityModel::Bm25 {
        k1: Number::Float(String::from_str("1.2")),
        b: Number::Float(String::from_str("0.75")),
    }
}

/// What a search over a field needs: the analyzer to run the query text
/// through, and the similarity model.
#[derive(Debug, PartialEq)]
pub struct FieldSearchOptions {
    pub analyzer: AnalyzerSpec,
    pub similarity_model: SimilarityModel,
}

/// The mathematical value of `FieldSearchOptions`.
pub ghost struct FieldSearchOptionsV {
    pub analyzer: AnalyzerSpecV,
    pub similarity_model: SimilarityModelV,
}

impl View for FieldSearchOptions {
    type V = FieldSearchOptionsV;

    open spec fn view(&self) -> FieldSearchOptionsV {
        FieldSearchOptionsV { analyzer: self.analyzer@, similarity_model: self.similarity_model@ }
    }
}

impl Default for FieldSearchOptions {
    /// The standard analyzer with the default similarity model.
    fn default() -> (r: FieldSearchOptions)
        ensures
            r@.analyzer == standard_analyzer(),
            r@.similarity_model == default_similarity(),
    {
        FieldSearchOptions {
            analyzer: get_standard_analyzer(),
            similarity_model: default_similarity_exec(),
        }
    }
}

/// Per-field configuration: the declared type, storage and catch-all flags,
/// the boost weight, and the analyzers. The index and search analyzers fall
/// back to the base analyzer when not overridden.
#[derive(Debug, PartialEq)]
pub struct FieldMapping {
    pub data_type: FieldType,
    pub is_stored: bool,
    pub is_in_all: bool,
    pub boost: Number,
    pub base_analyzer: AnalyzerSpec,
    pub index_analyzer: Option<AnalyzerSpec>,
    pub search_analyzer: Option<AnalyzerSpec>,
}

/// The mathematical value of a `FieldMapping`.
pub ghost struct FieldMappingV {
    pub data_type: FieldType,
    pub is_stored: bool,
    pub is_in_all: bool,
    pub boost: NumberV,
    pub base_analyzer: AnalyzerSpecV,
    pub index_analyzer: Option<AnalyzerSpecV>,
    pub search_analyzer: Option<AnalyzerSpecV>,
}

impl View for FieldMapping {
    type V = FieldMappingV;

    open spec fn view(&self) -> FieldMappingV {
        FieldMappingV {
            data_type: self.data_type,
            is_stored: self.is_stored,
            is_in_all: self.is_in_all,
            boost: self.boost@,
            base_analyzer: self.base_analyzer@,
            index_analyzer: match self.index_analyzer {
                Some(a) => Some(a@),
                None => None,
            },
            search_analyzer: match self.search_analyzer {
                Some(a) => Some(a@),
                None => None,
            },
        }
    }
}

/// The default field mapping: a string field, not stored, included in the
/// catch-all field, boost 1, analyzed with the standard analyzer.
pub open spec fn default_field_mapping() -> FieldMappingV {
    FieldMappingV {
        data_type: FieldType::String,
        is_stored: false,
        is_in_all: true,
        boost: NumberV::U64(1),
        base_analyzer: standard_analyzer(),
        index_analyzer: None,
        search_analyzer: None,
    }
}

impl Default for FieldMapping {
    fn default() -> (r: FieldMapping)
        ensures
            r@ == default_field_mapping(),
    {
        FieldMapping {
            data_type: FieldType::String,
            is_stored: false,
            is_in_all: true,
            boost: Number::U64(1),
            base_analyzer: get_standard_analyzer(),
            index_analyzer: None,
            search_analyzer: None,
        }
    }
}

impl FieldMappingV {
    /// The analyzer used when indexing this field.
    pub open spec fn index_analyzer_resolved(self) -> AnalyzerSpecV {
        match self.index_analyzer {
            Some(a) => a,
            None => self.base_analyzer,
        }
    }

    /// The analyzer used when searching this field.
    pub open spec fn search_analyzer_resolved(self) -> AnalyzerSpecV {
        match self.search_analyzer {
            Some(a) => a,
            None => self.base_analyzer,
        }
    }
}

/// The decimal digit as a character.
pub open spec fn digit_char(d: int) -> char {
    if d == 0 {
        '0'
    } else if d == 1 {
        '1'
    } else if d == 2 {
        '2'
    } else if d == 3 {
        '3'
    } else if d == 4 {
        '4'
    } else if d == 5 {
        '5'
    } else if d == 6 {
        '6'
    } else if d == 7 {
        '7'
    } else if d == 8 {
        '8'
    } else {
        '9'
    }
}

/// The decimal text of a number, most significant digit first.
pub open spec fn dec_chars(n: nat) -> Seq<char>
    decreases n,
{
    if n < 10 {
        seq![digit_char(n as int)]
    } else {
        dec_chars(n / 10).push(digit_char((n % 10) as int))
    }
}

/// The decimal text of a signed number, with a leading minus sign when
/// negative.
pub open spec fn i64_dec_chars(n: i64) -> Seq<char> {
    if n >= 0 {
        dec_chars(n as nat)
    } else {
        seq!['-'] + dec_chars((-(n as int)) as nat)
    }
}

fn digit_char_exec(d: u64) -> (r: char)
    requires
        d < 10,
    ensures
        r == digit_char(d as int),
{
    if d == 0 {
        '0'
    } else if d == 1 {
        '1'
    } else if d == 2 {
        '2'
    } else if d == 3 {
        '3'
    } else if d == 4 {
        '4'
    } else if d == 5 {
        '5'
    } else if d == 6 {
        '6'
    } else if d == 7 {
        '7'
    } else if d == 8 {
        '8'
    } else {
        '9'
    }
}

fn push_dec_chars(out: &mut Vec<char>, n: u64)
    ensures
        final(out)@ == old(out)@ + dec_chars(n as nat),
    decreases n,
{
    if n < 10 {
        out.push(digit_char_exec(n));
        proof {
            assert(out@ =~= old(out)@ + dec_chars(n as nat));
        }
    } else {
        push_dec_chars(out, n / 10);
        out.push(digit_char_exec(n % 10));
        proof {
            assert(out@ =~= old(out)@ + dec_chars(n as nat));
        }
    }
}

/// The decimal text of a number.
pub fn u64_to_decimal_string(n: u64) -> (r: String)
    ensures
        r@ == dec_chars(n as nat),
{
    let mut chars: Vec<char> = Vec::new();
    push_dec_chars(&mut chars, n);
    proof {
        assert(chars@ =~= dec_chars(n as nat));
    }
    string_from_chars(&chars)
}

/// The decimal text of a signed number.
pub fn i64_to_decimal_string(n: i64) -> (r: String)
    ensures
        r@ == i64_dec_chars(n),
{
    let mut chars: Vec<char> = Vec::new();
    if n >= 0 {
        push_dec_chars(&mut chars, n as u64);
        proof {
            assert(chars@ =~= i64_dec_chars(n));
        }
    } else {
        chars.push('-');
        let magnitude = ((-(n + 1)) as u64) + 1;
        proof {
            assert(magnitude == (-(n as int)) as nat);
        }
        push_dec_chars(&mut chars, magnitude);
        proof {
            assert(chars@ =~= i64_dec_chars(n));
        }
    }
    string_from_chars(&chars)
}

/// How a value coerces to a boolean: a JSON boolean passes through; the
/// string `"yes"` is true and `"no"` is false; anything else is false.
pub open spec fn spec_parse_boolean(v: JsonV) -> bool {
    match v {
        JsonV::Boolean(b) => b,
        JsonV::String(s) => s == "yes"@,
        _ => false,
    }
}

/// Whether a value is a recognised boolean form: a JSON boolean, or one of
/// the strings `"yes"` and `"no"`. Anything else coerces to false with this
/// flag cleared, as a non-fatal diagnostic.
pub open spec fn spec_boolean_recognised(v: JsonV) -> bool {
    match v {
        JsonV::Boolean(_) => true,
        JsonV::String(s) => s == "yes"@ || s == "no"@,
        _ => false,
    }
}

/// Coerces a value to a boolean; the second result says whether the value
/// was a recognised boolean form (false marks the lossy default).
pub fn parse_boolean(json: &Json) -> (r: (bool, bool))
    ensures
        r.0 == spec_parse_boolean(json@),
        r.1 == spec_boolean_recognised(json@),
{
    match json {
        Json::Boolean(b) => (*b, true),
        Json::String(s) => {
            if str_eq(s.as_str(), "yes") {
                (true, true)
            } else if str_eq(s.as_str(), "no") {
                (false, true)
            } else {
                (false, false)
            }
        },
        _ => (false, false),
    }
}

/// The texts of the string elements of an array, nulls skipped; an element
/// of any other kind rejects the whole array.
pub open spec fn collect_strings(els: Seq<JsonV>) -> Option<Seq<Seq<char>>>
    decreases els.len(),
{
    if els.len() == 0 {
        Some(Seq::empty())
    } else {
        match els[0] {
            JsonV::String(s) => match collect_strings(els.drop_first()) {
                Some(rest) => Some(seq![s] + rest),
                None => None,
            },
            JsonV::Null => collect_strings(els.drop_first()),
            _ => None,
        }
    }
}

/// Texts joined with a single space between consecutive parts.
pub open spec fn join_spaces(parts: Seq<Seq<char>>) -> Seq<char> {
    if parts.len() == 0 {
        Seq::empty()
    } else {
        parts[0] + join_tail(parts.drop_first())
    }
}

/// A space before each part, concatenated.
pub open spec fn join_tail(parts: Seq<Seq<char>>) -> Seq<char>
    decreases parts.len(),
{
    if parts.len() == 0 {
        Seq::empty()
    } else {
        seq![' '] + parts[0] + join_tail(parts.drop_first())
    }
}

/// What indexing a value under a field mapping yields: `None` means "do not
/// index this field for this document". A string field analyzes the text;
/// numbers are first written in decimal and analyzed as text; an array of
/// strings (nulls skipped) is joined with spaces and analyzed as one text;
/// an integer or boolean field takes a single token at position 1; a date
/// field takes the instant its RFC 3339 text denotes, and rejects numbers.
pub open spec fn spec_process_value(m: FieldMappingV, v: JsonV) -> Option<Seq<TokenV>> {
    if v is Null {
        None
    } else {
        match m.data_type {
            FieldType::String => {
                let analyzer = m.index_analyzer_resolved();
                match v {
                    JsonV::String(s) => Some(spec_analyze(analyzer, s)),
                    JsonV::I64(n) => Some(spec_analyze(analyzer, i64_dec_chars(n))),
                    JsonV::U64(n) => Some(spec_analyze(analyzer, dec_chars(n as nat))),
                    JsonV::Float(s) => Some(spec_analyze(analyzer, s)),
                    JsonV::Array(els) => match collect_strings(els) {
                        Some(parts) => Some(spec_analyze(analyzer, join_spaces(parts))),
                        None => None,
                    },
                    _ => None,
                }
            },
            FieldType::Integer => match v {
                JsonV::U64(n) => Some(
                    seq![TokenV { term: TermV::I64(n as i64), position: 1 }],
                ),
                JsonV::I64(n) => Some(seq![TokenV { term: TermV::I64(n), position: 1 }]),
                _ => None,
            },
            FieldType::Boolean => Some(
                seq![TokenV { term: TermV::Boolean(spec_parse_boolean(v)), position: 1 }],
            ),
            FieldType::Date => match v {
                JsonV::String(s) => match rfc3339_instant(s) {
                    Some((seconds, nanos)) => Some(
                        seq![
                            TokenV {
                                term: TermV::DateTime(DateTime { seconds, nanos }),
                                position: 1,
                            },
                        ],
                    ),
                    None => None,
                },
                _ => None,
            },
        }
    }
}


fn join_with_spaces(parts: &Vec<String>) -> (r: String)
    ensures
        r@ == join_spaces(parts.deep_view()),
{
    let ghost pv = parts.deep_view();
    proof {
        crate::analysis::lemma_strings_deep_view(parts);
    }
    if parts.len() == 0 {
        let r = String::new();
        proof {
            assert(r@ =~= join_spaces(pv));
        }
        return r;
    }
    let mut joined: String = parts[0].clone();
    let mut i: usize = 1;
    proof {
        assert(pv.skip(1) =~= pv.drop_first());
        assert(join_spaces(pv) == pv[0] + join_tail(pv.skip(1)));
    }
    while i < parts.len()
        invariant
            1 <= i <= parts@.len(),
            pv.len() == parts@.len(),
            forall|j: int| 0 <= j < parts@.len() ==> pv[j] == parts@[j]@,
            join_spaces(pv) == joined@ + join_tail(pv.skip(i as int)),
        decreases parts@.len() - i,
    {
        proof {
            assert(pv.skip(i as int)[0] == pv[i as int]);
            assert(pv.skip(i as int).drop_first() =~= pv.skip(i + 1));
        }
        joined.append(" ");
        joined.append(parts[i].as_str());
        proof {
            reveal_strlit(" ");
            assert(join_tail(pv.skip(i as int)) == seq![' '] + pv[i as int] + join_tail(
                pv.skip(i + 1),
            ));
            assert(joined@ + join_tail(pv.skip(i + 1)) =~= join_spaces(pv));
        }
        i = i + 1;
    }
    proof {
        assert(pv.skip(i as int).len() == 0);
        assert(joined@ =~= join_spaces(pv));
    }
    joined
}

impl FieldMapping {
    /// The analyzer used when indexing this field: the override when one is
    /// set, else the base analyzer.
    pub fn index_analyzer(&self) -> (r: &AnalyzerSpec)
        ensures
            r@ == self@.index_analyzer_resolved(),
    {
        match &self.index_analyzer {
            Some(a) => a,
            None => &self.base_analyzer,
        }
    }

    /// The analyzer used when searching this field: the override when one
    /// is set, else the base analyzer.
    pub fn search_analyzer(&self) -> (r: &AnalyzerSpec)
        ensures
            r@ == self@.search_analyzer_resolved(),
    {
        match &self.search_analyzer {
            Some(a) => a,
            None => &self.base_analyzer,
        }
    }

    /// What a search over this field needs: its search analyzer, with the
    /// default similarity model.
    pub fn get_search_options(&self) -> (r: FieldSearchOptions)
        ensures
            r@.analyzer == self@.search_analyzer_resolved(),
            r@.similarity_model == default_similarity(),
    {
        FieldSearchOptions {
            analyzer: self.search_analyzer().duplicate(),
            similarity_model: default_similarity_exec(),
        }
    }

    /// Turns a raw value into the tokens to index for this field, or
    /// `None` when the value cannot be indexed under the field's type.
    pub fn process_value_for_index(&self, value: Json) -> (r: Option<Vec<Token>>)
        ensures
            match r {
                Some(toks) => spec_process_value(self@, value@) == Some(tokens_view(toks@)),
                None => spec_process_value(self@, value@) is None,
            },
    {
        if let Json::Null = value {
            return None;
        }
        match self.data_type {
            FieldType::String => {
                let analyzer = self.index_analyzer();
                match &value {
                    Json::String(s) => Some(analyzer.analyze(s.as_str())),
                    Json::I64(n) => {
                        let text = i64_to_decimal_string(*n);
                        Some(analyzer.analyze(text.as_str()))
                    },
                    Json::U64(n) => {
                        let text = u64_to_decimal_string(*n);
                        Some(analyzer.analyze(text.as_str()))
                    },
                    Json::Float(s) => Some(analyzer.analyze(s.as_str())),
                    Json::Array(els) => {
                        proof {
                            crate::json::lemma_jsons_view(els@);
                        }
                        let ghost ev = crate::json::jsons_view(els@);
                        let mut parts: Vec<String> = Vec::new();
                        let mut i: usize = 0;
                        proof {
                            assert(ev.skip(0) =~= ev);
                            assert(collect_strings(ev) matches Some(ps) ==> Seq::<
                                Seq<char>,
                            >::empty() + ps =~= ps);
                        }
                        while i < els.len()
                            invariant
                                i <= els@.len(),
                                ev == crate::json::jsons_view(els@),
                                ev.len() == els@.len(),
                                self.data_type == FieldType::String,
                                value@ == JsonV::Array(ev),
                                forall|j: int|
                                    0 <= j < els@.len() ==> ev[j] == json_view(els@[j]),
                                match collect_strings(ev.skip(i as int)) {
                                    Some(rest) => collect_strings(ev) == Some(
                                        parts.deep_view() + rest,
                                    ),
                                    None => collect_strings(ev) is None,
                                },
                            decreases els@.len() - i,
                        {
                            proof {
                                crate::analysis::lemma_strings_deep_view(&parts);
                                assert(ev.skip(i as int)[0] == ev[i as int]);
                                assert(ev.skip(i as int).drop_first() =~= ev.skip(i + 1));
                            }
                            let ghost prev = parts.deep_view();
                            match &els[i] {
                                Json::String(s) => {
                                    parts.push(s.clone());
                                    proof {
                                        crate::analysis::lemma_strings_deep_view(&parts);
                                        if collect_strings(ev.skip(i + 1)) is Some {
                                            let rest = collect_strings(ev.skip(i + 1))->Some_0;
                                            assert(parts.deep_view() =~= prev + seq![s@]);
                                            assert(prev + (seq![s@] + rest) =~= parts.deep_view()
                                                + rest);
                                        }
                                    }
                                },
                                Json::Null => {
                                },
                                _ => {
                                    return None;
                                },
                            }
                            i = i + 1;
                        }
                        proof {
                            assert(ev.skip(i as int) =~= Seq::<JsonV>::empty());
                            assert(parts.deep_view() + Seq::<Seq<char>>::empty()
                                =~= parts.deep_view());
                        }
                        let joined = join_with_spaces(&parts);
                        Some(analyzer.analyze(joined.as_str()))
                    },
                    _ => None,
                }
            },
            FieldType::Integer => match &value {
                Json::U64(n) => {
                    let term = Term::I64(#[verifier::truncate] (*n as i64));
                    let mut toks: Vec<Token> = Vec::new();
                    toks.push(Token { term, position: 1 });
                    proof {
                        assert(tokens_view(toks@) =~= spec_process_value(
                            self@,
                            value@,
                        )->Some_0);
                    }
                    Some(toks)
                },
                Json::I64(n) => {
                    let mut toks: Vec<Token> = Vec::new();
                    toks.push(Token { term: Term::I64(*n), position: 1 });
                    proof {
                        assert(tokens_view(toks@) =~= spec_process_value(
                            self@,
                            value@,
                        )->Some_0);
                    }
                    Some(toks)
                },
                _ => None,
            },
            FieldType::Boolean => {
                let (b, _recognised) = parse_boolean(&value);
                let mut toks: Vec<Token> = Vec::new();
                toks.push(Token { term: Term::Boolean(b), position: 1 });
                proof {
                    assert(tokens_view(toks@) =~= spec_process_value(self@, value@)->Some_0);
                }
                Some(toks)
            },
            FieldType::Date => match &value {
                Json::String(s) => match parse_rfc3339(s.as_str()) {
                    Some(instant) => {
                        let mut toks: Vec<Token> = Vec::new();
                        toks.push(Token { term: Term::DateTime(instant), position: 1 });
                        proof {
                            assert(tokens_view(toks@) =~= spec_process_value(
                                self@,
                                value@,
                            )->Some_0);
                        }
                        Some(toks)
                    },
                    None => None,
                },
                _ => None,
            },
        }
    }

    /// Turns a query's literal into the same term space the field was
    /// indexed with; currently identical to indexing.
    pub fn process_value_for_query(&self, value: Json) -> (r: Option<Vec<Token>>)
        ensures
            match r {
                Some(toks) => spec_process_value(self@, value@) == Some(tokens_view(toks@)),
                None => spec_process_value(self@, value@) is None,
            },
    {
        self.process_value_for_index(value)
    }
}

/// One configuration entry applied to a field mapping, by key:
/// `type` picks the field type (an unrecognised or non-string type name
/// falls back to the default type); `index` set to `not_analyzed` makes the
/// base analyzer pass the text through verbatim; `index_analyzer` set to
/// `edgengram_analyzer` selects the built-in edge-n-gram analyzer;
/// `boost` takes the number given; `store` and `include_in_all` coerce
/// their value as booleans. Anything else leaves the mapping unchanged.
pub open spec fn apply_mapping_entry(m: FieldMappingV, key: Seq<char>, v: JsonV) -> FieldMappingV {
    if key == "type"@ {
        match v {
            JsonV::String(t) => FieldMappingV {
                data_type: if t == "string"@ {
                    FieldType::String
                } else if t == "integer"@ {
                    FieldType::Integer
                } else if t == "boolean"@ {
                    FieldType::Boolean
                } else if t == "date"@ {
                    FieldType::Date
                } else {
                    FieldType::String
                },
                ..m
            },
            _ => m,
        }
    } else if key == "index"@ {
        match v {
            JsonV::String(t) => if t == "not_analyzed"@ {
                FieldMappingV {
                    base_analyzer: AnalyzerSpecV {
                        tokenizer: TokenizerSpec::Verbatim,
                        filters: Seq::empty(),
                    },
                    ..m
                }
            } else {
                m
            },
            _ => m,
        }
    } else if key == "index_analyzer"@ {
        match v {
            JsonV::String(t) => if t == "edgengram_analyzer"@ {
                FieldMappingV { index_analyzer: Some(edgengram_analyzer()), ..m }
            } else {
                m
            },
            _ => m,
        }
    } else if key == "boost"@ {
        match v {
            JsonV::U64(n) => FieldMappingV { boost: NumberV::U64(n), ..m },
            JsonV::I64(n) => FieldMappingV { boost: NumberV::I64(n), ..m },
            JsonV::Float(t) => FieldMappingV { boost: NumberV::Float(t), ..m },
            _ => m,
        }
    } else if key == "store"@ {
        FieldMappingV { is_stored: spec_parse_boolean(v), ..m }
    } else if key == "include_in_all"@ {
        FieldMappingV { is_in_all: spec_parse_boolean(v), ..m }
    } else {
        m
    }
}

/// The configuration entries applied in order, later entries over earlier
/// ones.
pub open spec fn apply_mapping_entries(
    m: FieldMappingV,
    members: Seq<(Seq<char>, JsonV)>,
) -> FieldMappingV
    decreases members.len(),
{
    if members.len() == 0 {
        m
    } else {
        apply_mapping_entries(
            apply_mapping_entry(m, members[0].0, members[0].1),
            members.drop_first(),
        )
    }
}

/// What a field-mapping definition yields: the default mapping with each
/// member applied in order; a definition that is not an object yields
/// nothing.
pub open spec fn spec_field_mapping_from(j: JsonV) -> Option<FieldMappingV> {
    match j {
        JsonV::Object(ms) => Some(apply_mapping_entries(default_field_mapping(), ms)),
        _ => None,
    }
}

fn verbatim_analyzer_exec() -> (r: AnalyzerSpec)
    ensures
        r@ == (AnalyzerSpecV { tokenizer: TokenizerSpec::Verbatim, filters: Seq::empty() }),
{
    let r = AnalyzerSpec { tokenizer: TokenizerSpec::Verbatim, filters: Vec::new() };
    proof {
        assert(r@.filters =~= Seq::<crate::analysis::FilterSpec>::empty());
    }
    r
}

impl FieldMapping {
    /// Reads a field-mapping definition: the default mapping with each
    /// member applied in order. A definition that is not an object yields
    /// `None`.
    pub fn from_json(json: &Json) -> (r: Option<FieldMapping>)
        ensures
            match r {
                Some(m) => spec_field_mapping_from(json@) == Some(m@),
                None => spec_field_mapping_from(json@) is None,
            },
    {
        let members = match json {
            Json::Object(ms) => ms,
            _ => {
                return None;
            },
        };
        proof {
            lemma_members_view(members@);
        }
        let ghost msv = members_view(members@);
        let mut m = FieldMapping::default();
        let mut i: usize = 0;
        proof {
            assert(msv.skip(0) =~= msv);
        }
        while i < members.len()
            invariant
                i <= members@.len(),
                msv == members_view(members@),
                msv.len() == members@.len(),
                forall|j: int|
                    0 <= j < members@.len() ==> msv[j] == (members@[j].0@, json_view(
                        members@[j].1,
                    )),
                apply_mapping_entries(default_field_mapping(), msv) == apply_mapping_entries(
                    m@,
                    msv.skip(i as int),
                ),
            decreases members@.len() - i,
        {
            proof {
                assert(msv.skip(i as int)[0] == msv[i as int]);
                assert(msv.skip(i as int).drop_first() =~= msv.skip(i + 1));
            }
            let key = &members[i].0;
            let v = &members[i].1;
            if str_eq(key.as_str(), "type") {
                if let Json::String(t) = v {
                    if str_eq(t.as_str(), "string") {
                        m.data_type = FieldType::String;
                    } else if str_eq(t.as_str(), "integer") {
                        m.data_type = FieldType::Integer;
                    } else if str_eq(t.as_str(), "boolean") {
                        m.data_type = FieldType::Boolean;
                    } else if str_eq(t.as_str(), "date") {
                        m.data_type = FieldType::Date;
                    } else {
                        m.data_type = FieldType::String;
                    }
                }
            } else if str_eq(key.as_str(), "index") {
                if let Json::String(t) = v {
                    if str_eq(t.as_str(), "not_analyzed") {
                        m.base_analyzer = verbatim_analyzer_exec();
                    }
                }
            } else if str_eq(key.as_str(), "index_analyzer") {
                if let Json::String(t) = v {
                    if str_eq(t.as_str(), "edgengram_analyzer") {
                        m.index_analyzer = Some(crate::analysis::get_edgengram_analyzer());
                    }
                }
            } else if str_eq(key.as_str(), "boost") {
                match v {
                    Json::U64(n) => {
                        m.boost = Number::U64(*n);
                    },
                    Json::I64(n) => {
                        m.boost = Number::I64(*n);
                    },
                    Json::Float(t) => {
                        m.boost = Number::Float(t.clone());
                    },
                    _ => {},
                }
            } else if str_eq(key.as_str(), "store") {
                let (b, _recognised) = parse_boolean(v);
                m.is_stored = b;
            } else if str_eq(key.as_str(), "include_in_all") {
                let (b, _recognised) = parse_boolean(v);
                m.is_in_all = b;
            }
            i = i + 1;
        }
        proof {
            assert(msv.skip(i as int).len() == 0);
        }
        Some(m)
    }
}

/// The field mappings of one document type, looked up by field name.
#[derive(Debug)]
pub struct Mapping {
    pub fields: Vec<(String, FieldMapping)>,
}

/// The mathematical value of a `Mapping`.
pub ghost struct MappingV {
    pub fields: Seq<(Seq<char>, FieldMappingV)>,
}

impl View for Mapping {
    type V = MappingV;

    open spec fn view(&self) -> MappingV {
        MappingV { fields: Seq::new(self.fields@.len(), |i: int| (self.fields@[i].0@, self.fields@[i].1@)) }
    }
}

/// The named field mappings a `properties` object defines, in order; a
/// member whose definition is not an object is left out.
pub open spec fn collect_field_mappings(props: Seq<(Seq<char>, JsonV)>) -> Seq<
    (Seq<char>, FieldMappingV),
>
    decreases props.len(),
{
    if props.len() == 0 {
        Seq::empty()
    } else {
        match spec_field_mapping_from(props[0].1) {
            Some(m) => seq![(props[0].0, m)] + collect_field_mappings(props.drop_first()),
            None => collect_field_mappings(props.drop_first()),
        }
    }
}

/// What a mapping definition yields: the field mappings under its
/// `properties` object. A definition without such an object yields nothing.
pub open spec fn spec_mapping_from(j: JsonV) -> Option<MappingV> {
    match j {
        JsonV::Object(ms) => match obj_get(ms, "properties"@) {
            Some(JsonV::Object(props)) => Some(
                MappingV { fields: collect_field_mappings(props) },
            ),
            _ => None,
        },
        _ => None,
    }
}

impl Mapping {
    /// Reads a mapping definition from its `properties` object.
    pub fn from_json(json: &Json) -> (r: Option<Mapping>)
        ensures
            match r {
                Some(m) => spec_mapping_from(json@) == Some(m@),
                None => spec_mapping_from(json@) is None,
            },
    {
        let members = match json {
            Json::Object(ms) => ms,
            _ => {
                return None;
            },
        };
        let props = match Json::object_get(members, "properties") {
            Some(v) => match v {
                Json::Object(props) => props,
                _ => {
                    return None;
                },
            },
            None => {
                return None;
            },
        };
        proof {
            lemma_members_view(props@);
        }
        let ghost pv = members_view(props@);
        let mut fields: Vec<(String, FieldMapping)> = Vec::new();
        let mut i: usize = 0;
        proof {
            assert(pv.skip(0) =~= pv);
            assert(Seq::<(Seq<char>, FieldMappingV)>::empty() + collect_field_mappings(pv)
                =~= collect_field_mappings(pv));
        }
        while i < props.len()
            invariant
                i <= props@.len(),
                pv == members_view(props@),
                pv.len() == props@.len(),
                forall|j: int|
                    0 <= j < props@.len() ==> pv[j] == (props@[j].0@, json_view(props@[j].1)),
                collect_field_mappings(pv) == Seq::new(
                    fields@.len(),
                    |k: int| (fields@[k].0@, fields@[k].1@),
                ) + collect_field_mappings(pv.skip(i as int)),
            decreases props@.len() - i,
        {
            proof {
                assert(pv.skip(i as int)[0] == pv[i as int]);
                assert(pv.skip(i as int).drop_first() =~= pv.skip(i + 1));
            }
            let ghost prev = Seq::new(fields@.len(), |k: int| (fields@[k].0@, fields@[k].1@));
            match FieldMapping::from_json(&props[i].1) {
                Some(fm) => {
                    fields.push((props[i].0.clone(), fm));
                    proof {
                        let cur = Seq::new(
                            fields@.len(),
                            |k: int| (fields@[k].0@, fields@[k].1@),
                        );
                        assert(cur =~= prev + seq![(props@[i as int].0@, fields@[
                            fields@.len() - 1].1@)]);
                        assert(prev + (seq![(pv[i as int].0, spec_field_mapping_from(
                            pv[i as int].1,
                        )->Some_0)] + collect_field_mappings(pv.skip(i + 1))) =~= cur
                            + collect_field_mappings(pv.skip(i + 1)));
                    }
                },
                None => {
                },
            }
            i = i + 1;
        }
        proof {
            assert(pv.skip(i as int).len() == 0);
            assert(Seq::new(fields@.len(), |k: int| (fields@[k].0@, fields@[k].1@))
                + Seq::<(Seq<char>, FieldMappingV)>::empty() =~= Seq::new(
                fields@.len(),
                |k: int| (fields@[k].0@, fields@[k].1@),
            ));
        }
        Some(Mapping { fields })
    }

    /// The field mapping registered under a name, if any.
    pub fn field<'a>(&'a self, name: &str) -> (r: Option<&'a FieldMapping>)
        ensures
            match r {
                Some(fm) => assoc_get(self@.fields, name@) == Some(fm@),
                None => assoc_get(self@.fields, name@) is None,
            },
    {
        let ghost fv = self@.fields;
        let mut i: usize = 0;
        proof {
            assert(fv.skip(0) =~= fv);
        }
        while i < self.fields.len()
            invariant
                i <= self.fields@.len(),
                fv == self@.fields,
                fv.len() == self.fields@.len(),
                forall|j: int|
                    0 <= j < fv.len() ==> fv[j] == (self.fields@[j].0@, self.fields@[j].1@),
                assoc_get(fv, name@) == assoc_get(fv.skip(i as int), name@),
            decreases self.fields@.len() - i,
        {
            proof {
                assert(fv.skip(i as int)[0] == fv[i as int]);
                assert(fv.skip(i as int).drop_first() =~= fv.skip(i + 1));
            }
            if str_eq(self.fields[i].0.as_str(), name) {
                return Some(&self.fields[i].1);
            }
            i = i + 1;
        }
        proof {
            assert(fv.skip(i as int).len() == 0);
        }
        None
    }
}

/// The mappings of all document types, by type name; field lookup walks the
/// types in registration order, newest first, so it is deterministic.
#[derive(Debug)]
pub struct MappingRegistry {
    mappings: Vec<(String, Mapping)>,
}

impl MappingRegistry {
    /// The registered mappings, newest first.
    pub closed spec fn mappings_v(self) -> Seq<(Seq<char>, MappingV)> {
        Seq::new(self.mappings@.len(), |i: int| (self.mappings@[i].0@, self.mappings@[i].1@))
    }

    /// An empty registry.
    pub fn new() -> (r: MappingRegistry)
        ensures
            r.mappings_v().len() == 0,
    {
        let r = MappingRegistry { mappings: Vec::new() };
        proof {
            assert(r.mappings_v() =~= Seq::<(Seq<char>, MappingV)>::empty());
        }
        r
    }

    /// Registers a document type's mapping; a later registration of the
    /// same type name shadows an earlier one.
    pub fn insert_mapping(&mut self, doc_type: String, mapping: Mapping)
        ensures
            final(self).mappings_v() == seq![(doc_type@, mapping@)] + old(self).mappings_v(),
    {
        self.mappings.insert(0, (doc_type, mapping));
        proof {
            assert(self.mappings_v() =~= seq![(self.mappings@[0].0@, self.mappings@[0].1@)]
                + old(self).mappings_v());
        }
    }

    /// The first field mapping found under a name, across all registered
    /// types in registration order, newest first.
    pub open spec fn spec_get_field(
        mappings: Seq<(Seq<char>, MappingV)>,
        name: Seq<char>,
    ) -> Option<FieldMappingV>
        decreases mappings.len(),
    {
        if mappings.len() == 0 {
            None
        } else {
            match assoc_get(mappings[0].1.fields, name) {
                Some(fm) => Some(fm),
                None => MappingRegistry::spec_get_field(mappings.drop_first(), name),
            }
        }
    }

    /// Looks a field up by name across all registered types; the first
    /// mapping that defines the field answers.
    pub fn get_field<'a>(&'a self, name: &str) -> (r: Option<&'a FieldMapping>)
        ensures
            match r {
                Some(fm) => MappingRegistry::spec_get_field(self.mappings_v(), name@) == Some(
                    fm@,
                ),
                None => MappingRegistry::spec_get_field(self.mappings_v(), name@) is None,
            },
    {
        let ghost mv = self.mappings_v();
        let mut i: usize = 0;
        proof {
            assert(mv.skip(0) =~= mv);
        }
        while i < self.mappings.len()
            invariant
                i <= self.mappings@.len(),
                mv == self.mappings_v(),
                mv.len() == self.mappings@.len(),
                forall|j: int|
                    0 <= j < mv.len() ==> mv[j] == (self.mappings@[j].0@, self.mappings@[j].1@),
                MappingRegistry::spec_get_field(mv, name@) == MappingRegistry::spec_get_field(
                    mv.skip(i as int),
                    name@,
                ),
            decreases self.mappings@.len() - i,
        {
            proof {
                assert(mv.skip(i as int)[0] == mv[i as int]);
                assert(mv.skip(i as int).drop_first() =~= mv.skip(i + 1));
            }
            match self.mappings[i].1.field(name) {
                Some(fm) => {
                    return Some(fm);
                },
                None => {
                },
            }
            i = i + 1;
        }
        proof {
            assert(mv.skip(i as int).len() == 0);
        }
        None
    }
}

} // verus!
