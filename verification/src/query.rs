//! The query and filter DSL: recursive ASTs, their JSON parsers, and the
//! direct (non-indexed) filter evaluator.
//!
//! A query or filter arrives as a JSON object and is dispatched on its first
//! member's name. Query parsing is strict: an unrecognised query name is an
//! error. Filter parsing is deliberately not: an object with no recognised
//! filter name parses to the sentinel `term` filter on field `"not"` with
//! value `"implemented"`, which never matches a real document. That
//! asymmetry is inherited behaviour and is kept.
use vstd::prelude::*;

use crate::json::{
    json_view, jsons_view, lemma_jsons_view, lemma_members_view, members_view, obj_get,
    str_eq, str_starts_with, Json, JsonV,
};
use vstd::string::StringExecFns;

verus! {

broadcast use vstd::std_specs::vec::group_vec_axioms;

/// Why a query failed to parse.
#[derive(Debug)]
pub enum QuerySyntaxError {
    /// An object was needed (a query, a filter, or a `term`/`prefix` body).
    ExpectedObject,
    /// A string was needed (a field name, query text, or `prefix` value).
    ExpectedString,
    /// An array was needed (`fields`, or an `and`/`or` body).
    ExpectedArray,
    /// The query object's first member names no known query kind.
    UnknownQueryType(String),
    /// The query object has no member at all.
    NoQuery,
    /// A `filtered` query without a `filter` member.
    FilteredNoFilter,
    /// A `filtered` query without a `query` member.
    FilteredNoQuery,
    /// A `match`/`multi_match` body without a `query` member.
    MissingQueryString,
    /// A `multi_match` body without usable `fields`.
    MultiMatchMissingFields,
}

/// The mathematical value of a `QuerySyntaxError`.
pub ghost enum QuerySyntaxErrorV {
    ExpectedObject,
    ExpectedString,
    ExpectedArray,
    UnknownQueryType(Seq<char>),
    NoQuery,
    FilteredNoFilter,
    FilteredNoQuery,
    MissingQueryString,
    MultiMatchMissingFields,
}

impl View for QuerySyntaxError {
    type V = QuerySyntaxErrorV;

    open spec fn view(&self) -> QuerySyntaxErrorV {
        match self {
            QuerySyntaxError::ExpectedObject => QuerySyntaxErrorV::ExpectedObject,
            QuerySyntaxError::ExpectedString => QuerySyntaxErrorV::ExpectedString,
            QuerySyntaxError::ExpectedArray => QuerySyntaxErrorV::ExpectedArray,
            QuerySyntaxError::UnknownQueryType(s) => QuerySyntaxErrorV::UnknownQueryType(s@),
            QuerySyntaxError::NoQuery => QuerySyntaxErrorV::NoQuery,
            QuerySyntaxError::FilteredNoFilter => QuerySyntaxErrorV::FilteredNoFilter,
            QuerySyntaxError::FilteredNoQuery => QuerySyntaxErrorV::FilteredNoQuery,
            QuerySyntaxError::MissingQueryString => QuerySyntaxErrorV::MissingQueryString,
            QuerySyntaxError::MultiMatchMissingFields => QuerySyntaxErrorV::MultiMatchMissingFields,
        }
    }
}

/// A filter over a document's raw fields.
#[derive(Debug)]
pub enum Filter {
    /// The named raw field equals the literal exactly.
    Term(String, Json),
    /// The named raw field is a string with the given prefix.
    Prefix(String, String),
    /// Every inner filter matches.
    And(Vec<Filter>),
    /// Some inner filter matches.
    Or(Vec<Filter>),
    /// The inner filter does not match.
    Not(Box<Filter>),
}

/// The mathematical value of a `Filter`.
pub ghost enum FilterV {
    Term(Seq<char>, JsonV),
    Prefix(Seq<char>, Seq<char>),
    And(Seq<FilterV>),
    Or(Seq<FilterV>),
    Not(Box<FilterV>),
}

/// The mathematical value of a `Filter` tree.
pub open spec fn filter_view(f: Filter) -> FilterV
    decreases f,
    via filter_view_dec
{
    match f {
        Filter::Term(field, value) => FilterV::Term(field@, value@),
        Filter::Prefix(field, value) => FilterV::Prefix(field@, value@),
        Filter::And(fs) => FilterV::And(filters_view(fs@)),
        Filter::Or(fs) => FilterV::Or(filters_view(fs@)),
        Filter::Not(f) => FilterV::Not(Box::new(filter_view(*f))),
    }
}

/// The views of a sequence of filters, in order.
pub open spec fn filters_view(s: Seq<Filter>) -> Seq<FilterV>
    decreases s,
    via filters_view_dec
{
    if s.len() == 0 {
        Seq::empty()
    } else {
        seq![filter_view(s[0])] + filters_view(s.drop_first())
    }
}

#[via_fn]
proof fn filter_view_dec(f: Filter) {
    match f {
        Filter::And(fs) => {
            vstd::std_specs::vec::axiom_vec_decreases_to_view(fs);
        },
        Filter::Or(fs) => {
            vstd::std_specs::vec::axiom_vec_decreases_to_view(fs);
        },
        _ => {},
    }
}

#[via_fn]
proof fn filters_view_dec(s: Seq<Filter>) {
    if s.len() != 0 {
        vstd::seq::axiom_seq_index_decreases(s, 0);
        vstd::seq::axiom_seq_subrange_decreases(s, 1, s.len() as int);
        assert(s.drop_first() == s.subrange(1, s.len() as int));
    }
}

impl View for Filter {
    type V = FilterV;

    open spec fn view(&self) -> FilterV {
        filter_view(*self)
    }
}

/// `filters_view` maps the sequence elementwise.
pub broadcast proof fn lemma_filters_view(s: Seq<Filter>)
    ensures
        (#[trigger] filters_view(s)).len() == s.len(),
        forall|i: int| 0 <= i < s.len() ==> filters_view(s)[i] == filter_view(s[i]),
    decreases s.len(),
{
    if s.len() != 0 {
        lemma_filters_view(s.drop_first());
        assert forall|i: int| 0 <= i < s.len() implies filters_view(s)[i] == filter_view(
            s[i],
        ) by {
            if i > 0 {
                assert(s.drop_first()[i - 1] == s[i]);
            }
        }
    }
}

/// A parsed query.
#[derive(Debug)]
pub enum Query {
    /// Match the query text against one field; the sentinel field `_all`
    /// stands for the catch-all field.
    Match { field: String, query: String },
    /// Match the query text against each of the listed fields.
    MultiMatch { fields: Vec<String>, query: String },
    /// A query restricted by a filter.
    Filtered { query: Box<Query>, filter: Box<Filter> },
}

/// The mathematical value of a `Query`.
pub ghost enum QueryV {
    Match { field: Seq<char>, query: Seq<char> },
    MultiMatch { fields: Seq<Seq<char>>, query: Seq<char> },
    Filtered { query: Box<QueryV>, filter: Box<FilterV> },
}

impl View for Query {
    type V = QueryV;

    open spec fn view(&self) -> QueryV
        decreases self,
    {
        match self {
            Query::Match { field, query } => QueryV::Match { field: field@, query: query@ },
            Query::MultiMatch { fields, query } => QueryV::MultiMatch {
                fields: Seq::new(fields@.len(), |i: int| fields@[i]@),
                query: query@,
            },
            Query::Filtered { query, filter } => QueryV::Filtered {
                query: Box::new((**query)@),
                filter: Box::new((**filter)@),
            },
        }
    }
}

/// A document as the filter evaluator sees it: its raw JSON value.
#[derive(Debug)]
pub struct Document {
    pub data: Json,
}

/// Whether a filter matches a document's raw value. A document that is not
/// an object, or lacks the named field, never matches a `term` or `prefix`.
pub open spec fn spec_matches(f: FilterV, doc: JsonV) -> bool
    decreases f,
    via spec_matches_dec
{
    match f {
        FilterV::Term(field, value) => match doc {
            JsonV::Object(ms) => obj_get(ms, field) == Some(value),
            _ => false,
        },
        FilterV::Prefix(field, value) => match doc {
            JsonV::Object(ms) => match obj_get(ms, field) {
                Some(JsonV::String(s)) => value.is_prefix_of(s),
                _ => false,
            },
            _ => false,
        },
        FilterV::And(fs) => all_match(fs, doc),
        FilterV::Or(fs) => any_match(fs, doc),
        FilterV::Not(g) => !spec_matches(*g, doc),
    }
}

/// Every filter in the sequence matches.
pub open spec fn all_match(fs: Seq<FilterV>, doc: JsonV) -> bool
    decreases fs,
    via all_match_dec
{
    if fs.len() == 0 {
        true
    } else {
        spec_matches(fs[0], doc) && all_match(fs.drop_first(), doc)
    }
}

/// Some filter in the sequence matches.
pub open spec fn any_match(fs: Seq<FilterV>, doc: JsonV) -> bool
    decreases fs,
    via any_match_dec
{
    if fs.len() == 0 {
        false
    } else {
        spec_matches(fs[0], doc) || any_match(fs.drop_first(), doc)
    }
}

#[via_fn]
proof fn spec_matches_dec(f: FilterV, doc: JsonV) {
}

#[via_fn]
proof fn all_match_dec(fs: Seq<FilterV>, doc: JsonV) {
    if fs.len() != 0 {
        vstd::seq::axiom_seq_index_decreases(fs, 0);
        vstd::seq::axiom_seq_subrange_decreases(fs, 1, fs.len() as int);
        assert(fs.drop_first() == fs.subrange(1, fs.len() as int));
    }
}

#[via_fn]
proof fn any_match_dec(fs: Seq<FilterV>, doc: JsonV) {
    if fs.len() != 0 {
        vstd::seq::axiom_seq_index_decreases(fs, 0);
        vstd::seq::axiom_seq_subrange_decreases(fs, 1, fs.len() as int);
        assert(fs.drop_first() == fs.subrange(1, fs.len() as int));
    }
}

/// A conjunction matches exactly when each member matches.
pub broadcast proof fn lemma_all_match(fs: Seq<FilterV>, doc: JsonV)
    ensures
        #[trigger] all_match(fs, doc) <==> (forall|i: int|
            0 <= i < fs.len() ==> #[trigger] spec_matches(fs[i], doc)),
    decreases fs.len(),
{
    if fs.len() != 0 {
        let rest = fs.drop_first();
        lemma_all_match(rest, doc);
        assert(forall|i: int| 0 <= i < rest.len() ==> rest[i] == fs[i + 1]);
        if all_match(fs, doc) {
            assert forall|i: int| 0 <= i < fs.len() implies #[trigger] spec_matches(
                fs[i],
                doc,
            ) by {
                if i > 0 {
                    assert(spec_matches(rest[i - 1], doc));
                }
            }
        }
        if forall|i: int| 0 <= i < fs.len() ==> #[trigger] spec_matches(fs[i], doc) {
            assert(spec_matches(fs[0], doc));
            assert forall|i: int| 0 <= i < rest.len() implies #[trigger] spec_matches(
                rest[i],
                doc,
            ) by {
                assert(spec_matches(fs[i + 1], doc));
            }
            assert(all_match(rest, doc));
        }
    }
}

/// A disjunction matches exactly when some member matches.
pub broadcast proof fn lemma_any_match(fs: Seq<FilterV>, doc: JsonV)
    ensures
        #[trigger] any_match(fs, doc) <==> (exists|i: int|
            0 <= i < fs.len() && #[trigger] spec_matches(fs[i], doc)),
    decreases fs.len(),
{
    if fs.len() != 0 {
        let rest = fs.drop_first();
        lemma_any_match(rest, doc);
        assert(forall|i: int| 0 <= i < rest.len() ==> rest[i] == fs[i + 1]);
        if any_match(fs, doc) {
            if !spec_matches(fs[0], doc) {
                let i = choose|i: int|
                    0 <= i < rest.len() && #[trigger] spec_matches(rest[i], doc);
                assert(spec_matches(fs[i + 1], doc));
            }
        }
        if exists|i: int| 0 <= i < fs.len() && #[trigger] spec_matches(fs[i], doc) {
            let i = choose|i: int| 0 <= i < fs.len() && #[trigger] spec_matches(fs[i], doc);
            if i > 0 {
                assert(spec_matches(rest[i - 1], doc));
                assert(any_match(rest, doc));
            }
        }
    }
}

impl Filter {
    /// Whether the filter matches the document's raw fields. Evaluation
    /// never errs: a missing field, or a document that is not an object,
    /// simply does not match.
    pub fn matches(&self, doc: &Document) -> (r: bool)
        ensures
            r == spec_matches(self@, doc.data@),
        decreases self,
    {
        match self {
            Filter::Term(field, value) => match &doc.data {
                Json::Object(ms) => match Json::object_get(ms, field.as_str()) {
                    Some(v) => Json::json_eq(v, value),
                    None => false,
                },
                _ => false,
            },
            Filter::Prefix(field, value) => match &doc.data {
                Json::Object(ms) => match Json::object_get(ms, field.as_str()) {
                    Some(v) => match v {
                        Json::String(s) => str_starts_with(s.as_str(), value.as_str()),
                        _ => false,
                    },
                    None => false,
                },
                _ => false,
            },
            Filter::And(fs) => {
                proof {
                    lemma_filters_view(fs@);
                    lemma_all_match(filters_view(fs@), doc.data@);
                    assert(decreases_to!(*self => *fs));
                }
                let ghost fsv = filters_view(fs@);
                let mut i: usize = 0;
                while i < fs.len()
                    invariant
                        i <= fs.len(),
                        decreases_to!(*self => *fs),
                        fsv == filters_view(fs@),
                        fsv.len() == fs@.len(),
                        self@ == FilterV::And(fsv),
                        forall|j: int| 0 <= j < fs@.len() ==> fsv[j] == filter_view(fs@[j]),
                        forall|j: int| 0 <= j < i ==> #[trigger] spec_matches(fsv[j], doc.data@),
                    decreases fs.len() - i,
                {
                    proof {
                        vstd::std_specs::vec::axiom_vec_index_decreases(*fs, i as int);
                    }
                    if !fs[i].matches(doc) {
                        proof {
                            assert(!spec_matches(fsv[i as int], doc.data@));
                            lemma_all_match(fsv, doc.data@);
                        }
                        return false;
                    }
                    i = i + 1;
                }
                proof {
                    lemma_all_match(fsv, doc.data@);
                }
                true
            },
            Filter::Or(fs) => {
                proof {
                    lemma_filters_view(fs@);
                    assert(decreases_to!(*self => *fs));
                }
                let ghost fsv = filters_view(fs@);
                let mut i: usize = 0;
                while i < fs.len()
                    invariant
                        i <= fs.len(),
                        decreases_to!(*self => *fs),
                        fsv == filters_view(fs@),
                        fsv.len() == fs@.len(),
                        self@ == FilterV::Or(fsv),
                        forall|j: int| 0 <= j < fs@.len() ==> fsv[j] == filter_view(fs@[j]),
                        forall|j: int| 0 <= j < i ==> !#[trigger] spec_matches(fsv[j], doc.data@),
                    decreases fs.len() - i,
                {
                    proof {
                        vstd::std_specs::vec::axiom_vec_index_decreases(*fs, i as int);
                    }
                    if fs[i].matches(doc) {
                        proof {
                            assert(spec_matches(fsv[i as int], doc.data@));
                            lemma_any_match(fsv, doc.data@);
                        }
                        return true;
                    }
                    i = i + 1;
                }
                proof {
                    lemma_any_match(fsv, doc.data@);
                }
                false
            },
            Filter::Not(f) => {
                proof {
                    assert(decreases_to!(*self => **f));
                }
                !(**f).matches(doc)
            },
        }
    }
}

/// The sentinel a filter object with no recognised name parses to: a `term`
/// filter on field `"not"` with value `"implemented"`, which never matches
/// a real document.
pub open spec fn sentinel_filter() -> FilterV {
    FilterV::Term("not"@, JsonV::String("implemented"@))
}

fn sentinel_filter_exec() -> (r: Filter)
    ensures
        r@ == sentinel_filter(),
{
    Filter::Term(String::from_str("not"), Json::String(String::from_str("implemented")))
}

/// What parsing a filter from a JSON value yields. Dispatch reads the
/// object's first member: `term` and `prefix` take a one-member object
/// naming the field; `and` and `or` take an array of filters; `not` takes a
/// filter; any other name, or an object with no member, yields the sentinel
/// filter. A value of the wrong shape is a structural error.
pub open spec fn spec_parse_filter(j: JsonV) -> Result<FilterV, QuerySyntaxErrorV>
    decreases j,
    via spec_parse_filter_dec
{
    match j {
        JsonV::Object(ms) => {
            if ms.len() == 0 {
                Ok(sentinel_filter())
            } else {
                let key = ms[0].0;
                let inner = ms[0].1;
                if key == "term"@ {
                    match inner {
                        JsonV::Object(tms) => {
                            if tms.len() == 0 {
                                Err(QuerySyntaxErrorV::ExpectedObject)
                            } else {
                                Ok(FilterV::Term(tms[0].0, tms[0].1))
                            }
                        },
                        _ => Err(QuerySyntaxErrorV::ExpectedObject),
                    }
                } else if key == "prefix"@ {
                    match inner {
                        JsonV::Object(pms) => {
                            if pms.len() == 0 {
                                Err(QuerySyntaxErrorV::ExpectedObject)
                            } else {
                                match pms[0].1 {
                                    JsonV::String(v) => Ok(FilterV::Prefix(pms[0].0, v)),
                                    _ => Err(QuerySyntaxErrorV::ExpectedString),
                                }
                            }
                        },
                        _ => Err(QuerySyntaxErrorV::ExpectedObject),
                    }
                } else if key == "and"@ {
                    match inner {
                        JsonV::Array(els) => match spec_parse_filters(els) {
                            Ok(fs) => Ok(FilterV::And(fs)),
                            Err(e) => Err(e),
                        },
                        _ => Err(QuerySyntaxErrorV::ExpectedArray),
                    }
                } else if key == "or"@ {
                    match inner {
                        JsonV::Array(els) => match spec_parse_filters(els) {
                            Ok(fs) => Ok(FilterV::Or(fs)),
                            Err(e) => Err(e),
                        },
                        _ => Err(QuerySyntaxErrorV::ExpectedArray),
                    }
                } else if key == "not"@ {
                    match spec_parse_filter(inner) {
                        Ok(f) => Ok(FilterV::Not(Box::new(f))),
                        Err(e) => Err(e),
                    }
                } else {
                    Ok(sentinel_filter())
                }
            }
        },
        _ => Err(QuerySyntaxErrorV::ExpectedObject),
    }
}

/// What parsing each filter of a list yields: the parsed filters in order,
/// or the first element's error.
pub open spec fn spec_parse_filters(els: Seq<JsonV>) -> Result<Seq<FilterV>, QuerySyntaxErrorV>
    decreases els,
    via spec_parse_filters_dec
{
    if els.len() == 0 {
        Ok(Seq::empty())
    } else {
        match spec_parse_filter(els[0]) {
            Err(e) => Err(e),
            Ok(f) => match spec_parse_filters(els.drop_first()) {
                Err(e) => Err(e),
                Ok(fs) => Ok(seq![f] + fs),
            },
        }
    }
}

#[via_fn]
proof fn spec_parse_filter_dec(j: JsonV) {
    match j {
        JsonV::Object(ms) => {
            if ms.len() != 0 {
                vstd::seq::axiom_seq_index_decreases(ms, 0);
                assert(decreases_to!(ms[0] => ms[0].1));
            }
        },
        _ => {},
    }
}

#[via_fn]
proof fn spec_parse_filters_dec(els: Seq<JsonV>) {
    if els.len() != 0 {
        vstd::seq::axiom_seq_index_decreases(els, 0);
        vstd::seq::axiom_seq_subrange_decreases(els, 1, els.len() as int);
        assert(els.drop_first() == els.subrange(1, els.len() as int));
    }
}

/// A member value looked up in an object is a component of the object.
proof fn lemma_obj_get_decreases(ms: Seq<(Seq<char>, JsonV)>, name: Seq<char>)
    requires
        obj_get(ms, name) is Some,
    ensures
        decreases_to!(ms => obj_get(ms, name).unwrap()),
    decreases ms.len(),
{
    vstd::seq::axiom_seq_index_decreases(ms, 0);
    assert(decreases_to!(ms[0] => ms[0].1));
    if ms[0].0 != name {
        vstd::seq::axiom_seq_subrange_decreases(ms, 1, ms.len() as int);
        assert(ms.drop_first() == ms.subrange(1, ms.len() as int));
        lemma_obj_get_decreases(ms.drop_first(), name);
    }
}

/// What parsing a `match` query body yields: the text under `query` matched
/// against the field named under `field`, with the catch-all field `_all`
/// standing in when `field` is absent.
pub open spec fn spec_parse_match(j: JsonV) -> Result<QueryV, QuerySyntaxErrorV> {
    match j {
        JsonV::Object(ms) => {
            if obj_get(ms, "field"@) matches Some(v) && !(v is String) {
                Err(QuerySyntaxErrorV::ExpectedString)
            } else {
                let field = match obj_get(ms, "field"@) {
                    Some(JsonV::String(s)) => s,
                    _ => "_all"@,
                };
                match obj_get(ms, "query"@) {
                    None => Err(QuerySyntaxErrorV::MissingQueryString),
                    Some(JsonV::String(q)) => Ok(QueryV::Match { field, query: q }),
                    Some(_) => Err(QuerySyntaxErrorV::ExpectedString),
                }
            }
        },
        _ => Err(QuerySyntaxErrorV::ExpectedObject),
    }
}

/// The texts of a sequence of string values, in order.
pub open spec fn spec_field_names(fs: Seq<JsonV>) -> Seq<Seq<char>> {
    Seq::new(fs.len(), |i: int| fs[i]->String_0)
}

/// What parsing a `multi_match` query body yields: the text under `query`
/// matched against each field named in the non-empty string array under
/// `fields`.
pub open spec fn spec_parse_multi_match(j: JsonV) -> Result<QueryV, QuerySyntaxErrorV> {
    match j {
        JsonV::Object(ms) => match obj_get(ms, "fields"@) {
            None => Err(QuerySyntaxErrorV::MultiMatchMissingFields),
            Some(fj) => match fj {
                JsonV::Array(els) => {
                    if !(forall|i: int| 0 <= i < els.len() ==> els[i] is String) {
                        Err(QuerySyntaxErrorV::ExpectedString)
                    } else if els.len() == 0 {
                        Err(QuerySyntaxErrorV::MultiMatchMissingFields)
                    } else {
                        match obj_get(ms, "query"@) {
                            None => Err(QuerySyntaxErrorV::MissingQueryString),
                            Some(JsonV::String(q)) => Ok(
                                QueryV::MultiMatch { fields: spec_field_names(els), query: q },
                            ),
                            Some(_) => Err(QuerySyntaxErrorV::ExpectedString),
                        }
                    }
                },
                _ => Err(QuerySyntaxErrorV::ExpectedArray),
            },
        },
        _ => Err(QuerySyntaxErrorV::ExpectedObject),
    }
}

/// What parsing a `filtered` query body yields: the filter under `filter`
/// and the query under `query`, both required, the filter read first.
pub open spec fn spec_parse_filtered(j: JsonV) -> Result<QueryV, QuerySyntaxErrorV>
    decreases j,
    via spec_parse_filtered_dec
{
    match j {
        JsonV::Object(ms) => match obj_get(ms, "filter"@) {
            None => Err(QuerySyntaxErrorV::FilteredNoFilter),
            Some(fj) => match spec_parse_filter(fj) {
                Err(e) => Err(e),
                Ok(f) => match obj_get(ms, "query"@) {
                    None => Err(QuerySyntaxErrorV::FilteredNoQuery),
                    Some(qj) => match spec_parse_query(qj) {
                        Err(e) => Err(e),
                        Ok(q) => Ok(QueryV::Filtered { query: Box::new(q), filter: Box::new(f) }),
                    },
                },
            },
        },
        _ => Err(QuerySyntaxErrorV::ExpectedObject),
    }
}

/// What parsing a query from a JSON value yields. Dispatch reads the
/// object's first member: `match`, `multi_match` or `filtered`; any other
/// name is an `UnknownQueryType` error, and an object with no member has no
/// query at all.
pub open spec fn spec_parse_query(j: JsonV) -> Result<QueryV, QuerySyntaxErrorV>
    decreases j,
    via spec_parse_query_dec
{
    match j {
        JsonV::Object(ms) => {
            if ms.len() == 0 {
                Err(QuerySyntaxErrorV::NoQuery)
            } else {
                let key = ms[0].0;
                let inner = ms[0].1;
                if key == "match"@ {
                    spec_parse_match(inner)
                } else if key == "multi_match"@ {
                    spec_parse_multi_match(inner)
                } else if key == "filtered"@ {
                    spec_parse_filtered(inner)
                } else {
                    Err(QuerySyntaxErrorV::UnknownQueryType(key))
                }
            }
        },
        _ => Err(QuerySyntaxErrorV::ExpectedObject),
    }
}

#[via_fn]
proof fn spec_parse_filtered_dec(j: JsonV) {
    match j {
        JsonV::Object(ms) => {
            if obj_get(ms, "query"@) is Some {
                lemma_obj_get_decreases(ms, "query"@);
            }
        },
        _ => {},
    }
}

#[via_fn]
proof fn spec_parse_query_dec(j: JsonV) {
    match j {
        JsonV::Object(ms) => {
            if ms.len() != 0 {
                vstd::seq::axiom_seq_index_decreases(ms, 0);
                assert(decreases_to!(ms[0] => ms[0].1));
            }
        },
        _ => {},
    }
}

/// The view of a query parse result, componentwise.
pub open spec fn query_result_view(r: Result<Query, QuerySyntaxError>) -> Result<
    QueryV,
    QuerySyntaxErrorV,
> {
    match r {
        Ok(q) => Ok(q@),
        Err(e) => Err(e@),
    }
}

/// The view of a filter parse result, componentwise.
pub open spec fn filter_result_view(r: Result<Filter, QuerySyntaxError>) -> Result<
    FilterV,
    QuerySyntaxErrorV,
> {
    match r {
        Ok(f) => Ok(f@),
        Err(e) => Err(e@),
    }
}

/// Parses a filter; unrecognised filter names fall back to the sentinel
/// filter rather than erring.
pub fn parse_filter(json: &Json) -> (r: Result<Filter, QuerySyntaxError>)
    ensures
        filter_result_view(r) == spec_parse_filter(json@),
    decreases json,
{
    match json {
        Json::Object(ms) => {
            proof {
                lemma_members_view(ms@);
            }
            if ms.len() == 0 {
                return Ok(sentinel_filter_exec());
            }
            proof {
                assert(decreases_to!(*json => *ms));
                vstd::std_specs::vec::axiom_vec_index_decreases(*ms, 0);
                assert(decreases_to!(ms@[0] => ms@[0].1));
            }
            let key = &ms[0].0;
            let inner = &ms[0].1;
            if str_eq(key.as_str(), "term") {
                match inner {
                    Json::Object(tms) => {
                        proof {
                            lemma_members_view(tms@);
                        }
                        if tms.len() == 0 {
                            Err(QuerySyntaxError::ExpectedObject)
                        } else {
                            Ok(Filter::Term(tms[0].0.clone(), tms[0].1.deep_clone()))
                        }
                    },
                    _ => Err(QuerySyntaxError::ExpectedObject),
                }
            } else if str_eq(key.as_str(), "prefix") {
                match inner {
                    Json::Object(pms) => {
                        proof {
                            lemma_members_view(pms@);
                        }
                        if pms.len() == 0 {
                            Err(QuerySyntaxError::ExpectedObject)
                        } else {
                            match &pms[0].1 {
                                Json::String(v) => Ok(
                                    Filter::Prefix(pms[0].0.clone(), v.clone()),
                                ),
                                _ => Err(QuerySyntaxError::ExpectedString),
                            }
                        }
                    },
                    _ => Err(QuerySyntaxError::ExpectedObject),
                }
            } else if str_eq(key.as_str(), "and") {
                match inner {
                    Json::Array(els) => match parse_filters(els) {
                        Ok(fs) => Ok(Filter::And(fs)),
                        Err(e) => Err(e),
                    },
                    _ => Err(QuerySyntaxError::ExpectedArray),
                }
            } else if str_eq(key.as_str(), "or") {
                match inner {
                    Json::Array(els) => match parse_filters(els) {
                        Ok(fs) => Ok(Filter::Or(fs)),
                        Err(e) => Err(e),
                    },
                    _ => Err(QuerySyntaxError::ExpectedArray),
                }
            } else if str_eq(key.as_str(), "not") {
                match parse_filter(inner) {
                    Ok(f) => Ok(Filter::Not(Box::new(f))),
                    Err(e) => Err(e),
                }
            } else {
                Ok(sentinel_filter_exec())
            }
        },
        _ => Err(QuerySyntaxError::ExpectedObject),
    }
}

/// Parses each filter of a list, in order, stopping at the first error.
fn parse_filters(els: &Vec<Json>) -> (r: Result<Vec<Filter>, QuerySyntaxError>)
    ensures
        match r {
            Ok(fs) => spec_parse_filters(jsons_view(els@)) == Ok::<
                Seq<FilterV>,
                QuerySyntaxErrorV,
            >(filters_view(fs@)),
            Err(e) => spec_parse_filters(jsons_view(els@)) == Err::<
                Seq<FilterV>,
                QuerySyntaxErrorV,
            >(e@),
        },
    decreases els,
{
    proof {
        lemma_jsons_view(els@);
    }
    let ghost ev = jsons_view(els@);
    let mut out: Vec<Filter> = Vec::new();
    let mut i: usize = 0;
    proof {
        assert(ev.skip(0) =~= ev);
        assert(filters_view(out@) + spec_parse_filters(ev)->Ok_0 =~= spec_parse_filters(
            ev,
        )->Ok_0);
    }
    while i < els.len()
        invariant
            i <= els@.len(),
            ev == jsons_view(els@),
            ev.len() == els@.len(),
            forall|j: int| 0 <= j < els@.len() ==> ev[j] == json_view(els@[j]),
            out@.len() == i,
            spec_parse_filters(ev) == match spec_parse_filters(ev.skip(i as int)) {
                Ok(rest) => Ok::<Seq<FilterV>, QuerySyntaxErrorV>(filters_view(out@) + rest),
                Err(e) => Err::<Seq<FilterV>, QuerySyntaxErrorV>(e),
            },
        decreases els@.len() - i,
    {
        proof {
            vstd::std_specs::vec::axiom_vec_index_decreases(*els, i as int);
            assert(ev.skip(i as int)[0] == ev[i as int]);
            assert(ev.skip(i as int).drop_first() =~= ev.skip(i + 1));
        }
        let ghost prev = out@;
        match parse_filter(&els[i]) {
            Err(e) => {
                return Err(e);
            },
            Ok(f) => {
                proof {
                    lemma_filters_view(prev);
                }
                out.push(f);
                proof {
                    lemma_filters_view(out@);
                    assert(filters_view(out@) =~= filters_view(prev) + seq![f@]);
                    if spec_parse_filters(ev.skip(i + 1)) is Ok {
                        let rest = spec_parse_filters(ev.skip(i + 1))->Ok_0;
                        assert(filters_view(prev) + (seq![f@] + rest) =~= filters_view(out@)
                            + rest);
                    }
                }
                i = i + 1;
            },
        }
    }
    proof {
        assert(ev.skip(i as int) =~= Seq::<JsonV>::empty());
        assert(filters_view(out@) + Seq::<FilterV>::empty() =~= filters_view(out@));
    }
    Ok(out)
}

/// Parses a `match` query body.
pub fn parse_match_query(json: &Json) -> (r: Result<Query, QuerySyntaxError>)
    ensures
        query_result_view(r) == spec_parse_match(json@),
{
    match json {
        Json::Object(ms) => {
            let field: String = match Json::object_get(ms, "field") {
                Some(v) => match v {
                    Json::String(s) => s.clone(),
                    _ => {
                        return Err(QuerySyntaxError::ExpectedString);
                    },
                },
                None => String::from_str("_all"),
            };
            match Json::object_get(ms, "query") {
                None => Err(QuerySyntaxError::MissingQueryString),
                Some(v) => match v {
                    Json::String(q) => Ok(Query::Match { field, query: q.clone() }),
                    _ => Err(QuerySyntaxError::ExpectedString),
                },
            }
        },
        _ => Err(QuerySyntaxError::ExpectedObject),
    }
}

/// Parses a `multi_match` query body.
pub fn parse_multi_match_query(json: &Json) -> (r: Result<Query, QuerySyntaxError>)
    ensures
        query_result_view(r) == spec_parse_multi_match(json@),
{
    match json {
        Json::Object(ms) => {
            let fields_json = match Json::object_get(ms, "fields") {
                None => {
                    return Err(QuerySyntaxError::MultiMatchMissingFields);
                },
                Some(v) => v,
            };
            match fields_json {
                Json::Array(els) => {
                    proof {
                        lemma_jsons_view(els@);
                    }
                    let ghost ev = jsons_view(els@);
                    let mut fields: Vec<String> = Vec::new();
                    let mut i: usize = 0;
                    while i < els.len()
                        invariant
                            i <= els@.len(),
                            ev == jsons_view(els@),
                            ev.len() == els@.len(),
                            forall|j: int| 0 <= j < els@.len() ==> ev[j] == json_view(els@[j]),
                            json@ is Object,
                            obj_get(json@->Object_0, "fields"@) == Some(JsonV::Array(ev)),
                            fields@.len() == i,
                            forall|j: int|
                                0 <= j < i ==> ev[j] is String && fields@[j]@ == ev[j]->String_0,
                        decreases els@.len() - i,
                    {
                        match &els[i] {
                            Json::String(s) => {
                                fields.push(s.clone());
                            },
                            _ => {
                                proof {
                                    assert(!(ev[i as int] is String));
                                }
                                return Err(QuerySyntaxError::ExpectedString);
                            },
                        }
                        i = i + 1;
                    }
                    if fields.len() == 0 {
                        return Err(QuerySyntaxError::MultiMatchMissingFields);
                    }
                    match Json::object_get(ms, "query") {
                        None => Err(QuerySyntaxError::MissingQueryString),
                        Some(v) => match v {
                            Json::String(q) => {
                                proof {
                                    assert(Seq::new(fields@.len(), |k: int| fields@[k]@)
                                        =~= spec_field_names(ev));
                                }
                                Ok(Query::MultiMatch { fields, query: q.clone() })
                            },
                            _ => Err(QuerySyntaxError::ExpectedString),
                        },
                    }
                },
                _ => Err(QuerySyntaxError::ExpectedArray),
            }
        },
        _ => Err(QuerySyntaxError::ExpectedObject),
    }
}

/// Parses a `filtered` query body: the filter first, then the inner query.
pub fn parse_filtered_query(json: &Json) -> (r: Result<Query, QuerySyntaxError>)
    ensures
        query_result_view(r) == spec_parse_filtered(json@),
    decreases json,
{
    match json {
        Json::Object(ms) => {
            proof {
                assert(decreases_to!(*json => *ms));
            }
            let fjson = match Json::object_get(ms, "filter") {
                None => {
                    return Err(QuerySyntaxError::FilteredNoFilter);
                },
                Some(v) => v,
            };
            let filter = match parse_filter(fjson) {
                Ok(f) => f,
                Err(e) => {
                    return Err(e);
                },
            };
            let qjson = match Json::object_get(ms, "query") {
                None => {
                    return Err(QuerySyntaxError::FilteredNoQuery);
                },
                Some(v) => v,
            };
            let query = match parse_query(qjson) {
                Ok(q) => q,
                Err(e) => {
                    return Err(e);
                },
            };
            Ok(Query::Filtered { query: Box::new(query), filter: Box::new(filter) })
        },
        _ => Err(QuerySyntaxError::ExpectedObject),
    }
}

/// Parses a query, dispatching on the object's first member name; an
/// unrecognised name is an error, unlike filter parsing.
pub fn parse_query(json: &Json) -> (r: Result<Query, QuerySyntaxError>)
    ensures
        query_result_view(r) == spec_parse_query(json@),
    decreases json,
{
    match json {
        Json::Object(ms) => {
            proof {
                lemma_members_view(ms@);
            }
            if ms.len() == 0 {
                return Err(QuerySyntaxError::NoQuery);
            }
            proof {
                assert(decreases_to!(*json => *ms));
                vstd::std_specs::vec::axiom_vec_index_decreases(*ms, 0);
                assert(decreases_to!(ms@[0] => ms@[0].1));
            }
            let key = &ms[0].0;
            let inner = &ms[0].1;
            if str_eq(key.as_str(), "match") {
                parse_match_query(inner)
            } else if str_eq(key.as_str(), "multi_match") {
                parse_multi_match_query(inner)
            } else if str_eq(key.as_str(), "filtered") {
                parse_filtered_query(inner)
            } else {
                Err(QuerySyntaxError::UnknownQueryType(key.clone()))
            }
        },
        _ => Err(QuerySyntaxError::ExpectedObject),
    }
}

} // verus!
