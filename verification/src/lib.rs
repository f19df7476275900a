//! Core of a document search engine: typed terms with an order-preserving
//! byte encoding, analyzer configuration, field mappings that turn JSON
//! values into indexable tokens, a chunk (segment) manager over an ordered
//! key-value substrate, and a query/filter DSL with a direct evaluator.
mod json;
mod term;
mod chunk;
mod query;
mod analysis;
mod mapping;
mod settings;

pub use json::Json;
pub use json::JsonV;
pub use term::{Term, TermV, Token, TokenV, DateTime};
pub use chunk::{ChunkManager, ActiveChunksIterator, StorePut};
pub use query::{Query, QueryV, Filter, FilterV, QuerySyntaxError, QuerySyntaxErrorV, Document, parse_query, parse_filter, parse_match_query, parse_multi_match_query, parse_filtered_query};
pub use analysis::{AnalyzerSpec, AnalyzerSpecV, TokenizerSpec, FilterSpec, Edge, get_standard_analyzer, get_edgengram_analyzer, AnalyzerRegistry};
pub use mapping::{FieldType, FieldMapping, FieldMappingV, FieldSearchOptions, Number, NumberV, SimilarityModel, Mapping, MappingRegistry, parse_boolean};
pub use settings::{IndexSettings, IndexSettingsParseError, TokenizerParseError, FilterParseError, AnalyzerParseError, parse};
