//! Typed terms and their byte encoding.
//!
//! A `Term` is the canonical typed value the engine both searches for and
//! stores: its byte encoding doubles as (part of) a storage key, so it must
//! be deterministic, and for the types used in range scans it should order
//! bytewise as the values order numerically. The signed encoding keeps the
//! plain two's-complement bytes, so a negative value encodes *greater* than
//! any non-negative one; `lemma_i64_negative_encodes_greater` states that
//! limitation exactly.
use vstd::prelude::*;

use crate::json::{Json, JsonV};

verus! {

/// Earliest second of chrono's representable instants (year -262143).
pub const DATETIME_MIN_SECONDS: i64 = -8334601315200;

/// Latest second of chrono's representable instants (end of year 262142).
pub const DATETIME_MAX_SECONDS: i64 = 8210266876799;

/// An instant in UTC, held as its Unix timestamp: whole seconds and the
/// nanosecond within the second (values of a second or more mark a leap
/// second, as chrono reports them).
#[derive(Debug, PartialEq, Eq, PartialOrd, Ord, Clone, Copy, Hash)]
pub struct DateTime {
    pub seconds: i64,
    pub nanos: u32,
}

impl DateTime {
    /// The instant lies in the range chrono can represent, and a leap
    /// second (a nanosecond field of a second or more) sits only on the
    /// last second of a minute, as chrono keeps it.
    pub open spec fn wf(self) -> bool {
        &&& DATETIME_MIN_SECONDS <= self.seconds <= DATETIME_MAX_SECONDS
        &&& self.nanos < 2_000_000_000
        &&& (self.nanos < 1_000_000_000 || self.seconds as int % 60 == 59)
    }

    /// The instant as microseconds since the Unix epoch.
    pub open spec fn micros(self) -> int {
        self.seconds * 1_000_000 + self.nanos / 1000
    }
}

/// The canonical typed value of one indexable unit of data.
#[derive(Debug, PartialEq, Eq, PartialOrd, Ord, Clone, Hash)]
pub enum Term {
    String(String),
    Boolean(bool),
    I64(i64),
    U64(u64),
    DateTime(DateTime),
}

/// The mathematical value of a `Term`.
pub ghost enum TermV {
    String(Seq<char>),
    Boolean(bool),
    I64(i64),
    U64(u64),
    DateTime(DateTime),
}

impl View for Term {
    type V = TermV;

    open spec fn view(&self) -> TermV {
        match self {
            Term::String(s) => TermV::String(s@),
            Term::Boolean(b) => TermV::Boolean(*b),
            Term::I64(v) => TermV::I64(*v),
            Term::U64(v) => TermV::U64(*v),
            Term::DateTime(d) => TermV::DateTime(*d),
        }
    }
}

/// The eight bytes of a value, most significant first.
pub open spec fn u64_be_bytes(v: u64) -> Seq<u8> {
    seq![
        ((v >> 56) & 0xff) as u8,
        ((v >> 48) & 0xff) as u8,
        ((v >> 40) & 0xff) as u8,
        ((v >> 32) & 0xff) as u8,
        ((v >> 24) & 0xff) as u8,
        ((v >> 16) & 0xff) as u8,
        ((v >> 8) & 0xff) as u8,
        (v & 0xff) as u8,
    ]
}

/// The eight two's-complement bytes of a value, most significant first.
pub open spec fn i64_be_bytes(v: i64) -> Seq<u8> {
    u64_be_bytes(v as u64)
}

/// The byte encoding of a term: a string's UTF-8 bytes as they stand; one
/// marker byte for a boolean; eight big-endian bytes for the integers; and
/// for an instant, eight big-endian two's-complement bytes of its
/// microsecond timestamp.
pub open spec fn term_bytes(t: TermV) -> Seq<u8> {
    match t {
        TermV::String(s) => vstd::utf8::encode_utf8(s),
        TermV::Boolean(b) => seq![if b { 116u8 } else { 102u8 }],
        TermV::I64(v) => i64_be_bytes(v),
        TermV::U64(v) => u64_be_bytes(v),
        TermV::DateTime(d) => i64_be_bytes(d.micros() as i64),
    }
}

fn u64_to_be_bytes(v: u64) -> (r: Vec<u8>)
    ensures
        r@ == u64_be_bytes(v),
{
    proof {
        assert((v >> 56) & 0xff < 256 && (v >> 48) & 0xff < 256 && (v >> 40) & 0xff < 256 && (v
            >> 32) & 0xff < 256 && (v >> 24) & 0xff < 256 && (v >> 16) & 0xff < 256 && (v >> 8)
            & 0xff < 256 && v & 0xff < 256) by (bit_vector);
    }
    let mut r: Vec<u8> = Vec::new();
    r.push(((v >> 56) & 0xff) as u8);
    r.push(((v >> 48) & 0xff) as u8);
    r.push(((v >> 40) & 0xff) as u8);
    r.push(((v >> 32) & 0xff) as u8);
    r.push(((v >> 24) & 0xff) as u8);
    r.push(((v >> 16) & 0xff) as u8);
    r.push(((v >> 8) & 0xff) as u8);
    r.push((v & 0xff) as u8);
    proof {
        assert(r@ =~= u64_be_bytes(v));
    }
    r
}

/// The instant a text denotes, when it reads as an RFC 3339 timestamp:
/// whole seconds since the Unix epoch, and the nanosecond within the second.
pub uninterp spec fn rfc3339_instant(text: Seq<char>) -> Option<(i64, u32)>;

/// The RFC 3339 rendering of an instant, given as seconds since the Unix
/// epoch and the nanosecond within the second.
pub uninterp spec fn rfc3339_text(seconds: i64, nanos: u32) -> Seq<char>;

/// Relies on chrono: parsing a `DateTime<Utc>` from text depends on the text
/// alone; a parsed instant's timestamp lies in chrono's representable range
/// (years -262143 through 262142), its nanosecond field stays below two
/// seconds, and a leap second sits only on a minute's last second —
/// `DateTime::from_timestamp` documents that it round-trips exactly the
/// pairs of that shape.
#[verifier::external_body]
pub(crate) fn parse_rfc3339(text: &str) -> (r: Option<DateTime>)
    ensures
        match r {
            Some(d) => rfc3339_instant(text@) == Some((d.seconds, d.nanos)) && d.wf(),
            None => rfc3339_instant(text@) is None,
        },
{
    match text.parse::<chrono::DateTime<chrono::Utc>>() {
        Ok(dt) => Some(DateTime { seconds: dt.timestamp(), nanos: dt.timestamp_subsec_nanos() }),
        Err(_) => None,
    }
}

/// Relies on chrono: `DateTime::from_timestamp` accepts every in-range
/// instant whose leap second sits on a minute's last second, and
/// `to_rfc3339` renders it from the instant alone.
#[verifier::external_body]
fn format_rfc3339(seconds: i64, nanos: u32) -> (r: String)
    requires
        DATETIME_MIN_SECONDS <= seconds <= DATETIME_MAX_SECONDS,
        nanos < 2_000_000_000,
        nanos < 1_000_000_000 || seconds as int % 60 == 59,
    ensures
        r@ == rfc3339_text(seconds, nanos),
{
    chrono::DateTime::<chrono::Utc>::from_timestamp(seconds, nanos).unwrap().to_rfc3339()
}

impl Term {
    /// Every instant the term holds lies in the representable range.
    pub open spec fn wf(self) -> bool {
        match self {
            Term::DateTime(d) => d.wf(),
            _ => true,
        }
    }

    /// The term a JSON scalar stands for directly: a string, boolean or
    /// integer maps to its own variant; every other value has no term.
    pub fn from_json(json: &Json) -> (r: Option<Term>)
        ensures
            match json@ {
                JsonV::String(s) => r matches Some(t) && t@ == TermV::String(s),
                JsonV::Boolean(b) => r matches Some(t) && t@ == TermV::Boolean(b),
                JsonV::I64(v) => r matches Some(t) && t@ == TermV::I64(v),
                JsonV::U64(v) => r matches Some(t) && t@ == TermV::U64(v),
                _ => r is None,
            },
    {
        match json {
            Json::String(s) => Some(Term::String(s.clone())),
            Json::Boolean(b) => Some(Term::Boolean(*b)),
            Json::I64(v) => Some(Term::I64(*v)),
            Json::U64(v) => Some(Term::U64(*v)),
            _ => None,
        }
    }

    /// The term as a JSON value; an instant renders as its RFC 3339 text.
    pub fn as_json(&self) -> (r: Json)
        requires
            self.wf(),
        ensures
            match self@ {
                TermV::String(s) => r@ == JsonV::String(s),
                TermV::Boolean(b) => r@ == JsonV::Boolean(b),
                TermV::I64(v) => r@ == JsonV::I64(v),
                TermV::U64(v) => r@ == JsonV::U64(v),
                TermV::DateTime(d) => r@ == JsonV::String(rfc3339_text(d.seconds, d.nanos)),
            },
    {
        match self {
            Term::String(s) => Json::String(s.clone()),
            Term::Boolean(b) => Json::Boolean(*b),
            Term::I64(v) => Json::I64(*v),
            Term::U64(v) => Json::U64(*v),
            Term::DateTime(d) => Json::String(format_rfc3339(d.seconds, d.nanos)),
        }
    }

    /// The byte encoding used in storage keys. Encoding is a function of the
    /// term's value alone, so equal terms always encode to equal bytes.
    pub fn to_bytes(&self) -> (r: Vec<u8>)
        requires
            self.wf(),
        ensures
            r@ == term_bytes(self@),
    {
        match self {
            Term::String(s) => s.as_str().as_bytes_vec(),
            Term::Boolean(b) => {
                let mut r: Vec<u8> = Vec::new();
                if *b {
                    r.push(116u8);
                } else {
                    r.push(102u8);
                }
                proof {
                    assert(r@ =~= term_bytes(self@));
                }
                r
            },
            Term::I64(v) => u64_to_be_bytes(*v as u64),
            Term::U64(v) => u64_to_be_bytes(*v),
            Term::DateTime(d) => {
                let micros_in_second = (d.nanos / 1000) as i64;
                let micros = d.seconds * 1_000_000i64 + micros_in_second;
                u64_to_be_bytes(micros as u64)
            },
        }
    }
}

/// Strict lexicographic (bytewise) order on byte strings.
pub open spec fn bytes_lt(a: Seq<u8>, b: Seq<u8>) -> bool
    decreases a.len(),
{
    if b.len() == 0 {
        false
    } else if a.len() == 0 {
        true
    } else if a[0] < b[0] {
        true
    } else if a[0] > b[0] {
        false
    } else {
        bytes_lt(a.drop_first(), b.drop_first())
    }
}

proof fn lemma_bytes_lt_unfold8(a: Seq<u8>, b: Seq<u8>)
    requires
        a.len() == 8,
        b.len() == 8,
    ensures
        bytes_lt(a, b) == (a[0] < b[0] || (a[0] == b[0] && (a[1] < b[1] || (a[1] == b[1] && (a[2]
            < b[2] || (a[2] == b[2] && (a[3] < b[3] || (a[3] == b[3] && (a[4] < b[4] || (a[4]
            == b[4] && (a[5] < b[5] || (a[5] == b[5] && (a[6] < b[6] || (a[6] == b[6] && a[7]
            < b[7])))))))))))))),
{
    reveal_with_fuel(bytes_lt, 2);
    let a1 = a.drop_first();
    let b1 = b.drop_first();
    let a2 = a1.drop_first();
    let b2 = b1.drop_first();
    let a3 = a2.drop_first();
    let b3 = b2.drop_first();
    let a4 = a3.drop_first();
    let b4 = b3.drop_first();
    let a5 = a4.drop_first();
    let b5 = b4.drop_first();
    let a6 = a5.drop_first();
    let b6 = b5.drop_first();
    let a7 = a6.drop_first();
    let b7 = b6.drop_first();
    assert(a1[0] == a[1] && a2[0] == a[2] && a3[0] == a[3] && a4[0] == a[4] && a5[0] == a[5]
        && a6[0] == a[6] && a7[0] == a[7]);
    assert(b1[0] == b[1] && b2[0] == b[2] && b3[0] == b[3] && b4[0] == b[4] && b5[0] == b[5]
        && b6[0] == b[6] && b7[0] == b[7]);
    assert(bytes_lt(a, b) == (a[0] < b[0] || (a[0] == b[0] && bytes_lt(a1, b1))));
    assert(bytes_lt(a1, b1) == (a1[0] < b1[0] || (a1[0] == b1[0] && bytes_lt(a2, b2))));
    assert(bytes_lt(a2, b2) == (a2[0] < b2[0] || (a2[0] == b2[0] && bytes_lt(a3, b3))));
    assert(bytes_lt(a3, b3) == (a3[0] < b3[0] || (a3[0] == b3[0] && bytes_lt(a4, b4))));
    assert(bytes_lt(a4, b4) == (a4[0] < b4[0] || (a4[0] == b4[0] && bytes_lt(a5, b5))));
    assert(bytes_lt(a5, b5) == (a5[0] < b5[0] || (a5[0] == b5[0] && bytes_lt(a6, b6))));
    assert(bytes_lt(a6, b6) == (a6[0] < b6[0] || (a6[0] == b6[0] && bytes_lt(a7, b7))));
    assert(bytes_lt(a7, b7) == (a7[0] < b7[0]));
}

/// The big-endian encoding of unsigned values orders bytewise as the values
/// order numerically.
pub proof fn lemma_u64_encoding_orders(x: u64, y: u64)
    requires
        x < y,
    ensures
        bytes_lt(u64_be_bytes(x), u64_be_bytes(y)),
{
    let a = u64_be_bytes(x);
    let b = u64_be_bytes(y);
    assert(x < y ==> ((x >> 56) & 0xff < (y >> 56) & 0xff || ((x >> 56) & 0xff == (y >> 56) & 0xff
        && ((x >> 48) & 0xff < (y >> 48) & 0xff || ((x >> 48) & 0xff == (y >> 48) & 0xff && ((x
        >> 40) & 0xff < (y >> 40) & 0xff || ((x >> 40) & 0xff == (y >> 40) & 0xff && ((x >> 32)
        & 0xff < (y >> 32) & 0xff || ((x >> 32) & 0xff == (y >> 32) & 0xff && ((x >> 24) & 0xff
        < (y >> 24) & 0xff || ((x >> 24) & 0xff == (y >> 24) & 0xff && ((x >> 16) & 0xff < (y
        >> 16) & 0xff || ((x >> 16) & 0xff == (y >> 16) & 0xff && ((x >> 8) & 0xff < (y >> 8)
        & 0xff || ((x >> 8) & 0xff == (y >> 8) & 0xff && x & 0xff < y & 0xff)))))))))))))))
        by (bit_vector);
    assert((x >> 56) & 0xff < 256 && (x >> 48) & 0xff < 256 && (x >> 40) & 0xff < 256 && (x >> 32)
        & 0xff < 256 && (x >> 24) & 0xff < 256 && (x >> 16) & 0xff < 256 && (x >> 8) & 0xff < 256
        && x & 0xff < 256) by (bit_vector);
    assert((y >> 56) & 0xff < 256 && (y >> 48) & 0xff < 256 && (y >> 40) & 0xff < 256 && (y >> 32)
        & 0xff < 256 && (y >> 24) & 0xff < 256 && (y >> 16) & 0xff < 256 && (y >> 8) & 0xff < 256
        && y & 0xff < 256) by (bit_vector);
    lemma_bytes_lt_unfold8(a, b);
}

/// For non-negative signed terms the byte encoding orders as the numbers do.
pub proof fn lemma_i64_encoding_orders_nonnegative(x: i64, y: i64)
    requires
        0 <= x < y,
    ensures
        bytes_lt(term_bytes(TermV::I64(x)), term_bytes(TermV::I64(y))),
{
    assert(0 <= x < y ==> (x as u64) < (y as u64)) by (bit_vector);
    lemma_u64_encoding_orders(x as u64, y as u64);
}

/// The documented limitation of the signed encoding: with no sign-bit
/// transformation, a negative term encodes bytewise *greater* than every
/// non-negative term, against numeric order.
pub proof fn lemma_i64_negative_encodes_greater(x: i64, y: i64)
    requires
        x < 0 <= y,
    ensures
        bytes_lt(term_bytes(TermV::I64(y)), term_bytes(TermV::I64(x))),
{
    assert(x < 0 ==> ((x as u64) >> 56) & 0xff >= 128) by (bit_vector);
    assert(y >= 0 ==> ((y as u64) >> 56) & 0xff < 128) by (bit_vector);
    assert(((x as u64) >> 56) & 0xff < 256 && ((y as u64) >> 56) & 0xff < 256) by (bit_vector);
    let a = u64_be_bytes(y as u64);
    let b = u64_be_bytes(x as u64);
    lemma_bytes_lt_unfold8(a, b);
}

/// For instants at or after the Unix epoch the byte encoding orders
/// chronologically; instants before the epoch inherit the signed encoding's
/// caveat.
pub proof fn lemma_datetime_encoding_orders(x: DateTime, y: DateTime)
    requires
        x.wf(),
        y.wf(),
        0 <= x.micros() < y.micros(),
    ensures
        bytes_lt(term_bytes(TermV::DateTime(x)), term_bytes(TermV::DateTime(y))),
{
    assert(y.micros() <= DATETIME_MAX_SECONDS * 1_000_000 + 1_999_999);
    lemma_i64_encoding_orders_nonnegative(x.micros() as i64, y.micros() as i64);
}

/// Encoding is deterministic: terms with equal values encode to equal bytes.
pub proof fn lemma_encoding_deterministic(a: Term, b: Term)
    requires
        a@ == b@,
    ensures
        term_bytes(a@) == term_bytes(b@),
{
}

/// A term tagged with its position in the analyzed text.
#[derive(Debug, PartialEq, Eq, Clone, Hash)]
pub struct Token {
    pub term: Term,
    pub position: usize,
}

/// The mathematical value of a `Token`.
pub ghost struct TokenV {
    pub term: TermV,
    pub position: int,
}

impl View for Token {
    type V = TokenV;

    open spec fn view(&self) -> TokenV {
        TokenV { term: self.term@, position: self.position as int }
    }
}

} // verus!
