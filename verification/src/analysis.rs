//! Analyzer configuration and the analysis pipeline.
//!
//! An analyzer is a tokenizer followed by a chain of token filters. The
//! tokenizer splits raw text into position-tagged token strings; each filter
//! transforms every token in order, and an n-gram filter may expand one
//! token into many, all keeping the source token's position. Analysis is a
//! pure function of the text and the analyzer's configuration.
use vstd::prelude::*;

use crate::term::{Term, TermV, Token, TokenV};

verus! {

broadcast use vstd::std_specs::vec::group_vec_axioms;

/// Which end of the token n-grams are anchored to.
#[derive(Debug, Clone, Copy, PartialEq, Eq, Structural)]
pub enum Edge {
    Left,
    Right,
    Neither,
}

/// How raw text splits into token strings.
#[derive(Debug, Clone, Copy, PartialEq, Eq, Structural)]
pub enum TokenizerSpec {
    /// Split at word boundaries, keeping the words.
    Standard,
    /// Substrings with lengths from `min_size` through `max_size`, anchored
    /// as `edge` says.
    NGram { min_size: usize, max_size: usize, edge: Edge },
    /// The whole text as one token: an unanalyzed field.
    Verbatim,
}

/// One token-to-tokens transform of the filter chain.
#[derive(Debug, Clone, Copy, PartialEq, Eq, Structural)]
pub enum FilterSpec {
    /// Lowercase each token.
    Lowercase,
    /// Fold Latin-1 accented letters to their plain ASCII letter.
    ASCIIFolding,
    /// Expand each token into its n-grams.
    NGram { min_size: usize, max_size: usize, edge: Edge },
}

/// A tokenizer with its filter chain.
#[derive(Debug, PartialEq)]
pub struct AnalyzerSpec {
    pub tokenizer: TokenizerSpec,
    pub filters: Vec<FilterSpec>,
}

/// The mathematical value of an `AnalyzerSpec`.
pub ghost struct AnalyzerSpecV {
    pub tokenizer: TokenizerSpec,
    pub filters: Seq<FilterSpec>,
}

impl View for AnalyzerSpec {
    type V = AnalyzerSpecV;

    open spec fn view(&self) -> AnalyzerSpecV {
        AnalyzerSpecV { tokenizer: self.tokenizer, filters: self.filters@ }
    }
}

impl AnalyzerSpec {
    /// A copy of the analyzer, equal through the view.
    pub fn duplicate(&self) -> (r: AnalyzerSpec)
        ensures
            r@ == self@,
    {
        let mut filters: Vec<FilterSpec> = Vec::new();
        let mut i: usize = 0;
        while i < self.filters.len()
            invariant
                i <= self.filters@.len(),
                filters@ == self.filters@.take(i as int),
            decreases self.filters@.len() - i,
        {
            filters.push(self.filters[i]);
            proof {
                assert(filters@ =~= self.filters@.take(i + 1));
            }
            i = i + 1;
        }
        proof {
            assert(self.filters@.take(i as int) =~= self.filters@);
        }
        AnalyzerSpec { tokenizer: self.tokenizer, filters }
    }
}

/// The built-in standard analyzer: word tokens, lowercased and
/// ASCII-folded.
pub open spec fn standard_analyzer() -> AnalyzerSpecV {
    AnalyzerSpecV {
        tokenizer: TokenizerSpec::Standard,
        filters: seq![FilterSpec::Lowercase, FilterSpec::ASCIIFolding],
    }
}

/// The built-in standard analyzer.
pub fn get_standard_analyzer() -> (r: AnalyzerSpec)
    ensures
        r@ == standard_analyzer(),
{
    let mut filters: Vec<FilterSpec> = Vec::new();
    filters.push(FilterSpec::Lowercase);
    filters.push(FilterSpec::ASCIIFolding);
    proof {
        assert(filters@ =~= standard_analyzer().filters);
    }
    AnalyzerSpec { tokenizer: TokenizerSpec::Standard, filters }
}

/// The built-in edge-n-gram analyzer: front-anchored grams of 2 through 15
/// characters, lowercased and ASCII-folded.
pub open spec fn edgengram_analyzer() -> AnalyzerSpecV {
    AnalyzerSpecV {
        tokenizer: TokenizerSpec::NGram { min_size: 2, max_size: 15, edge: Edge::Left },
        filters: seq![FilterSpec::Lowercase, FilterSpec::ASCIIFolding],
    }
}

/// The built-in edge-n-gram analyzer.
pub fn get_edgengram_analyzer() -> (r: AnalyzerSpec)
    ensures
        r@ == edgengram_analyzer(),
{
    let mut filters: Vec<FilterSpec> = Vec::new();
    filters.push(FilterSpec::Lowercase);
    filters.push(FilterSpec::ASCIIFolding);
    proof {
        assert(filters@ =~= edgengram_analyzer().filters);
    }
    AnalyzerSpec {
        tokenizer: TokenizerSpec::NGram { min_size: 2, max_size: 15, edge: Edge::Left },
        filters,
    }
}

/// The word tokens of a text, in order: what unicode-segmentation's
/// `unicode_words` yields for it.
pub uninterp spec fn words_of(text: Seq<char>) -> Seq<Seq<char>>;

/// The lowercase form of a text: what `str::to_lowercase` yields for it.
pub uninterp spec fn lower_of(text: Seq<char>) -> Seq<char>;

/// Relies on unicode-segmentation's `unicode_words`: the split depends on
/// the text alone, and an empty text has no words.
#[verifier::external_body]
fn split_words(text: &str) -> (r: Vec<String>)
    ensures
        r.deep_view() == words_of(text@),
        text@.len() == 0 ==> r@.len() == 0,
{
    unicode_segmentation::UnicodeSegmentation::unicode_words(text)
        .map(|w| w.to_string())
        .collect()
}

/// Relies on `str::to_lowercase`: the result depends on the characters
/// alone, and an empty text stays empty.
#[verifier::external_body]
fn lowercase(text: &str) -> (r: String)
    ensures
        r@ == lower_of(text@),
        text@.len() == 0 ==> r@.len() == 0,
{
    text.to_lowercase()
}

/// Relies on `String::from_iter`: collecting characters yields the string
/// of exactly those characters.
#[verifier::external_body]
pub(crate) fn string_from_chars(chars: &Vec<char>) -> (r: String)
    ensures
        r@ == chars@,
{
    chars.iter().collect()
}

/// The characters of a string, in order.
fn str_to_chars(s: &str) -> (r: Vec<char>)
    ensures
        r@ == s@,
{
    let len = s.unicode_len();
    let mut r: Vec<char> = Vec::new();
    let mut i: usize = 0;
    while i < len
        invariant
            i <= len,
            len == s@.len(),
            r@ == s@.take(i as int),
        decreases len - i,
    {
        r.push(s.get_char(i));
        proof {
            assert(r@ =~= s@.take(i + 1));
        }
        i = i + 1;
    }
    proof {
        assert(s@.take(i as int) =~= s@);
    }
    r
}

/// Folds one Latin-1 accented letter to its plain ASCII letter; any other
/// character stands unchanged.
pub open spec fn spec_fold_char(c: char) -> char {
    let v = c as u32;
    if (0xC0 <= v && v <= 0xC5) || (0xE0 <= v && v <= 0xE5) {
        'a'
    } else if v == 0xC7 || v == 0xE7 {
        'c'
    } else if (0xC8 <= v && v <= 0xCB) || (0xE8 <= v && v <= 0xEB) {
        'e'
    } else if (0xCC <= v && v <= 0xCF) || (0xEC <= v && v <= 0xEF) {
        'i'
    } else if v == 0xD1 || v == 0xF1 {
        'n'
    } else if (0xD2 <= v && v <= 0xD6) || v == 0xD8 || (0xF2 <= v && v <= 0xF6) || v == 0xF8 {
        'o'
    } else if (0xD9 <= v && v <= 0xDC) || (0xF9 <= v && v <= 0xFC) {
        'u'
    } else if v == 0xDD || v == 0xFD || v == 0xFF {
        'y'
    } else {
        c
    }
}

/// The ASCII-folded form of a text, character by character.
pub open spec fn fold_of(text: Seq<char>) -> Seq<char> {
    text.map_values(|c: char| spec_fold_char(c))
}

fn fold_char(c: char) -> (r: char)
    ensures
        r == spec_fold_char(c),
{
    let v = c as u32;
    if (0xC0 <= v && v <= 0xC5) || (0xE0 <= v && v <= 0xE5) {
        'a'
    } else if v == 0xC7 || v == 0xE7 {
        'c'
    } else if (0xC8 <= v && v <= 0xCB) || (0xE8 <= v && v <= 0xEB) {
        'e'
    } else if (0xCC <= v && v <= 0xCF) || (0xEC <= v && v <= 0xEF) {
        'i'
    } else if v == 0xD1 || v == 0xF1 {
        'n'
    } else if (0xD2 <= v && v <= 0xD6) || v == 0xD8 || (0xF2 <= v && v <= 0xF6) || v == 0xF8 {
        'o'
    } else if (0xD9 <= v && v <= 0xDC) || (0xF9 <= v && v <= 0xFC) {
        'u'
    } else if v == 0xDD || v == 0xFD || v == 0xFF {
        'y'
    } else {
        c
    }
}

fn fold_string(s: &str) -> (r: String)
    ensures
        r@ == fold_of(s@),
{
    let chars = str_to_chars(s);
    let mut out: Vec<char> = Vec::new();
    let mut i: usize = 0;
    while i < chars.len()
        invariant
            i <= chars@.len(),
            chars@ == s@,
            out@.len() == i,
            forall|j: int| 0 <= j < i ==> out@[j] == spec_fold_char(s@[j]),
        decreases chars@.len() - i,
    {
        out.push(fold_char(chars[i]));
        i = i + 1;
    }
    let r = string_from_chars(&out);
    proof {
        assert(r@ =~= fold_of(s@));
    }
    r
}

/// The n-grams of a text anchored at position `start`: the substrings
/// beginning there whose lengths run from `min` up through `max` (cut off
/// at the end of the text), shortest first.
pub open spec fn ngrams_at(s: Seq<char>, min: int, max: int, start: int) -> Seq<Seq<char>> {
    let hi = if max <= s.len() - start {
        max
    } else {
        s.len() - start
    };
    if min < 1 || min > hi {
        Seq::empty()
    } else {
        Seq::new((hi - min + 1) as nat, |k: int| s.subrange(start, start + min + k))
    }
}

/// The n-grams of a text anchored at its end, shortest first.
pub open spec fn ngrams_at_end(s: Seq<char>, min: int, max: int) -> Seq<Seq<char>> {
    let hi = if max <= s.len() {
        max
    } else {
        s.len() as int
    };
    if min < 1 || min > hi {
        Seq::empty()
    } else {
        Seq::new((hi - min + 1) as nat, |k: int| s.subrange(s.len() - (min + k), s.len() as int))
    }
}

/// The unanchored n-grams of a text: for each start position in order, the
/// grams anchored there, shortest first.
pub open spec fn ngrams_from(s: Seq<char>, min: int, max: int, start: int) -> Seq<Seq<char>>
    decreases s.len() - start,
{
    if start < 0 || start >= s.len() {
        Seq::empty()
    } else {
        ngrams_at(s, min, max, start) + ngrams_from(s, min, max, start + 1)
    }
}

/// The n-grams of a text with lengths from `min` through `max`: anchored at
/// the front for `Edge::Left`, at the back for `Edge::Right`, and at every
/// position for `Edge::Neither`.
pub open spec fn ngrams_of(s: Seq<char>, min: int, max: int, edge: Edge) -> Seq<Seq<char>> {
    match edge {
        Edge::Left => ngrams_at(s, min, max, 0),
        Edge::Right => ngrams_at_end(s, min, max),
        Edge::Neither => ngrams_from(s, min, max, 0),
    }
}

fn chars_sub(chars: &Vec<char>, from: usize, to: usize) -> (r: String)
    requires
        from <= to <= chars@.len(),
    ensures
        r@ == chars@.subrange(from as int, to as int),
{
    let mut out: Vec<char> = Vec::new();
    let mut i: usize = from;
    while i < to
        invariant
            from <= i <= to <= chars@.len(),
            out@ == chars@.subrange(from as int, i as int),
        decreases to - i,
    {
        out.push(chars[i]);
        proof {
            assert(out@ =~= chars@.subrange(from as int, i + 1));
        }
        i = i + 1;
    }
    string_from_chars(&out)
}

/// The deep view of a string vector is its strings' views, elementwise.
pub(crate) proof fn lemma_strings_deep_view(v: &Vec<String>)
    ensures
        v.deep_view().len() == v@.len(),
        forall|j: int| 0 <= j < v@.len() ==> #[trigger] v.deep_view()[j] == v@[j]@,
{
}

/// Moves all strings of `src` to the end of `dst`.
fn append_strings(dst: &mut Vec<String>, src: Vec<String>)
    ensures
        final(dst).deep_view() == old(dst).deep_view() + src.deep_view(),
{
    proof {
        lemma_strings_deep_view(dst);
        lemma_strings_deep_view(&src);
    }
    let ghost d0 = dst.deep_view();
    let ghost s0 = src.deep_view();
    let ghost n0 = dst@.len();
    let mut i: usize = 0;
    while i < src.len()
        invariant
            i <= src@.len(),
            s0.len() == src@.len(),
            forall|j: int| 0 <= j < src@.len() ==> s0[j] == src@[j]@,
            d0.len() == n0,
            dst@.len() == n0 + i,
            forall|j: int| 0 <= j < n0 ==> d0[j] == dst@[j]@,
            forall|j: int| 0 <= j < i ==> dst@[n0 + j]@ == s0[j],
        decreases src@.len() - i,
    {
        dst.push(src[i].clone());
        i = i + 1;
    }
    proof {
        lemma_strings_deep_view(dst);
        assert(dst.deep_view() =~= d0 + s0);
    }
}

fn ngrams_at_exec(chars: &Vec<char>, min: usize, max: usize, start: usize) -> (r: Vec<String>)
    requires
        start <= chars@.len(),
    ensures
        r.deep_view() == ngrams_at(chars@, min as int, max as int, start as int),
{
    let avail = chars.len() - start;
    let hi = if max <= avail {
        max
    } else {
        avail
    };
    let mut r: Vec<String> = Vec::new();
    if min < 1 || min > hi {
        proof {
            lemma_strings_deep_view(&r);
            assert(r.deep_view() =~= ngrams_at(chars@, min as int, max as int, start as int));
        }
        return r;
    }
    let count = hi - min + 1;
    let mut k: usize = 0;
    while k < count
        invariant
            k <= count,
            count == hi - min + 1,
            1 <= min <= hi,
            start + hi <= chars@.len(),
            chars@.len() <= usize::MAX,
            r@.len() == k,
            forall|j: int|
                0 <= j < k ==> r@[j]@ == chars@.subrange(start as int, start + min + j),
        decreases count - k,
    {
        let g = chars_sub(chars, start, start + min + k);
        r.push(g);
        k = k + 1;
    }
    proof {
        lemma_strings_deep_view(&r);
        assert(r.deep_view() =~= ngrams_at(chars@, min as int, max as int, start as int));
    }
    r
}

fn ngrams_at_end_exec(chars: &Vec<char>, min: usize, max: usize) -> (r: Vec<String>)
    ensures
        r.deep_view() == ngrams_at_end(chars@, min as int, max as int),
{
    let len = chars.len();
    let hi = if max <= len {
        max
    } else {
        len
    };
    let mut r: Vec<String> = Vec::new();
    if min < 1 || min > hi {
        proof {
            lemma_strings_deep_view(&r);
            assert(r.deep_view() =~= ngrams_at_end(chars@, min as int, max as int));
        }
        return r;
    }
    let count = hi - min + 1;
    let mut k: usize = 0;
    while k < count
        invariant
            k <= count,
            count == hi - min + 1,
            1 <= min <= hi,
            hi <= chars@.len(),
            chars@.len() <= usize::MAX,
            len == chars@.len(),
            r@.len() == k,
            forall|j: int|
                0 <= j < k ==> r@[j]@ == chars@.subrange(
                    chars@.len() - (min + j),
                    chars@.len() as int,
                ),
        decreases count - k,
    {
        let g = chars_sub(chars, len - (min + k), len);
        r.push(g);
        k = k + 1;
    }
    proof {
        lemma_strings_deep_view(&r);
        assert(r.deep_view() =~= ngrams_at_end(chars@, min as int, max as int));
    }
    r
}

fn ngrams_from_exec(chars: &Vec<char>, min: usize, max: usize, start: usize) -> (r: Vec<String>)
    requires
        start <= chars@.len(),
    ensures
        r.deep_view() == ngrams_from(chars@, min as int, max as int, start as int),
    decreases chars@.len() - start,
{
    if start >= chars.len() {
        let r: Vec<String> = Vec::new();
        proof {
            lemma_strings_deep_view(&r);
            assert(r.deep_view() =~= ngrams_from(chars@, min as int, max as int, start as int));
        }
        return r;
    }
    let mut r = ngrams_at_exec(chars, min, max, start);
    let rest = ngrams_from_exec(chars, min, max, start + 1);
    append_strings(&mut r, rest);
    r
}

fn ngrams_exec(chars: &Vec<char>, min: usize, max: usize, edge: Edge) -> (r: Vec<String>)
    ensures
        r.deep_view() == ngrams_of(chars@, min as int, max as int, edge),
{
    match edge {
        Edge::Left => ngrams_at_exec(chars, min, max, 0),
        Edge::Right => ngrams_at_end_exec(chars, min, max),
        Edge::Neither => ngrams_from_exec(chars, min, max, 0),
    }
}


/// Token strings numbered with positions starting at 1, in order.
pub open spec fn number_strings(ss: Seq<Seq<char>>) -> Seq<(Seq<char>, int)> {
    Seq::new(ss.len(), |i: int| (ss[i], i + 1))
}

/// What a tokenizer yields for a text: position-tagged token strings.
pub open spec fn spec_tokenize(t: TokenizerSpec, text: Seq<char>) -> Seq<(Seq<char>, int)> {
    match t {
        TokenizerSpec::Standard => number_strings(words_of(text)),
        TokenizerSpec::NGram { min_size, max_size, edge } => number_strings(
            ngrams_of(text, min_size as int, max_size as int, edge),
        ),
        TokenizerSpec::Verbatim => seq![(text, 1int)],
    }
}

/// Token strings all tagged with one source position.
pub open spec fn tag_position(ss: Seq<Seq<char>>, p: int) -> Seq<(Seq<char>, int)> {
    Seq::new(ss.len(), |i: int| (ss[i], p))
}

/// Each token expanded into its n-grams, every gram keeping the source
/// token's position.
pub open spec fn ngram_expand(
    toks: Seq<(Seq<char>, int)>,
    min: int,
    max: int,
    edge: Edge,
) -> Seq<(Seq<char>, int)>
    decreases toks.len(),
{
    if toks.len() == 0 {
        Seq::empty()
    } else {
        tag_position(ngrams_of(toks[0].0, min, max, edge), toks[0].1) + ngram_expand(
            toks.drop_first(),
            min,
            max,
            edge,
        )
    }
}

/// What one filter yields: lowercasing and folding transform each token in
/// place; the n-gram filter expands each token.
pub open spec fn spec_apply_filter(
    f: FilterSpec,
    toks: Seq<(Seq<char>, int)>,
) -> Seq<(Seq<char>, int)> {
    match f {
        FilterSpec::Lowercase => Seq::new(toks.len(), |i: int| (lower_of(toks[i].0), toks[i].1)),
        FilterSpec::ASCIIFolding => Seq::new(toks.len(), |i: int| (fold_of(toks[i].0), toks[i].1)),
        FilterSpec::NGram { min_size, max_size, edge } => ngram_expand(
            toks,
            min_size as int,
            max_size as int,
            edge,
        ),
    }
}

/// The filters of a chain applied in declared order.
pub open spec fn spec_apply_filters(
    fs: Seq<FilterSpec>,
    toks: Seq<(Seq<char>, int)>,
) -> Seq<(Seq<char>, int)>
    decreases fs.len(),
{
    if fs.len() == 0 {
        toks
    } else {
        spec_apply_filters(fs.drop_first(), spec_apply_filter(fs[0], toks))
    }
}

/// Position-tagged token strings as token values.
pub open spec fn to_token_views(toks: Seq<(Seq<char>, int)>) -> Seq<TokenV> {
    Seq::new(toks.len(), |i: int| TokenV { term: TermV::String(toks[i].0), position: toks[i].1 })
}

/// What analyzing a text yields: the tokenizer's tokens, run through the
/// filter chain in order. Analysis is a pure function of the analyzer and
/// the text.
pub open spec fn spec_analyze(a: AnalyzerSpecV, text: Seq<char>) -> Seq<TokenV> {
    to_token_views(spec_apply_filters(a.filters, spec_tokenize(a.tokenizer, text)))
}

/// The views of position-tagged token strings, elementwise.
pub open spec fn pairs_view(s: Seq<(String, usize)>) -> Seq<(Seq<char>, int)> {
    Seq::new(s.len(), |i: int| (s[i].0@, s[i].1 as int))
}

/// The views of a token vector, elementwise.
pub open spec fn tokens_view(s: Seq<Token>) -> Seq<TokenV> {
    Seq::new(s.len(), |i: int| s[i]@)
}

fn number_exec(ss: Vec<String>) -> (r: Vec<(String, usize)>)
    ensures
        pairs_view(r@) == number_strings(ss.deep_view()),
{
    proof {
        lemma_strings_deep_view(&ss);
    }
    let mut r: Vec<(String, usize)> = Vec::new();
    let mut i: usize = 0;
    while i < ss.len()
        invariant
            i <= ss@.len(),
            ss.deep_view().len() == ss@.len(),
            forall|j: int| 0 <= j < ss@.len() ==> ss.deep_view()[j] == ss@[j]@,
            r@.len() == i,
            forall|j: int| 0 <= j < i ==> r@[j].0@ == ss@[j]@ && r@[j].1 == j + 1,
        decreases ss@.len() - i,
    {
        r.push((ss[i].clone(), i + 1));
        i = i + 1;
    }
    proof {
        assert(pairs_view(r@) =~= number_strings(ss.deep_view()));
    }
    r
}

fn tokenize_exec(t: &TokenizerSpec, text: &str) -> (r: Vec<(String, usize)>)
    ensures
        pairs_view(r@) == spec_tokenize(*t, text@),
{
    match t {
        TokenizerSpec::Standard => number_exec(split_words(text)),
        TokenizerSpec::NGram { min_size, max_size, edge } => {
            let chars = str_to_chars(text);
            number_exec(ngrams_exec(&chars, *min_size, *max_size, *edge))
        },
        TokenizerSpec::Verbatim => {
            let mut r: Vec<(String, usize)> = Vec::new();
            r.push((text.to_owned(), 1));
            proof {
                assert(pairs_view(r@) =~= spec_tokenize(*t, text@));
            }
            r
        },
    }
}

fn apply_filter_exec(f: &FilterSpec, toks: Vec<(String, usize)>) -> (r: Vec<(String, usize)>)
    ensures
        pairs_view(r@) == spec_apply_filter(*f, pairs_view(toks@)),
{
    let ghost tv = pairs_view(toks@);
    match f {
        FilterSpec::Lowercase => {
            let mut r: Vec<(String, usize)> = Vec::new();
            let mut i: usize = 0;
            while i < toks.len()
                invariant
                    i <= toks@.len(),
                    tv == pairs_view(toks@),
                    tv.len() == toks@.len(),
                    r@.len() == i,
                    forall|j: int|
                        0 <= j < i ==> r@[j].0@ == lower_of(toks@[j].0@) && r@[j].1
                            == toks@[j].1,
                decreases toks@.len() - i,
            {
                r.push((lowercase(toks[i].0.as_str()), toks[i].1));
                i = i + 1;
            }
            proof {
                assert(pairs_view(r@) =~= spec_apply_filter(*f, tv));
            }
            r
        },
        FilterSpec::ASCIIFolding => {
            let mut r: Vec<(String, usize)> = Vec::new();
            let mut i: usize = 0;
            while i < toks.len()
                invariant
                    i <= toks@.len(),
                    tv == pairs_view(toks@),
                    tv.len() == toks@.len(),
                    r@.len() == i,
                    forall|j: int|
                        0 <= j < i ==> r@[j].0@ == fold_of(toks@[j].0@) && r@[j].1 == toks@[j].1,
                decreases toks@.len() - i,
            {
                r.push((fold_string(toks[i].0.as_str()), toks[i].1));
                i = i + 1;
            }
            proof {
                assert(pairs_view(r@) =~= spec_apply_filter(*f, tv));
            }
            r
        },
        FilterSpec::NGram { min_size, max_size, edge } => {
            let ghost mn = *min_size as int;
            let ghost mx = *max_size as int;
            let mut r: Vec<(String, usize)> = Vec::new();
            let mut i: usize = 0;
            proof {
                assert(tv.skip(0) =~= tv);
                assert(pairs_view(r@) =~= Seq::<(Seq<char>, int)>::empty());
                assert(Seq::<(Seq<char>, int)>::empty() + ngram_expand(tv, mn, mx, *edge)
                    =~= ngram_expand(tv, mn, mx, *edge));
            }
            while i < toks.len()
                invariant
                    i <= toks@.len(),
                    tv == pairs_view(toks@),
                    tv.len() == toks@.len(),
                    mn == *min_size as int,
                    mx == *max_size as int,
                    forall|j: int| 0 <= j < tv.len() ==> tv[j] == (toks@[j].0@, toks@[j].1 as int),
                    ngram_expand(tv, mn, mx, *edge) == pairs_view(r@) + ngram_expand(
                        tv.skip(i as int),
                        mn,
                        mx,
                        *edge,
                    ),
                decreases toks@.len() - i,
            {
                let ghost prev = pairs_view(r@);
                let ghost head = tv.skip(i as int)[0];
                proof {
                    assert(head == tv[i as int]);
                    assert(tv.skip(i as int).drop_first() =~= tv.skip(i + 1));
                }
                let chars = str_to_chars(toks[i].0.as_str());
                let grams = ngrams_exec(&chars, *min_size, *max_size, *edge);
                let p = toks[i].1;
                proof {
                    lemma_strings_deep_view(&grams);
                }
                let ghost n0 = r@.len();
                let mut gi: usize = 0;
                while gi < grams.len()
                    invariant
                        gi <= grams@.len(),
                        grams.deep_view().len() == grams@.len(),
                        forall|j: int| 0 <= j < grams@.len() ==> grams.deep_view()[j] == grams@[j]@,
                        r@.len() == n0 + gi,
                        prev.len() == n0,
                        forall|j: int| 0 <= j < n0 ==> prev[j] == (r@[j].0@, r@[j].1 as int),
                        forall|j: int|
                            0 <= j < gi ==> r@[n0 + j].0@ == grams@[j]@ && r@[n0 + j].1 == p,
                    decreases grams@.len() - gi,
                {
                    r.push((grams[gi].clone(), p));
                    gi = gi + 1;
                }
                proof {
                    assert(pairs_view(r@) =~= prev + tag_position(grams.deep_view(), p as int));
                    assert(grams.deep_view() == ngrams_of(head.0, mn, mx, *edge));
                    assert(ngram_expand(tv.skip(i as int), mn, mx, *edge) == tag_position(
                        grams.deep_view(),
                        p as int,
                    ) + ngram_expand(tv.skip(i + 1), mn, mx, *edge));
                    assert(prev + (tag_position(grams.deep_view(), p as int) + ngram_expand(
                        tv.skip(i + 1),
                        mn,
                        mx,
                        *edge,
                    )) =~= (prev + tag_position(grams.deep_view(), p as int)) + ngram_expand(
                        tv.skip(i + 1),
                        mn,
                        mx,
                        *edge,
                    ));
                }
                i = i + 1;
            }
            proof {
                assert(tv.skip(i as int) =~= Seq::<(Seq<char>, int)>::empty());
                assert(pairs_view(r@) + Seq::<(Seq<char>, int)>::empty() =~= pairs_view(r@));
            }
            r
        },
    }
}

fn apply_filters_exec(fs: &Vec<FilterSpec>, toks: Vec<(String, usize)>) -> (r: Vec<
    (String, usize),
>)
    ensures
        pairs_view(r@) == spec_apply_filters(fs@, pairs_view(toks@)),
{
    let ghost tv0 = pairs_view(toks@);
    let mut cur = toks;
    let mut i: usize = 0;
    proof {
        assert(fs@.skip(0) =~= fs@);
    }
    while i < fs.len()
        invariant
            i <= fs@.len(),
            spec_apply_filters(fs@, tv0) == spec_apply_filters(
                fs@.skip(i as int),
                pairs_view(cur@),
            ),
        decreases fs@.len() - i,
    {
        proof {
            assert(fs@.skip(i as int)[0] == fs@[i as int]);
            assert(fs@.skip(i as int).drop_first() =~= fs@.skip(i + 1));
        }
        cur = apply_filter_exec(&fs[i], cur);
        i = i + 1;
    }
    proof {
        assert(fs@.skip(i as int) =~= Seq::<FilterSpec>::empty());
    }
    cur
}

impl AnalyzerSpec {
    /// Analyzes a text: tokenizes it and runs the filter chain, yielding
    /// position-tagged string terms. A pure function of the analyzer and
    /// the text.
    pub fn analyze(&self, text: &str) -> (r: Vec<Token>)
        ensures
            tokens_view(r@) == spec_analyze(self@, text@),
    {
        let toks = tokenize_exec(&self.tokenizer, text);
        let toks = apply_filters_exec(&self.filters, toks);
        let mut r: Vec<Token> = Vec::new();
        let mut i: usize = 0;
        while i < toks.len()
            invariant
                i <= toks@.len(),
                r@.len() == i,
                forall|j: int|
                    0 <= j < i ==> r@[j].term == Term::String(toks@[j].0) && r@[j].position
                        == toks@[j].1,
            decreases toks@.len() - i,
        {
            r.push(Token { term: Term::String(toks[i].0.clone()), position: toks[i].1 });
            i = i + 1;
        }
        proof {
            assert(tokens_view(r@) =~= spec_analyze(self@, text@));
        }
        r
    }
}

/// First-match lookup by name in an association list.
pub open spec fn assoc_get<T>(entries: Seq<(Seq<char>, T)>, name: Seq<char>) -> Option<T>
    decreases entries.len(),
{
    if entries.len() == 0 {
        None
    } else if entries[0].0 == name {
        Some(entries[0].1)
    } else {
        assoc_get(entries.drop_first(), name)
    }
}

/// The view of a named list of plain (copiable) specifications.
pub open spec fn named_view<T>(s: Seq<(String, T)>) -> Seq<(Seq<char>, T)> {
    Seq::new(s.len(), |i: int| (s[i].0@, s[i].1))
}

/// The view of a named list of analyzers.
pub open spec fn named_analyzers_view(s: Seq<(String, AnalyzerSpec)>) -> Seq<
    (Seq<char>, AnalyzerSpecV),
> {
    Seq::new(s.len(), |i: int| (s[i].0@, s[i].1@))
}

fn find_plain<'a, T: Copy>(entries: &'a Vec<(String, T)>, name: &str) -> (r: Option<&'a T>)
    ensures
        match r {
            Some(t) => assoc_get(named_view(entries@), name@) == Some(*t),
            None => assoc_get(named_view(entries@), name@) is None,
        },
{
    let ghost ev = named_view(entries@);
    let mut i: usize = 0;
    proof {
        assert(ev.skip(0) =~= ev);
    }
    while i < entries.len()
        invariant
            i <= entries@.len(),
            ev == named_view(entries@),
            ev.len() == entries@.len(),
            forall|j: int| 0 <= j < ev.len() ==> ev[j] == (entries@[j].0@, entries@[j].1),
            assoc_get(ev, name@) == assoc_get(ev.skip(i as int), name@),
        decreases entries@.len() - i,
    {
        proof {
            assert(ev.skip(i as int)[0] == ev[i as int]);
            assert(ev.skip(i as int).drop_first() =~= ev.skip(i + 1));
        }
        if crate::json::str_eq(entries[i].0.as_str(), name) {
            return Some(&entries[i].1);
        }
        i = i + 1;
    }
    proof {
        assert(ev.skip(i as int).len() == 0);
    }
    None
}

/// Named tokenizers, token filters and assembled analyzers, scoped to one
/// index. A later definition of a name shadows an earlier one.
#[derive(Debug)]
pub struct AnalyzerRegistry {
    tokenizers: Vec<(String, TokenizerSpec)>,
    filters: Vec<(String, FilterSpec)>,
    analyzers: Vec<(String, AnalyzerSpec)>,
}

impl AnalyzerRegistry {
    /// The registered tokenizers, newest first.
    pub closed spec fn tokenizers_v(self) -> Seq<(Seq<char>, TokenizerSpec)> {
        named_view(self.tokenizers@)
    }

    /// The registered token filters, newest first.
    pub closed spec fn filters_v(self) -> Seq<(Seq<char>, FilterSpec)> {
        named_view(self.filters@)
    }

    /// The registered analyzers, newest first.
    pub closed spec fn analyzers_v(self) -> Seq<(Seq<char>, AnalyzerSpecV)> {
        named_analyzers_view(self.analyzers@)
    }

    /// An empty registry.
    pub fn new() -> (r: AnalyzerRegistry)
        ensures
            r.tokenizers_v().len() == 0,
            r.filters_v().len() == 0,
            r.analyzers_v().len() == 0,
    {
        let r = AnalyzerRegistry { tokenizers: Vec::new(), filters: Vec::new(), analyzers: Vec::new() };
        proof {
            assert(r.tokenizers_v() =~= Seq::<(Seq<char>, TokenizerSpec)>::empty());
            assert(r.filters_v() =~= Seq::<(Seq<char>, FilterSpec)>::empty());
            assert(r.analyzers_v() =~= Seq::<(Seq<char>, AnalyzerSpecV)>::empty());
        }
        r
    }

    /// Registers a tokenizer under a name.
    pub fn insert_tokenizer(&mut self, name: String, tokenizer: TokenizerSpec)
        ensures
            final(self).tokenizers_v() == seq![(name@, tokenizer)] + old(self).tokenizers_v(),
            final(self).filters_v() == old(self).filters_v(),
            final(self).analyzers_v() == old(self).analyzers_v(),
    {
        self.tokenizers.insert(0, (name, tokenizer));
        proof {
            assert(self.tokenizers_v() =~= seq![(self.tokenizers@[0].0@, self.tokenizers@[0].1)]
                + old(self).tokenizers_v());
        }
    }

    /// Registers a token filter under a name.
    pub fn insert_filter(&mut self, name: String, filter: FilterSpec)
        ensures
            final(self).filters_v() == seq![(name@, filter)] + old(self).filters_v(),
            final(self).tokenizers_v() == old(self).tokenizers_v(),
            final(self).analyzers_v() == old(self).analyzers_v(),
    {
        self.filters.insert(0, (name, filter));
        proof {
            assert(self.filters_v() =~= seq![(self.filters@[0].0@, self.filters@[0].1)] + old(
                self,
            ).filters_v());
        }
    }

    /// Registers an assembled analyzer under a name.
    pub fn insert(&mut self, name: String, analyzer: AnalyzerSpec)
        ensures
            final(self).analyzers_v() == seq![(name@, analyzer@)] + old(self).analyzers_v(),
            final(self).tokenizers_v() == old(self).tokenizers_v(),
            final(self).filters_v() == old(self).filters_v(),
    {
        self.analyzers.insert(0, (name, analyzer));
        proof {
            assert(self.analyzers_v() =~= seq![(self.analyzers@[0].0@, self.analyzers@[0].1@)]
                + old(self).analyzers_v());
        }
    }

    /// The tokenizer registered under a name, if any.
    pub fn get_tokenizer<'a>(&'a self, name: &str) -> (r: Option<&'a TokenizerSpec>)
        ensures
            match r {
                Some(t) => assoc_get(self.tokenizers_v(), name@) == Some(*t),
                None => assoc_get(self.tokenizers_v(), name@) is None,
            },
    {
        find_plain(&self.tokenizers, name)
    }

    /// The token filter registered under a name, if any.
    pub fn get_filter<'a>(&'a self, name: &str) -> (r: Option<&'a FilterSpec>)
        ensures
            match r {
                Some(t) => assoc_get(self.filters_v(), name@) == Some(*t),
                None => assoc_get(self.filters_v(), name@) is None,
            },
    {
        find_plain(&self.filters, name)
    }

    /// The analyzer registered under a name, if any.
    pub fn get<'a>(&'a self, name: &str) -> (r: Option<&'a AnalyzerSpec>)
        ensures
            match r {
                Some(a) => assoc_get(self.analyzers_v(), name@) == Some(a@),
                None => assoc_get(self.analyzers_v(), name@) is None,
            },
    {
        let ghost ev = self.analyzers_v();
        let mut i: usize = 0;
        proof {
            assert(ev.skip(0) =~= ev);
        }
        while i < self.analyzers.len()
            invariant
                i <= self.analyzers@.len(),
                ev == named_analyzers_view(self.analyzers@),
                ev == self.analyzers_v(),
                ev.len() == self.analyzers@.len(),
                forall|j: int|
                    0 <= j < ev.len() ==> ev[j] == (self.analyzers@[j].0@, self.analyzers@[j].1@),
                assoc_get(ev, name@) == assoc_get(ev.skip(i as int), name@),
            decreases self.analyzers@.len() - i,
        {
            proof {
                assert(ev.skip(i as int)[0] == ev[i as int]);
                assert(ev.skip(i as int).drop_first() =~= ev.skip(i + 1));
            }
            if crate::json::str_eq(self.analyzers[i].0.as_str(), name) {
                return Some(&self.analyzers[i].1);
            }
            i = i + 1;
        }
        proof {
            assert(ev.skip(i as int).len() == 0);
        }
        None
    }

    /// How many tokenizers are registered.
    pub fn tokenizers_len(&self) -> (r: usize)
        ensures
            r == self.tokenizers_v().len(),
    {
        self.tokenizers.len()
    }

    /// How many token filters are registered.
    pub fn filters_len(&self) -> (r: usize)
        ensures
            r == self.filters_v().len(),
    {
        self.filters.len()
    }

    /// How many analyzers are registered.
    pub fn len(&self) -> (r: usize)
        ensures
            r == self.analyzers_v().len(),
    {
        self.analyzers.len()
    }
}

} // verus!
