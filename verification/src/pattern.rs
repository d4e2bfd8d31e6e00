//! Regular expressions as the rules use them: compiled once, matched often.

use vstd::prelude::*;
use vstd::string::StringSliceAdditionalSpecFns;
use vstd::utf8::{
    decode_utf8, encode_utf8, encode_utf8_decode_utf8, encode_utf8_valid_utf8, is_char_boundary,
    is_char_boundary_iff_not_is_continuation_byte, is_char_boundary_start_end_of_seq, valid_utf8,
    valid_utf8_split,
};

verus! {

/// `regex::Regex`, a compiled expression: carried around, never looked into.
#[verifier::external_type_specification]
#[verifier::external_body]
pub struct ExRegex(regex::Regex);

/// `regex::Error`, what the regex crate says of a pattern that it rejects:
/// carried around, never looked into.
#[verifier::external_type_specification]
#[verifier::external_body]
pub struct ExRegexError(regex::Error);

/// Whether `regex::Regex::new` accepts the pattern text, under the size limit
/// that it applies by default.
pub uninterp spec fn pattern_compiles(pattern: Seq<char>) -> bool;

/// Whether the expression that `regex::Regex::new` builds from the pattern
/// text matches somewhere in the haystack: what `Regex::is_match` answers.
pub uninterp spec fn pattern_matches(pattern: Seq<char>, haystack: Seq<char>) -> bool;

/// The byte ranges, start and end, of the matches that `Regex::find_iter`
/// yields for the expression built from the pattern text, in its order.
pub uninterp spec fn pattern_finds(pattern: Seq<char>, haystack: Seq<char>) -> Seq<(usize, usize)>;

/// What holds of the ranges of successive matches in a text of these bytes:
/// each lies within the text and between two characters, and none begins
/// before the one ahead of it has ended.
pub open spec fn well_placed(ranges: Seq<(usize, usize)>, bytes: Seq<u8>) -> bool {
    &&& forall|i: int|
        0 <= i < ranges.len() ==> {
            &&& (#[trigger] ranges[i]).0 <= ranges[i].1 <= bytes.len()
            &&& is_char_boundary(bytes, ranges[i].0 as int)
            &&& is_char_boundary(bytes, ranges[i].1 as int)
        }
    &&& forall|i: int, j: int|
        0 <= i < j < ranges.len() ==> (#[trigger] ranges[i]).1 <= (#[trigger] ranges[j]).0
}

/// The part of a text that lies in a range of its bytes.
pub open spec fn slice_text(text: Seq<char>, range: (usize, usize)) -> Seq<char> {
    decode_utf8(encode_utf8(text).subrange(range.0 as int, range.1 as int))
}

/// The matched parts of a text, for the ranges of its matches.
pub open spec fn matched_texts(text: Seq<char>, ranges: Seq<(usize, usize)>) -> Seq<Seq<char>> {
    Seq::new(ranges.len(), |i: int| slice_text(text, ranges[i]))
}

/// A pattern text together with the expression compiled from it.
///
/// A value is only ever made by compiling a text, so the compiled expression
/// is always the one that belongs to the text.
#[derive(Debug)]
pub struct Pattern {
    source: String,
    compiled: regex::Regex,
}

impl View for Pattern {
    type V = Seq<char>;

    closed spec fn view(&self) -> Seq<char> {
        self.source@
    }
}

impl DeepView for Pattern {
    type V = Seq<char>;

    open spec fn deep_view(&self) -> Seq<char> {
        self@
    }
}

/// A pattern text that did not compile, and what the regex crate said of it.
#[derive(Debug)]
pub struct PatternError {
    pub pattern: String,
    pub cause: regex::Error,
}

/// Calls `regex::Regex::new` and keeps the text beside the expression. The
/// call succeeds exactly on the texts that the crate accepts; the pattern made
/// stands for the text it was given.
#[verifier::external_body]
fn compile(source: &str) -> (r: Result<Pattern, regex::Error>)
    ensures
        r is Ok <==> pattern_compiles(source@),
        r matches Ok(p) ==> p@ == source@,
{
    match regex::Regex::new(source) {
        Ok(compiled) => Ok(Pattern { source: source.to_string(), compiled }),
        Err(e) => Err(e),
    }
}

/// Calls `regex::Regex::is_match` on the compiled expression.
#[verifier::external_body]
fn search(pattern: &Pattern, haystack: &str) -> (found: bool)
    ensures
        found == pattern_matches(pattern@, haystack@),
{
    pattern.compiled.is_match(haystack)
}

/// Calls `Regex::find_iter` and collects the start and end of each match. The
/// regex crate documents that the matches are successive and do not overlap,
/// and that their offsets lie between characters of the haystack.
#[verifier::external_body]
fn find_ranges(pattern: &Pattern, haystack: &str) -> (ranges: Vec<(usize, usize)>)
    ensures
        ranges@ == pattern_finds(pattern@, haystack@),
        well_placed(ranges@, haystack.spec_bytes()),
{
    pattern.compiled.find_iter(haystack).map(|found| (found.start(), found.end())).collect()
}

/// A place between two characters of a text is also one in every part of the
/// text that begins at its start and ends between two characters behind it.
proof fn lemma_boundary_in_prefix(bytes: Seq<u8>, start: int, end: int)
    requires
        valid_utf8(bytes),
        0 <= start <= end <= bytes.len(),
        is_char_boundary(bytes, start),
        is_char_boundary(bytes, end),
    ensures
        valid_utf8(bytes.subrange(0, end)),
        is_char_boundary(bytes.subrange(0, end), start),
{
    let head = bytes.subrange(0, end);
    valid_utf8_split(bytes, end);
    if start == end {
        is_char_boundary_start_end_of_seq(head);
    } else {
        is_char_boundary_iff_not_is_continuation_byte(bytes, start);
        is_char_boundary_iff_not_is_continuation_byte(head, start);
    }
}

/// Cuts the part between two places out of a text.
fn slice_between(text: &str, start: usize, end: usize) -> (part: String)
    requires
        start <= end <= text.spec_bytes().len(),
        is_char_boundary(text.spec_bytes(), start as int),
        is_char_boundary(text.spec_bytes(), end as int),
    ensures
        part@ == slice_text(text@, (start, end)),
{
    proof {
        encode_utf8_valid_utf8(text@);
        lemma_boundary_in_prefix(text.spec_bytes(), start as int, end as int);
    }
    let (head, _) = text.split_at(end);
    let (_, part) = head.split_at(start);
    proof {
        assert(part.spec_bytes() =~= text.spec_bytes().subrange(start as int, end as int));
        encode_utf8_decode_utf8(part@);
    }
    part.to_owned()
}

impl Pattern {
    /// Compiles a pattern text. Fails exactly on the texts that the regex
    /// crate does not accept, and the error then holds the text and what the
    /// crate said of it.
    pub fn new(source: &str) -> (r: Result<Pattern, PatternError>)
        ensures
            r is Ok <==> pattern_compiles(source@),
            r matches Ok(p) ==> p@ == source@,
            r matches Err(e) ==> e.pattern@ == source@,
    {
        match compile(source) {
            Ok(pattern) => Ok(pattern),
            Err(cause) => Err(PatternError { pattern: source.to_owned(), cause }),
        }
    }

    /// The text the pattern was compiled from.
    pub fn as_str(&self) -> (text: &str)
        ensures
            text@ == self@,
    {
        self.source.as_str()
    }

    /// The parts of the haystack that the pattern matches, from left to right:
    /// the matches are searched one behind the other and do not overlap.
    pub fn find_all(&self, haystack: &str) -> (found: Vec<String>)
        ensures
            found.deep_view() == matched_texts(haystack@, pattern_finds(self@, haystack@)),
            well_placed(pattern_finds(self@, haystack@), encode_utf8(haystack@)),
    {
        let ranges = find_ranges(self, haystack);
        let mut found: Vec<String> = Vec::new();
        let mut i: usize = 0;
        while i < ranges.len()
            invariant
                0 <= i <= ranges.len(),
                well_placed(ranges@, haystack.spec_bytes()),
                found@.len() == i,
                forall|j: int|
                    0 <= j < i ==> (#[trigger] found@[j])@ == slice_text(haystack@, ranges@[j]),
            decreases ranges.len() - i,
        {
            let (start, end) = ranges[i];
            let part = slice_between(haystack, start, end);
            found.push(part);
            i = i + 1;
        }
        proof {
            assert(found.deep_view() =~= matched_texts(haystack@, ranges@));
        }
        found
    }

    /// Whether the pattern matches anywhere in the haystack.
    pub fn is_match(&self, haystack: &str) -> (found: bool)
        ensures
            found == pattern_matches(self@, haystack@),
    {
        search(self, haystack)
    }
}

/// Whether one of the patterns matches the haystack.
pub open spec fn any_matches(patterns: Seq<Seq<char>>, haystack: Seq<char>) -> bool {
    exists|i: int| 0 <= i < patterns.len() && pattern_matches(#[trigger] patterns[i], haystack)
}

/// Tries the patterns in turn until one matches.
pub fn matches_any(patterns: &Vec<Pattern>, haystack: &str) -> (found: bool)
    ensures
        found == any_matches(patterns.deep_view(), haystack@),
{
    let mut i: usize = 0;
    while i < patterns.len()
        invariant
            0 <= i <= patterns.len(),
            forall|j: int|
                0 <= j < i ==> !pattern_matches(#[trigger] patterns.deep_view()[j], haystack@),
        decreases patterns.len() - i,
    {
        if patterns[i].is_match(haystack) {
            assert(patterns.deep_view()[i as int] == patterns[i as int]@);
            return true;
        }
        assert(patterns.deep_view()[i as int] == patterns[i as int]@);
        i = i + 1;
    }
    false
}

} // verus!
