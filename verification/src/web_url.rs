//! URLs as the cleaner handles them: parsed once, read and rewritten by their
//! query pairs, and written out again.

use vstd::prelude::*;
use vstd::string::StrSliceExecFns;
use vstd::utf8::encode_utf8;

verus! {

/// `url::Url`, a parsed URL: carried around, never looked into.
#[verifier::external_type_specification]
#[verifier::external_body]
pub struct ExUrl(url::Url);

/// The name and value pairs of a query, decoded.
pub type QueryPairs = Seq<(Seq<char>, Seq<char>)>;

/// The serialization of the URL that `url::Url::parse` reads from the input,
/// where it reads one.
pub uninterp spec fn url_parse(input: Seq<char>) -> Option<Seq<char>>;

/// The decoded name and value pairs that `Url::query_pairs` yields for the URL
/// with the given serialization, in their order.
pub uninterp spec fn url_query_pairs(url: Seq<char>) -> Seq<(Seq<char>, Seq<char>)>;

/// The serialization of the URL after its query was replaced by the given
/// pairs, as `Url::query_pairs_mut`, `clear` and `extend_pairs` do it.
pub uninterp spec fn url_with_query(
    url: Seq<char>,
    pairs: Seq<(Seq<char>, Seq<char>)>,
) -> Seq<char>;

/// The number of bytes a text takes.
pub open spec fn byte_len(text: Seq<char>) -> nat {
    encode_utf8(text).len()
}

/// An upper bound on the bytes that the pairs take once they are written into
/// a query: each byte may become three, and each pair brings two separators.
pub open spec fn query_weight(pairs: QueryPairs) -> nat
    decreases pairs.len(),
{
    if pairs.len() == 0 {
        0
    } else {
        let last = pairs.last();
        query_weight(pairs.drop_last()) + 3 * byte_len(last.0) + 3 * byte_len(last.1) + 2
    }
}

/// The longest serialization the URL type can hold, in bytes.
pub const MAX_URL_BYTES: u64 = 0xffff_ffff;

/// Whether the URL is sure to stay within the size that the URL type can hold
/// when its query is replaced by the pairs.
pub open spec fn query_fits(url: Seq<char>, pairs: QueryPairs) -> bool {
    byte_len(url) + 1 + query_weight(pairs) <= MAX_URL_BYTES
}

/// A parsed URL together with its serialization.
///
/// A value is only ever made from a `url::Url` and the text that it
/// serializes to, so the two always belong together.
#[derive(Debug)]
pub struct ParsedUrl {
    text: String,
    inner: url::Url,
}

impl View for ParsedUrl {
    type V = Seq<char>;

    closed spec fn view(&self) -> Seq<char> {
        self.text@
    }
}

impl DeepView for ParsedUrl {
    type V = Seq<char>;

    open spec fn deep_view(&self) -> Seq<char> {
        self@
    }
}

/// Calls `url::Url::parse`. There is a result exactly where the crate reads a
/// URL, and it stands for that URL's serialization.
#[verifier::external_body]
fn read_url(input: &str) -> (r: Option<ParsedUrl>)
    ensures
        r.deep_view() == url_parse(input@),
{
    match url::Url::parse(input) {
        Ok(inner) => Some(ParsedUrl { text: inner.as_str().to_string(), inner }),
        Err(_) => None,
    }
}

/// Calls `Url::query_pairs` and collects the pairs that it yields as owned
/// strings, in their order.
#[verifier::external_body]
fn read_query(url: &ParsedUrl) -> (pairs: Vec<(String, String)>)
    ensures
        pairs.deep_view() == url_query_pairs(url@),
{
    url.inner.query_pairs().into_owned().collect()
}

/// Replaces the query of a copy of the URL by the pairs, through
/// `Url::query_pairs_mut`, `clear` and `extend_pairs`. The URL type keeps its
/// offsets in 32 bits and panics where a serialization outgrows them, so the
/// caller must know that the new one fits.
#[verifier::external_body]
fn write_query(url: &ParsedUrl, pairs: &Vec<(String, String)>) -> (rewritten: ParsedUrl)
    requires
        query_fits(url@, pairs.deep_view()),
    ensures
        rewritten@ == url_with_query(url@, pairs.deep_view()),
{
    let mut inner = url.inner.clone();
    inner.query_pairs_mut().clear().extend_pairs(pairs);
    ParsedUrl { text: inner.as_str().to_string(), inner }
}

/// The weight of a query does not shrink when pairs are added behind.
proof fn lemma_query_weight_grows(pairs: QueryPairs, count: int)
    requires
        0 <= count <= pairs.len(),
    ensures
        query_weight(pairs.take(count)) <= query_weight(pairs),
    decreases pairs.len() - count,
{
    if count < pairs.len() {
        lemma_query_weight_grows(pairs, count + 1);
        assert(pairs.take(count + 1).drop_last() =~= pairs.take(count));
    } else {
        assert(pairs.take(count) =~= pairs);
    }
}

/// The number of bytes of a text, as far as it matters for the size of a URL.
fn bytes_within_limit(text: &str) -> (n: Option<u64>)
    ensures
        match n {
            Some(n) => n == byte_len(text@) && n <= MAX_URL_BYTES,
            None => byte_len(text@) > MAX_URL_BYTES,
        },
{
    let n = text.as_bytes().len();
    if n as u64 > MAX_URL_BYTES {
        None
    } else {
        Some(n as u64)
    }
}

/// Adds up the weight of the pairs, and gives up as soon as it passes the
/// size a URL can have.
fn weigh_query(pairs: &Vec<(String, String)>) -> (weight: Option<u64>)
    ensures
        match weight {
            Some(w) => w == query_weight(pairs.deep_view()) && w <= MAX_URL_BYTES,
            None => query_weight(pairs.deep_view()) > MAX_URL_BYTES,
        },
{
    let ghost all = pairs.deep_view();
    let mut total: u64 = 0;
    let mut i: usize = 0;
    while i < pairs.len()
        invariant
            0 <= i <= pairs.len(),
            all == pairs.deep_view(),
            total == query_weight(all.take(i as int)),
            total <= MAX_URL_BYTES,
        decreases pairs.len() - i,
    {
        proof {
            assert(all.take(i as int + 1).drop_last() =~= all.take(i as int));
            assert(all.take(i as int + 1).last() == all[i as int]);
            assert(all[i as int] == (pairs[i as int].0@, pairs[i as int].1@));
            lemma_query_weight_grows(all, i as int + 1);
        }
        let name = match bytes_within_limit(pairs[i].0.as_str()) {
            Some(n) => n,
            None => {
                return None;
            },
        };
        let value = match bytes_within_limit(pairs[i].1.as_str()) {
            Some(n) => n,
            None => {
                return None;
            },
        };
        let next: u64 = total + 3 * name + 3 * value + 2;
        if next > MAX_URL_BYTES {
            return None;
        }
        total = next;
        i = i + 1;
    }
    proof {
        assert(all.take(pairs.len() as int) =~= all);
    }
    Some(total)
}

impl ParsedUrl {
    /// Parses a URL. There is a result exactly where the text is one.
    pub fn parse(input: &str) -> (r: Option<ParsedUrl>)
        ensures
            r.deep_view() == url_parse(input@),
    {
        read_url(input)
    }

    /// The serialization of the URL.
    pub fn as_str(&self) -> (text: &str)
        ensures
            text@ == self@,
    {
        self.text.as_str()
    }

    /// The name and value pairs of the query, decoded, in their order.
    pub fn query_pairs(&self) -> (pairs: Vec<(String, String)>)
        ensures
            pairs.deep_view() == url_query_pairs(self@),
    {
        read_query(self)
    }

    /// The URL with its query replaced by the given pairs.
    pub fn with_query_pairs(&self, pairs: &Vec<(String, String)>) -> (rewritten: ParsedUrl)
        requires
            query_fits(self@, pairs.deep_view()),
        ensures
            rewritten@ == url_with_query(self@, pairs.deep_view()),
    {
        write_query(self, pairs)
    }

    /// The URL with its query replaced by the given pairs, where the result is
    /// sure to fit into a URL; nothing where it is not.
    pub fn try_with_query_pairs(&self, pairs: &Vec<(String, String)>) -> (r: Option<ParsedUrl>)
        ensures
            r is Some <==> query_fits(self@, pairs.deep_view()),
            r matches Some(rewritten) ==> rewritten@ == url_with_query(self@, pairs.deep_view()),
    {
        let Some(own) = bytes_within_limit(self.as_str()) else {
            return None;
        };
        let Some(weight) = weigh_query(pairs) else {
            return None;
        };
        if own + 1 + weight > MAX_URL_BYTES {
            return None;
        }
        Some(self.with_query_pairs(pairs))
    }
}

/// A text without the question marks at its end.
pub open spec fn without_trailing_marks(text: Seq<char>) -> Seq<char>
    decreases text.len(),
{
    if text.len() > 0 && text.last() == '?' {
        without_trailing_marks(text.drop_last())
    } else {
        text
    }
}

/// Strips the question marks at the end of a serialization, such as the bare
/// one that stays behind when a query has lost all its pairs.
pub fn trim_query_marks(text: &str) -> (trimmed: String)
    ensures
        trimmed@ == without_trailing_marks(text@),
{
    let mut end = text.unicode_len();
    proof {
        assert(text@.take(end as int) =~= text@);
    }
    while end > 0 && text.get_char(end - 1) == '?'
        invariant
            0 <= end <= text@.len(),
            without_trailing_marks(text@) == without_trailing_marks(text@.take(end as int)),
        decreases end,
    {
        proof {
            assert(text@.take(end as int).drop_last() =~= text@.take(end as int - 1));
        }
        end = end - 1;
    }
    proof {
        assert(text@.subrange(0, end as int) =~= text@.take(end as int));
    }
    text.substring_char(0, end).to_owned()
}

} // verus!
