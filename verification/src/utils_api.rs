//! The two lookup services: what is asked of them and what they answer.

use vstd::prelude::*;
use vstd::string::StringExecFns;
use vstd::utf8::encode_utf8;

verus! {

/// How the redirect service judged a request.
#[derive(Debug, Clone, Copy, PartialEq, Eq, Structural)]
pub enum ResponseType {
    BadRequest,
    Okay,
    UrlMalformed,
}

/// The answer of the redirect service: the URL at the end of the chain, if it
/// found one, its verdict, and the URLs it passed on the way.
#[derive(Debug)]
pub struct RedirectorResponse {
    pub result_url: Option<String>,
    pub response_status: ResponseType,
    pub redirect_urls: Option<Vec<String>>,
}

/// One canonical page that the AMP service knows for a URL.
#[derive(Debug)]
pub struct CanonicalInfo {
    pub domain: String,
    pub is_alt: bool,
    pub is_amp: bool,
    pub is_cached: Option<bool>,
    pub is_valid: bool,
    pub type_: String,
    pub url: String,
}

/// What the AMP service says of the URL that it was asked about.
#[derive(Debug)]
pub struct OriginInfo {
    pub domain: String,
    pub is_amp: bool,
    pub is_cached: bool,
    pub is_valid: bool,
    pub url: String,
}

/// One record of the AMP service's answer.
#[derive(Debug)]
pub struct Item {
    pub amp_canonical: Option<CanonicalInfo>,
    pub canonical: Option<CanonicalInfo>,
    pub origin: OriginInfo,
}

/// Whether a byte stands for itself in a percent-encoded text: the letters and
/// digits of ASCII and `-`, `.`, `_`, `~`.
pub open spec fn is_unreserved(byte: u8) -> bool {
    ||| 0x30 <= byte <= 0x39
    ||| 0x41 <= byte <= 0x5a
    ||| 0x61 <= byte <= 0x7a
    ||| byte == 0x2d
    ||| byte == 0x2e
    ||| byte == 0x5f
    ||| byte == 0x7e
}

/// The digit, in upper case, for a value below sixteen.
pub open spec fn hex_digit(value: u8) -> char {
    if value < 10 {
        (0x30 + value) as char
    } else {
        (0x37 + value) as char
    }
}

/// What one byte becomes: itself, or a percent sign and its two hex digits.
pub open spec fn encoded_byte(byte: u8) -> Seq<char> {
    if is_unreserved(byte) {
        seq![byte as char]
    } else {
        seq!['%', hex_digit(byte / 16), hex_digit(byte % 16)]
    }
}

/// The percent-encoding of a sequence of bytes.
pub open spec fn percent_encoded(bytes: Seq<u8>) -> Seq<char>
    decreases bytes.len(),
{
    if bytes.len() == 0 {
        Seq::empty()
    } else {
        percent_encoded(bytes.drop_last()) + encoded_byte(bytes.last())
    }
}

/// Calls `urlencoding::encode`, which percent-encodes every byte of the text
/// but the ASCII letters and digits and `-`, `.`, `_`, `~`, with upper-case
/// hex digits.
#[verifier::external_body]
fn percent_encode(text: &str) -> (encoded: String)
    ensures
        encoded@ == percent_encoded(encode_utf8(text@)),
{
    urlencoding::encode(text).into_owned()
}

/// The address under which the redirect service is asked about a URL: the
/// service's address with the percent-encoded URL behind it.
pub fn redirect_request_url(url: &str) -> (request: String)
    ensures
        request@ == "https://redirector.pluoi.workers.dev/"@ + percent_encoded(encode_utf8(url@)),
{
    let encoded = percent_encode(url);
    String::from_str("https://redirector.pluoi.workers.dev/").concat(encoded.as_str())
}

/// The address under which the AMP service is asked about a URL: the query of
/// the service with the URL behind it as it is.
pub fn amp_request_url(url: &str) -> (request: String)
    ensures
        request@ == "https://www.amputatorbot.com/api/v1/convert?gac=true&md=3&q="@ + url@,
{
    String::from_str("https://www.amputatorbot.com/api/v1/convert?gac=true&md=3&q=").concat(url)
}

} // verus!
