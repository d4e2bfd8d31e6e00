//! The pre-passes that may replace a URL before the providers see it.
//!
//! Each pre-pass takes the outcome of a lookup and either hands back a URL to
//! go on with or nothing; a lookup that failed is no error, it just hands back
//! nothing. A URL in work remembers whether any pre-pass has replaced it.

use crate::utils_api::{CanonicalInfo, Item, RedirectorResponse};
use crate::web_url::{url_parse, ParsedUrl};
use vstd::prelude::*;

verus! {

/// Whether a canonical page is there and is not itself an AMP page.
pub open spec fn usable(info: Option<CanonicalInfo>) -> bool {
    info matches Some(canonical) && !canonical.is_amp
}

/// The address that an answer of the AMP service points to: of its first
/// record, the AMP canonical page if that is usable, else the canonical page
/// if that is usable.
pub open spec fn amp_target(items: Seq<Item>) -> Option<Seq<char>> {
    if items.len() == 0 {
        None
    } else if usable(items[0].amp_canonical) {
        Some(items[0].amp_canonical->0.url@)
    } else if usable(items[0].canonical) {
        Some(items[0].canonical->0.url@)
    } else {
        None
    }
}

/// The address that the AMP service points to, where it answered at all.
pub open spec fn amp_answer_target<E>(answer: Result<Vec<Item>, E>) -> Option<Seq<char>> {
    match answer {
        Ok(items) => amp_target(items@),
        Err(_) => None,
    }
}

/// The address that the redirect service points to: the result URL of its
/// answer, where it answered and gave one.
pub open spec fn redirect_answer_target<E>(
    answer: Result<RedirectorResponse, E>,
) -> Option<Seq<char>> {
    match answer {
        Ok(response) => response.result_url.deep_view(),
        Err(_) => None,
    }
}

/// The URL that a pre-pass hands on for the address it was pointed to: the
/// parsed address, or nothing where there is no address or it is no URL.
pub open spec fn replacement(target: Option<Seq<char>>) -> Option<Seq<char>> {
    match target {
        Some(address) => url_parse(address),
        None => None,
    }
}

/// Picks the address that an answer of the AMP service points to.
pub fn canonical_target(items: &Vec<Item>) -> (target: Option<&String>)
    ensures
        target.deep_view() == amp_target(items@),
{
    if items.len() == 0 {
        return None;
    }
    if let Some(canonical) = &items[0].amp_canonical {
        if !canonical.is_amp {
            return Some(&canonical.url);
        }
    }
    if let Some(canonical) = &items[0].canonical {
        if !canonical.is_amp {
            return Some(&canonical.url);
        }
    }
    None
}

/// The AMP pre-pass: the page that the service's answer points to, parsed. A
/// lookup that failed, an empty answer, one without a usable page, or an
/// address that is no URL gives nothing.
pub fn remove_amp<E>(answer: &Result<Vec<Item>, E>) -> (r: Option<ParsedUrl>)
    ensures
        r.deep_view() == replacement(amp_answer_target(*answer)),
{
    let Ok(items) = answer else {
        return None;
    };
    match canonical_target(items) {
        Some(address) => ParsedUrl::parse(address.as_str()),
        None => None,
    }
}

/// The redirect pre-pass: the result URL of the service's answer, parsed,
/// whatever the verdict says. A lookup that failed, an answer without a
/// result URL, or one whose result is no URL gives nothing.
pub fn remove_redirects<E>(answer: &Result<RedirectorResponse, E>) -> (r: Option<ParsedUrl>)
    ensures
        r.deep_view() == replacement(redirect_answer_target(*answer)),
{
    let Ok(response) = answer else {
        return None;
    };
    match &response.result_url {
        Some(address) => ParsedUrl::parse(address.as_str()),
        None => None,
    }
}

/// A URL on its way through the pre-passes.
#[derive(Debug)]
pub struct WorkingUrl {
    /// The URL to go on with.
    pub url: ParsedUrl,
    /// Whether a pre-pass has replaced the URL.
    pub did_changes: bool,
}

impl View for WorkingUrl {
    type V = (Seq<char>, bool);

    open spec fn view(&self) -> (Seq<char>, bool) {
        (self.url@, self.did_changes)
    }
}

impl DeepView for WorkingUrl {
    type V = (Seq<char>, bool);

    open spec fn deep_view(&self) -> (Seq<char>, bool) {
        self@
    }
}

/// A URL in work after a pre-pass: replaced and marked as changed where the
/// pre-pass handed on a URL, else as it was.
pub open spec fn after_pass(working: (Seq<char>, bool), handed_on: Option<Seq<char>>) -> (
    Seq<char>,
    bool,
) {
    match handed_on {
        Some(url) => (url, true),
        None => working,
    }
}

/// A raw URL as it enters the pre-passes: parsed, and not yet changed.
pub open spec fn started(token: Seq<char>) -> Option<(Seq<char>, bool)> {
    match url_parse(token) {
        Some(url) => Some((url, false)),
        None => None,
    }
}

impl WorkingUrl {
    /// Parses a raw URL. A text that is no URL gives nothing.
    pub fn start(token: &str) -> (r: Option<WorkingUrl>)
        ensures
            r.deep_view() == started(token@),
    {
        match ParsedUrl::parse(token) {
            Some(url) => Some(WorkingUrl { url, did_changes: false }),
            None => None,
        }
    }

    /// Takes in what a pre-pass handed on.
    pub fn replaced_by(self, handed_on: Option<ParsedUrl>) -> (r: WorkingUrl)
        ensures
            r@ == after_pass(self@, handed_on.deep_view()),
    {
        match handed_on {
            Some(url) => WorkingUrl { url, did_changes: true },
            None => self,
        }
    }

    /// Runs the AMP pre-pass on the outcome of the lookup.
    pub fn after_amp<E>(self, answer: &Result<Vec<Item>, E>) -> (r: WorkingUrl)
        ensures
            r@ == after_pass(self@, replacement(amp_answer_target(*answer))),
    {
        let handed_on = remove_amp(answer);
        self.replaced_by(handed_on)
    }

    /// Runs the redirect pre-pass on the outcome of the lookup.
    pub fn after_redirect<E>(self, answer: &Result<RedirectorResponse, E>) -> (r: WorkingUrl)
        ensures
            r@ == after_pass(self@, replacement(redirect_answer_target(*answer))),
    {
        let handed_on = remove_redirects(answer);
        self.replaced_by(handed_on)
    }
}

} // verus!
