//! The cleaning of single URLs and of whole comments, and the answer text.

use crate::pattern::{
    matched_texts, pattern_compiles, pattern_finds, well_placed, Pattern, PatternError,
};
use crate::pipeline::{started, WorkingUrl};
use crate::providers::{CompiledProviderDetails, ProviderView};
use crate::rewriter::{
    applies, excepted, fallback, matching_providers, matching_rules, rewrite, rewritten, vetoed,
};
use vstd::prelude::*;
use vstd::string::StringExecFns;
use vstd::utf8::encode_utf8;

verus! {

/// The pattern by which URLs are found in a text: `http` or `https`, `://`,
/// and everything up to the next white space.
pub const URL_PATTERN: &'static str = "(https?://\\S+)";

/// The URLs of a text: what the URL pattern matches in it, from left to right.
pub open spec fn url_tokens(input: Seq<char>) -> Seq<Seq<char>> {
    matched_texts(input, pattern_finds(URL_PATTERN@, input))
}

/// Whether the URLs of a text are numbered as they stand in it: each lies
/// within the text, and a later one begins where an earlier one has ended, or
/// behind that.
pub open spec fn tokens_in_text_order(input: Seq<char>) -> bool {
    well_placed(pattern_finds(URL_PATTERN@, input), encode_utf8(input))
}

/// Finds the URLs in a text.
#[derive(Debug)]
pub struct UrlFinder {
    pattern: Pattern,
}

impl UrlFinder {
    #[verifier::type_invariant]
    spec fn holds_url_pattern(self) -> bool {
        self.pattern@ == URL_PATTERN@
    }

    /// Compiles the URL pattern.
    pub fn new() -> (r: Result<UrlFinder, PatternError>)
        ensures
            r is Ok <==> pattern_compiles(URL_PATTERN@),
    {
        match Pattern::new(URL_PATTERN) {
            Ok(pattern) => Ok(UrlFinder { pattern }),
            Err(error) => Err(error),
        }
    }

    /// The URLs of a text in the order in which they stand in it. One that
    /// stands there twice is found twice.
    pub fn find(&self, input: &str) -> (tokens: Vec<String>)
        ensures
            tokens.deep_view() == url_tokens(input@),
            tokens_in_text_order(input@),
    {
        proof {
            use_type_invariant(self);
        }
        self.pattern.find_all(input)
    }
}

/// What cleaning makes of a raw URL that has come through the pre-passes: the
/// rewriting of the working URL by the providers that cover the raw URL.
pub open spec fn clean_result(
    url: Seq<char>,
    working: (Seq<char>, bool),
    rules: Seq<ProviderView>,
) -> Option<Seq<char>> {
    rewritten(url, working.0, working.1, matching_rules(rules, url))
}

/// An exception is a veto: where a provider covers a URL and one of its
/// exceptions matches it, no parameter is stripped from that URL. What is
/// handed back is the working URL if a pre-pass changed it, else nothing.
pub proof fn lemma_exception_veto(
    url: Seq<char>,
    working: (Seq<char>, bool),
    rules: Seq<ProviderView>,
    provider: int,
)
    requires
        0 <= provider < rules.len(),
        applies(rules[provider], url),
        excepted(rules[provider], url),
    ensures
        clean_result(url, working, rules) == fallback(working.0, working.1),
{
    let covers = |rule: ProviderView| applies(rule, url);
    let matching = matching_rules(rules, url);
    rules.lemma_filter_contains(covers, provider);
    let place = choose|place: int|
        0 <= place < matching.len() && matching[place] == rules[provider];
    assert(excepted(matching[place], url));
    assert(vetoed(matching, url));
}

/// A URL that no provider covers is not rewritten: what is handed back is the
/// working URL if a pre-pass changed it, else nothing.
pub proof fn lemma_uncovered_url(
    url: Seq<char>,
    working: (Seq<char>, bool),
    rules: Seq<ProviderView>,
)
    requires
        forall|i: int| 0 <= i < rules.len() ==> !applies(#[trigger] rules[i], url),
    ensures
        clean_result(url, working, rules) == fallback(working.0, working.1),
{
    let covers = |rule: ProviderView| applies(rule, url);
    let matching = matching_rules(rules, url);
    if matching.len() > 0 {
        rules.lemma_filter_pred(covers, 0);
        rules.lemma_filter_contains_rev(covers, matching[0]);
        let place = choose|place: int| 0 <= place < rules.len() && rules[place] == matching[0];
        assert(applies(rules[place], url));
    }
}

/// Cleans a raw URL that has come through the pre-passes. The providers are
/// chosen by the raw URL; what they rewrite is the working URL.
pub fn clean_working_url(
    url: &str,
    working: &WorkingUrl,
    rules: &[CompiledProviderDetails],
) -> (r: Option<String>)
    ensures
        r.deep_view() == clean_result(url@, working@, rules.deep_view()),
{
    let matching = matching_providers(url, rules);
    rewrite(url, &working.url, working.did_changes, &matching)
}

/// What cleaning makes of a raw URL without any pre-pass: nothing where it is
/// no URL, else what the providers make of it.
pub open spec fn clean_url_result(url: Seq<char>, rules: Seq<ProviderView>) -> Option<Seq<char>> {
    match started(url) {
        Some(working) => clean_result(url, working, rules),
        None => None,
    }
}

/// Cleans a raw URL without any pre-pass.
pub fn clean_url(url: &str, rules: &[CompiledProviderDetails]) -> (r: Option<String>)
    ensures
        r.deep_view() == clean_url_result(url@, rules.deep_view()),
{
    match WorkingUrl::start(url) {
        Some(working) => clean_working_url(url, &working, rules),
        None => None,
    }
}

/// A raw URL of a text and what the pre-passes made of it; nothing in place
/// of the latter where the raw URL could not be parsed.
#[derive(Debug)]
pub struct Candidate {
    pub token: String,
    pub working: Option<WorkingUrl>,
}

impl DeepView for Candidate {
    type V = (Seq<char>, Option<(Seq<char>, bool)>);

    open spec fn deep_view(&self) -> (Seq<char>, Option<(Seq<char>, bool)>) {
        (self.token@, self.working.deep_view())
    }
}

/// A raw URL and what cleaning made of it.
pub open spec fn candidate_result(
    candidate: (Seq<char>, Option<(Seq<char>, bool)>),
    rules: Seq<ProviderView>,
) -> (Seq<char>, Option<Seq<char>>) {
    (
        candidate.0,
        match candidate.1 {
            Some(working) => clean_result(candidate.0, working, rules),
            None => None,
        },
    )
}

/// The raw URLs with what cleaning made of each, in their order.
pub open spec fn results_of(
    candidates: Seq<(Seq<char>, Option<(Seq<char>, bool)>)>,
    rules: Seq<ProviderView>,
) -> Seq<(Seq<char>, Option<Seq<char>>)> {
    Seq::new(candidates.len(), |i: int| candidate_result(candidates[i], rules))
}

/// The raw URLs of a text as they enter cleaning without any pre-pass.
pub open spec fn plain_candidates(
    tokens: Seq<Seq<char>>,
) -> Seq<(Seq<char>, Option<(Seq<char>, bool)>)> {
    Seq::new(tokens.len(), |i: int| (tokens[i], started(tokens[i])))
}

/// Whether a cleaned URL is reported: there is one, and it is not the raw URL
/// letter for letter.
pub open spec fn is_reported(result: (Seq<char>, Option<Seq<char>>)) -> bool {
    result.1 matches Some(cleaned) && cleaned != result.0
}

/// The cleaned URLs that are reported, in the order of the raw URLs.
pub open spec fn reported(results: Seq<(Seq<char>, Option<Seq<char>>)>) -> Seq<Seq<char>>
    decreases results.len(),
{
    if results.len() == 0 {
        Seq::empty()
    } else if is_reported(results.last()) {
        reported(results.drop_last()).push(results.last().1->0)
    } else {
        reported(results.drop_last())
    }
}

/// Whether `positions` names, for each reported URL, the raw URL it was made
/// from: every raw URL that is reported is named once, and in rising order.
pub open spec fn places_of_reported(
    results: Seq<(Seq<char>, Option<Seq<char>>)>,
    positions: Seq<int>,
) -> bool {
    &&& positions.len() == reported(results).len()
    &&& forall|k: int|
        0 <= k < positions.len() ==> {
            &&& 0 <= #[trigger] positions[k] < results.len()
            &&& is_reported(results[positions[k]])
            &&& results[positions[k]].1 == Some(reported(results)[k])
        }
    &&& forall|j: int, k: int|
        0 <= j < k < positions.len() ==> #[trigger] positions[j] < #[trigger] positions[k]
    &&& forall|i: int|
        0 <= i < results.len() && is_reported(#[trigger] results[i]) ==> positions.contains(i)
}

/// The reported URLs stand in the order of the raw URLs they were made from:
/// each comes from a raw URL of its own, none that is to be reported is
/// missing, and a URL made from an earlier raw URL stands before one made
/// from a later.
pub proof fn lemma_report_keeps_order(results: Seq<(Seq<char>, Option<Seq<char>>)>)
    ensures
        exists|positions: Seq<int>| places_of_reported(results, positions),
    decreases results.len(),
{
    if results.len() == 0 {
        assert(places_of_reported(results, Seq::<int>::empty()));
    } else {
        let front = results.drop_last();
        let last = results.len() - 1;
        lemma_report_keeps_order(front);
        let before = choose|positions: Seq<int>| places_of_reported(front, positions);
        let positions = if is_reported(results.last()) {
            before.push(last)
        } else {
            before
        };
        assert forall|k: int| 0 <= k < positions.len() implies {
            &&& 0 <= #[trigger] positions[k] < results.len()
            &&& is_reported(results[positions[k]])
            &&& results[positions[k]].1 == Some(reported(results)[k])
        } by {
            if k < before.len() {
                assert(results[before[k]] == front[before[k]]);
            }
        }
        assert forall|i: int|
            0 <= i < results.len() && is_reported(#[trigger] results[i]) implies positions.contains(
            i,
        ) by {
            if i < last {
                assert(front[i] == results[i]);
                let k = choose|k: int| 0 <= k < before.len() && before[k] == i;
                assert(positions[k] == i);
            } else {
                assert(positions[positions.len() - 1] == i);
            }
        }
        assert(places_of_reported(results, positions));
    }
}

/// Where no URL was cleaned into something else, nothing is reported.
pub proof fn lemma_nothing_to_report(results: Seq<(Seq<char>, Option<Seq<char>>)>)
    requires
        forall|i: int| 0 <= i < results.len() ==> !is_reported(#[trigger] results[i]),
    ensures
        reported(results) == Seq::<Seq<char>>::empty(),
    decreases results.len(),
{
    if results.len() > 0 {
        let front = results.drop_last();
        assert forall|i: int| 0 <= i < front.len() implies !is_reported(#[trigger] front[i]) by {
            assert(front[i] == results[i]);
        }
        lemma_nothing_to_report(front);
        assert(results.last() == results[results.len() - 1]);
    }
}

/// Picks what is worth reporting: of the raw URLs with what cleaning made of
/// each, the cleaned URLs that differ from their raw URL, in their order.
pub fn report_changed(results: Vec<(String, Option<String>)>) -> (output: Vec<String>)
    ensures
        output.deep_view() == reported(results.deep_view()),
{
    let ghost all = results.deep_view();
    let ghost items = results@;
    let mut output: Vec<String> = Vec::new();
    proof {
        assert(output.deep_view() =~= reported(all.take(0)));
    }
    for result in it: results
        invariant
            it.seq() == items,
            all.len() == items.len(),
            forall|j: int| 0 <= j < items.len() ==> all[j] == (#[trigger] items[j]).deep_view(),
            output.deep_view() == reported(all.take(it.index() as int)),
    {
        let ghost i = it.index() as int;
        let ghost before = output@;
        let ghost chosen = output.deep_view();
        assert(before.len() == chosen.len());
        proof {
            assert(all.take(i + 1).drop_last() =~= all.take(i));
            assert(all.take(i + 1).last() == all[i]);
            assert(all[i] == result.deep_view());
        }
        let (token, cleaned) = result;
        if let Some(cleaned_url) = cleaned {
            if cleaned_url != token {
                output.push(cleaned_url);
                proof {
                    let after = output.deep_view();
                    assert forall|j: int| 0 <= j < after.len() implies after[j] == chosen.push(
                        cleaned_url@,
                    )[j] by {
                        if j < before.len() {
                            assert(output@[j] == before[j]);
                            assert(chosen[j] == before[j]@);
                        }
                    }
                    assert(after =~= chosen.push(cleaned_url@));
                }
            }
        }
    }
    proof {
        assert(all.take(items.len() as int) =~= all);
    }
    output
}

/// Cleans the raw URLs that have come through the pre-passes and reports, in
/// their order, the cleaned URLs that differ from their raw URL. A raw URL
/// that could not be parsed is passed over; one that stands there twice is
/// cleaned and reported twice.
pub fn cleanup_candidates(
    candidates: &Vec<Candidate>,
    rules: &[CompiledProviderDetails],
) -> (output: Vec<String>)
    ensures
        output.deep_view() == reported(results_of(candidates.deep_view(), rules.deep_view())),
{
    let ghost expected = results_of(candidates.deep_view(), rules.deep_view());
    let mut results: Vec<(String, Option<String>)> = Vec::new();
    let mut i: usize = 0;
    while i < candidates.len()
        invariant
            0 <= i <= candidates.len(),
            expected == results_of(candidates.deep_view(), rules.deep_view()),
            results@.len() == i,
            forall|j: int| 0 <= j < i ==> (#[trigger] results@[j]).deep_view() == expected[j],
        decreases candidates.len() - i,
    {
        let candidate = &candidates[i];
        assert(candidates.deep_view()[i as int] == candidate.deep_view());
        let cleaned = match &candidate.working {
            Some(working) => clean_working_url(candidate.token.as_str(), working, rules),
            None => None,
        };
        results.push((candidate.token.clone(), cleaned));
        i = i + 1;
    }
    proof {
        assert(results.deep_view() =~= expected);
    }
    report_changed(results)
}

/// Finds the URLs of a text and parses each, ready for the pre-passes.
pub fn find_candidates(finder: &UrlFinder, input: &str) -> (candidates: Vec<Candidate>)
    ensures
        candidates.deep_view() == plain_candidates(url_tokens(input@)),
        tokens_in_text_order(input@),
{
    let tokens = finder.find(input);
    let ghost all = tokens.deep_view();
    let ghost items = tokens@;
    let mut candidates: Vec<Candidate> = Vec::new();
    for token in it: tokens
        invariant
            it.seq() == items,
            all.len() == items.len(),
            forall|j: int| 0 <= j < items.len() ==> all[j] == (#[trigger] items[j])@,
            candidates@.len() == it.index(),
            forall|j: int|
                0 <= j < it.index() ==> (#[trigger] candidates@[j]).deep_view() == (
                    all[j],
                    started(all[j]),
                ),
    {
        let working = WorkingUrl::start(token.as_str());
        candidates.push(Candidate { token, working });
    }
    proof {
        assert(candidates.deep_view() =~= plain_candidates(all));
    }
    candidates
}

/// Cleans the URLs of a text without any pre-pass: finds them, cleans each by
/// the providers that cover it, and reports, in the order of the text, the
/// cleaned URLs that differ from what stood in the text.
pub fn cleanup_comment(
    input: &str,
    finder: &UrlFinder,
    rules: &[CompiledProviderDetails],
) -> (output: Vec<String>)
    ensures
        output.deep_view() == reported(
            results_of(plain_candidates(url_tokens(input@)), rules.deep_view()),
        ),
        tokens_in_text_order(input@),
{
    let candidates = find_candidates(finder, input);
    cleanup_candidates(&candidates, rules)
}

/// The lines of an answer: each link on a line of its own, behind a dash.
pub open spec fn response_lines(links: Seq<Seq<char>>) -> Seq<char>
    decreases links.len(),
{
    if links.len() == 0 {
        Seq::empty()
    } else {
        response_lines(links.drop_last()) + "- "@ + links.last() + "\n"@
    }
}

/// The answer to a comment in which `links` were cleaned.
pub open spec fn response_text(links: Seq<Seq<char>>) -> Seq<char> {
    if links.len() == 0 {
        "Es wurden keine Links mit Tracking gefunden."@
    } else if links.len() == 1 {
        "Hier der Link ohne Tracking:\n"@ + response_lines(links)
    } else {
        "Hier die Links ohne Tracking:\n"@ + response_lines(links)
    }
}

/// Builds the answer that is posted below a comment: a neutral sentence where
/// nothing was cleaned, else a heading and one line for each cleaned link.
pub fn build_response_text(links: Vec<String>) -> (answer: String)
    ensures
        answer@ == response_text(links.deep_view()),
{
    if links.len() == 0 {
        return String::from_str("Es wurden keine Links mit Tracking gefunden.");
    }
    let mut answer = if links.len() == 1 {
        String::from_str("Hier der Link ohne Tracking:\n")
    } else {
        String::from_str("Hier die Links ohne Tracking:\n")
    };
    let ghost heading = answer@;
    let mut i: usize = 0;
    while i < links.len()
        invariant
            0 <= i <= links.len(),
            answer@ == heading + response_lines(links.deep_view().take(i as int)),
        decreases links.len() - i,
    {
        answer.append("- ");
        answer.append(links[i].as_str());
        answer.append("\n");
        proof {
            let all = links.deep_view();
            assert(all.take(i as int + 1).drop_last() == all.take(i as int));
            assert(all.take(i as int + 1).last() == links[i as int]@);
        }
        i = i + 1;
    }
    proof {
        assert(links.deep_view().take(links.len() as int) == links.deep_view());
    }
    answer
}

} // verus!
