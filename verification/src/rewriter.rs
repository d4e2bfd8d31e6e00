//! Which providers cover a URL, and what their rules leave of its query.

use crate::pattern::{any_matches, matches_any, pattern_matches};
use crate::providers::{CompiledProviderDetails, ProviderView};
use crate::web_url::{
    query_fits, trim_query_marks, url_query_pairs, url_with_query, without_trailing_marks,
    ParsedUrl, QueryPairs,
};
use vstd::prelude::*;

verus! {

/// Whether the provider covers the URL: its URL pattern matches the raw text.
pub open spec fn applies(rule: ProviderView, url: Seq<char>) -> bool {
    pattern_matches(rule.url_pattern, url)
}

/// Whether one of the provider's exceptions matches the raw URL.
pub open spec fn excepted(rule: ProviderView, url: Seq<char>) -> bool {
    any_matches(rule.exceptions, url)
}

/// Whether the provider removes the parameters of this name.
pub open spec fn strips(rule: ProviderView, name: Seq<char>) -> bool {
    any_matches(rule.rules, name)
}

/// The providers that cover the URL, in the order of the rule set.
pub open spec fn matching_rules(rules: Seq<ProviderView>, url: Seq<char>) -> Seq<ProviderView> {
    rules.filter(|rule: ProviderView| applies(rule, url))
}

/// Whether one of the providers has an exception for the URL.
pub open spec fn vetoed(rules: Seq<ProviderView>, url: Seq<char>) -> bool {
    exists|i: int| 0 <= i < rules.len() && excepted(#[trigger] rules[i], url)
}

/// Whether one of the providers removes the parameters of this name.
pub open spec fn stripped(rules: Seq<ProviderView>, name: Seq<char>) -> bool {
    exists|i: int| 0 <= i < rules.len() && strips(#[trigger] rules[i], name)
}

/// What one provider leaves of the pairs: those whose name none of its
/// parameter rules matches, in their order.
pub open spec fn strip_by(pairs: QueryPairs, rule: ProviderView) -> QueryPairs {
    pairs.filter(|pair: (Seq<char>, Seq<char>)| !strips(rule, pair.0))
}

/// What the providers together leave of the pairs: those whose name no
/// parameter rule of any of them matches, in their order.
pub open spec fn kept_pairs(pairs: QueryPairs, rules: Seq<ProviderView>) -> QueryPairs {
    pairs.filter(|pair: (Seq<char>, Seq<char>)| !stripped(rules, pair.0))
}

/// A provider is among those chosen for a URL exactly if it is in the rule
/// set and covers the URL.
pub proof fn lemma_matching_iff_covers(rules: Seq<ProviderView>, url: Seq<char>)
    ensures
        forall|j: int|
            0 <= j < matching_rules(rules, url).len() ==> applies(
                #[trigger] matching_rules(rules, url)[j],
                url,
            ) && rules.contains(matching_rules(rules, url)[j]),
        forall|i: int|
            0 <= i < rules.len() && applies(#[trigger] rules[i], url) ==> matching_rules(
                rules,
                url,
            ).contains(rules[i]),
{
    let covers = |rule: ProviderView| applies(rule, url);
    let matching = matching_rules(rules, url);
    assert forall|j: int| 0 <= j < matching.len() implies applies(#[trigger] matching[j], url)
        && rules.contains(matching[j]) by {
        rules.lemma_filter_pred(covers, j);
        rules.lemma_filter_contains_rev(covers, matching[j]);
    }
    assert forall|i: int|
        0 <= i < rules.len() && applies(#[trigger] rules[i], url) implies matching.contains(
        rules[i],
    ) by {
        rules.lemma_filter_contains(covers, i);
    }
}

/// What the providers leave of the pairs when each one filters what the one
/// before it has left.
pub open spec fn strip_in_turn(pairs: QueryPairs, rules: Seq<ProviderView>) -> QueryPairs
    decreases rules.len(),
{
    if rules.len() == 0 {
        pairs
    } else {
        strip_by(strip_in_turn(pairs, rules.drop_last()), rules.last())
    }
}

/// What is handed back where the providers do not rewrite a URL: the working
/// URL as the pre-passes left it, if they changed it, else nothing.
pub open spec fn fallback(working: Seq<char>, did_changes: bool) -> Option<Seq<char>> {
    if did_changes {
        Some(without_trailing_marks(working))
    } else {
        None
    }
}

/// The result of rewriting the working URL by the providers that cover the raw
/// URL. Without such a provider, or with an exception of one of them for the
/// raw URL, nothing is stripped. Else the query is replaced by the pairs that
/// the providers leave, and the question marks at the end are taken off. A
/// query too large to be written is left as it was.
pub open spec fn rewritten(
    url: Seq<char>,
    working: Seq<char>,
    did_changes: bool,
    matching: Seq<ProviderView>,
) -> Option<Seq<char>> {
    let kept = kept_pairs(url_query_pairs(working), matching);
    if matching.len() == 0 || vetoed(matching, url) || !query_fits(working, kept) {
        fallback(working, did_changes)
    } else {
        Some(without_trailing_marks(url_with_query(working, kept)))
    }
}

/// Filtering twice is filtering once by both conditions.
proof fn lemma_filter_twice<A>(
    items: Seq<A>,
    first: spec_fn(A) -> bool,
    second: spec_fn(A) -> bool,
    both: spec_fn(A) -> bool,
)
    requires
        forall|item: A| #[trigger] both(item) == (first(item) && second(item)),
    ensures
        items.filter(first).filter(second) == items.filter(both),
    decreases items.len(),
{
    reveal(Seq::filter);
    if items.len() > 0 {
        let front = items.drop_last();
        let last = items.last();
        lemma_filter_twice(front, first, second, both);
        assert(items =~= front.push(last));
        front.lemma_filter_push(last, first);
        front.lemma_filter_push(last, both);
        front.filter(first).lemma_filter_push(last, second);
    }
}

/// Several providers that cover one URL remove the parameters of all of them:
/// filtering by each provider in turn leaves exactly the pairs whose name no
/// parameter rule of any of them matches.
pub proof fn lemma_cumulative_filtering(pairs: QueryPairs, rules: Seq<ProviderView>)
    ensures
        strip_in_turn(pairs, rules) == kept_pairs(pairs, rules),
    decreases rules.len(),
{
    if rules.len() == 0 {
        let all = |pair: (Seq<char>, Seq<char>)| !stripped(rules, pair.0);
        assert forall|i: int| 0 <= i < pairs.len() implies all(#[trigger] pairs[i]) by {}
        lemma_filter_all(pairs, all);
    } else {
        let front = rules.drop_last();
        let last = rules.last();
        lemma_cumulative_filtering(pairs, front);
        let first = |pair: (Seq<char>, Seq<char>)| !stripped(front, pair.0);
        let second = |pair: (Seq<char>, Seq<char>)| !strips(last, pair.0);
        let both = |pair: (Seq<char>, Seq<char>)| !stripped(rules, pair.0);
        assert forall|pair: (Seq<char>, Seq<char>)| #[trigger]
            both(pair) == (first(pair) && second(pair)) by {
            lemma_stripped_by_last(rules, pair.0);
        }
        lemma_filter_twice(pairs, first, second, both);
    }
}

/// A filter that every item passes changes nothing.
proof fn lemma_filter_all<A>(items: Seq<A>, keep: spec_fn(A) -> bool)
    requires
        forall|i: int| 0 <= i < items.len() ==> keep(#[trigger] items[i]),
    ensures
        items.filter(keep) == items,
    decreases items.len(),
{
    reveal(Seq::filter);
    if items.len() > 0 {
        lemma_filter_all(items.drop_last(), keep);
        assert(items =~= items.drop_last().push(items.last()));
    }
}

/// A name is stripped by a list of providers exactly if the last one strips
/// it or those before it do.
proof fn lemma_stripped_by_last(rules: Seq<ProviderView>, name: Seq<char>)
    requires
        rules.len() > 0,
    ensures
        stripped(rules, name) == (stripped(rules.drop_last(), name) || strips(rules.last(), name)),
{
    let front = rules.drop_last();
    if stripped(rules, name) {
        let i = choose|i: int| 0 <= i < rules.len() && strips(#[trigger] rules[i], name);
        if i < front.len() {
            assert(strips(front[i], name));
        }
    }
    if stripped(front, name) {
        let i = choose|i: int| 0 <= i < front.len() && strips(#[trigger] front[i], name);
        assert(strips(rules[i], name));
    }
    if strips(rules.last(), name) {
        assert(strips(rules[rules.len() - 1], name));
    }
}

/// Cleaning what was cleaned finds nothing more: the pairs that a set of
/// providers leaves hold no name that one of them strips, so that the same
/// providers leave all of them.
pub proof fn lemma_stripping_is_idempotent(pairs: QueryPairs, rules: Seq<ProviderView>)
    ensures
        kept_pairs(kept_pairs(pairs, rules), rules) == kept_pairs(pairs, rules),
        forall|i: int|
            0 <= i < kept_pairs(pairs, rules).len() ==> !stripped(
                rules,
                (#[trigger] kept_pairs(pairs, rules)[i]).0,
            ),
{
    let keep = |pair: (Seq<char>, Seq<char>)| !stripped(rules, pair.0);
    let kept = kept_pairs(pairs, rules);
    assert forall|i: int| 0 <= i < kept.len() implies keep(#[trigger] kept[i]) by {
        pairs.lemma_filter_pred(keep, i);
    }
    lemma_filter_all(kept, keep);
}

/// What one provider has left holds no name that it strips: filtering once
/// more by the same provider changes nothing.
pub proof fn lemma_strip_by_is_idempotent(pairs: QueryPairs, rule: ProviderView)
    ensures
        strip_by(strip_by(pairs, rule), rule) == strip_by(pairs, rule),
{
    let keep = |pair: (Seq<char>, Seq<char>)| !strips(rule, pair.0);
    let kept = strip_by(pairs, rule);
    assert forall|i: int| 0 <= i < kept.len() implies keep(#[trigger] kept[i]) by {
        pairs.lemma_filter_pred(keep, i);
    }
    lemma_filter_all(kept, keep);
}

/// Picks the providers that cover the URL, in the order of the rule set. The
/// URL is matched as the raw text it was found as.
pub fn matching_providers<'a>(
    url: &str,
    rules: &'a [CompiledProviderDetails],
) -> (matching: Vec<&'a CompiledProviderDetails>)
    ensures
        matching.deep_view() == matching_rules(rules.deep_view(), url@),
{
    let ghost all = rules.deep_view();
    let mut matching: Vec<&'a CompiledProviderDetails> = Vec::new();
    let mut i: usize = 0;
    proof {
        reveal(Seq::filter);
        assert(all.take(0) =~= Seq::empty());
        assert(matching.deep_view() =~= matching_rules(all.take(0), url@));
    }
    while i < rules.len()
        invariant
            0 <= i <= rules.len(),
            all == rules.deep_view(),
            matching.deep_view() == matching_rules(all.take(i as int), url@),
        decreases rules.len() - i,
    {
        let ghost before = matching@;
        let ghost chosen = matching.deep_view();
        assert(before.len() == chosen.len());
        proof {
            assert(all.take(i as int + 1) =~= all.take(i as int).push(all[i as int]));
            all.take(i as int).lemma_filter_push(
                all[i as int],
                |rule: ProviderView| applies(rule, url@),
            );
        }
        if rules[i].url_pattern.is_match(url) {
            matching.push(&rules[i]);
            proof {
                let after = matching.deep_view();
                assert forall|j: int| 0 <= j < after.len() implies after[j] == chosen.push(
                    all[i as int],
                )[j] by {
                    if j < before.len() {
                        assert(matching@[j] == before[j]);
                        assert(chosen[j] == before[j]@);
                    }
                }
                assert(after =~= chosen.push(all[i as int]));
            }
        }
        i = i + 1;
    }
    proof {
        assert(all.take(rules.len() as int) =~= all);
    }
    matching
}

/// Removes from the pairs every one whose name a parameter rule of the
/// provider matches. All pairs of such a name go; the others keep their order.
pub fn strip_pairs(
    pairs: Vec<(String, String)>,
    provider: &CompiledProviderDetails,
) -> (kept: Vec<(String, String)>)
    ensures
        kept.deep_view() == strip_by(pairs.deep_view(), provider@),
{
    let ghost all = pairs.deep_view();
    let ghost items = pairs@;
    let mut kept: Vec<(String, String)> = Vec::new();
    proof {
        reveal(Seq::filter);
        assert(all.take(0) =~= Seq::empty());
        assert(kept.deep_view() =~= strip_by(all.take(0), provider@));
    }
    for pair in it: pairs
        invariant
            it.seq() == items,
            all.len() == items.len(),
            forall|j: int| 0 <= j < items.len() ==> all[j] == (#[trigger] items[j]).deep_view(),
            kept.deep_view() == strip_by(all.take(it.index() as int), provider@),
    {
        let ghost i = it.index() as int;
        let ghost before = kept@;
        let ghost chosen = kept.deep_view();
        assert(before.len() == chosen.len());
        proof {
            assert(all.take(i + 1) =~= all.take(i).push(all[i]));
            all.take(i).lemma_filter_push(
                all[i],
                |pair: (Seq<char>, Seq<char>)| !strips(provider@, pair.0),
            );
            assert(all[i] == pair.deep_view());
        }
        if !matches_any(&provider.rules, pair.0.as_str()) {
            kept.push(pair);
            proof {
                let after = kept.deep_view();
                assert forall|j: int| 0 <= j < after.len() implies after[j] == chosen.push(
                    all[i],
                )[j] by {
                    if j < before.len() {
                        assert(kept@[j] == before[j]);
                        assert(chosen[j] == before[j].deep_view());
                    }
                }
                assert(after =~= chosen.push(all[i]));
            }
        }
    }
    proof {
        assert(all.take(items.len() as int) =~= all);
    }
    kept
}

/// Hands back the working URL as the pre-passes left it, if they changed it.
fn unchanged(working: &ParsedUrl, did_changes: bool) -> (r: Option<String>)
    ensures
        r.deep_view() == fallback(working@, did_changes),
{
    if did_changes {
        Some(trim_query_marks(working.as_str()))
    } else {
        None
    }
}

/// Rewrites the working URL by the providers that cover the raw URL, taken in
/// their order. The first exception that matches the raw URL ends the
/// rewriting, and nothing is stripped. Each provider removes the pairs whose
/// name one of its parameter rules matches from what the providers before it
/// have left. What is handed back is the serialization with the new query and
/// without question marks at its end; where nothing was rewritten, the working
/// URL if a pre-pass changed it, else nothing.
pub fn rewrite(
    url: &str,
    working: &ParsedUrl,
    did_changes: bool,
    matching: &Vec<&CompiledProviderDetails>,
) -> (r: Option<String>)
    ensures
        r.deep_view() == rewritten(url@, working@, did_changes, matching.deep_view()),
{
    if matching.len() == 0 {
        return unchanged(working, did_changes);
    }
    let ghost rules = matching.deep_view();
    let ghost query = url_query_pairs(working@);
    let mut pairs = working.query_pairs();
    let mut i: usize = 0;
    while i < matching.len()
        invariant
            0 <= i <= matching.len(),
            rules == matching.deep_view(),
            query == url_query_pairs(working@),
            !vetoed(rules.take(i as int), url@),
            pairs.deep_view() == strip_in_turn(query, rules.take(i as int)),
        decreases matching.len() - i,
    {
        let provider = matching[i];
        assert(rules[i as int] == provider@);
        if matches_any(&provider.exceptions, url) {
            assert(excepted(rules[i as int], url@));
            return unchanged(working, did_changes);
        }
        pairs = strip_pairs(pairs, provider);
        proof {
            let next = rules.take(i as int + 1);
            assert(next.drop_last() =~= rules.take(i as int));
            assert(next.last() == rules[i as int]);
            assert forall|j: int| 0 <= j < next.len() implies !excepted(
                #[trigger] next[j],
                url@,
            ) by {
                if j < i {
                    assert(rules.take(i as int)[j] == next[j]);
                }
            }
        }
        i = i + 1;
    }
    proof {
        assert(rules.take(matching.len() as int) =~= rules);
        lemma_cumulative_filtering(query, rules);
    }
    match working.try_with_query_pairs(&pairs) {
        Some(rewritten) => Some(trim_query_marks(rewritten.as_str())),
        None => unchanged(working, did_changes),
    }
}

} // verus!
