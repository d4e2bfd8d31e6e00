use linkers::cleaner::{
    build_response_text, clean_url, clean_working_url, cleanup_candidates, cleanup_comment,
    find_candidates, report_changed, UrlFinder,
};
use linkers::pipeline::WorkingUrl;
use linkers::providers::{compile_providers, CompiledProviderDetails, ProviderDetails, Providers};
use linkers::utils_api::{CanonicalInfo, Item, OriginInfo, RedirectorResponse, ResponseType};

fn provider(url_pattern: &str, rules: &[&str], exceptions: &[&str]) -> ProviderDetails {
    ProviderDetails {
        url_pattern: url_pattern.to_string(),
        complete_provider: false,
        rules: rules.iter().map(|rule| rule.to_string()).collect(),
        referral_marketing: Vec::new(),
        raw_rules: Vec::new(),
        exceptions: exceptions.iter().map(|rule| rule.to_string()).collect(),
        redirections: Vec::new(),
        force_redirection: false,
    }
}

fn compiled(details: Vec<ProviderDetails>) -> Vec<CompiledProviderDetails> {
    details
        .iter()
        .map(|details| CompiledProviderDetails::new(details).expect("the patterns compile"))
        .collect()
}

fn utm_rules() -> Vec<CompiledProviderDetails> {
    compiled(vec![provider("example.com", &["^utm_"], &[])])
}

fn finder() -> UrlFinder {
    UrlFinder::new().expect("the URL pattern compiles")
}

fn answered<T>(answer: T) -> Result<T, String> {
    Ok(answer)
}

fn failed<T>() -> Result<T, String> {
    Err("the lookup failed".to_string())
}

fn canonical(url: &str, is_amp: bool) -> CanonicalInfo {
    CanonicalInfo {
        domain: "example.org".to_string(),
        is_alt: false,
        is_amp,
        is_cached: None,
        is_valid: true,
        type_: "REL".to_string(),
        url: url.to_string(),
    }
}

fn item(amp_canonical: Option<CanonicalInfo>, canonical: Option<CanonicalInfo>) -> Item {
    Item {
        amp_canonical,
        canonical,
        origin: OriginInfo {
            domain: "google.com".to_string(),
            is_amp: true,
            is_cached: true,
            is_valid: true,
            url: "https://www.google.com/amp/s/example.org/story/amp/".to_string(),
        },
    }
}

#[test]
fn tracking_parameter_is_stripped_from_url_in_text() {
    let output = cleanup_comment(
        "see https://example.com/x?utm_source=a&keep=1",
        &finder(),
        &utm_rules(),
    );
    assert_eq!(output, vec!["https://example.com/x?keep=1".to_string()]);
}

#[test]
fn text_with_only_untracked_urls_gives_empty_output() {
    let output = cleanup_comment(
        "one https://duckduckgo.com/ two http://other.test/path?utm_source=a three",
        &finder(),
        &utm_rules(),
    );
    assert_eq!(output, Vec::<String>::new());
}

#[test]
fn text_without_urls_gives_empty_output() {
    assert_eq!(cleanup_comment("nothing here", &finder(), &utm_rules()), Vec::<String>::new());
    assert_eq!(cleanup_comment("", &finder(), &utm_rules()), Vec::<String>::new());
}

#[test]
fn uncovered_url_is_nothing_to_clean() {
    assert_eq!(clean_url("https://duckduckgo.com/?utm_source=a", &utm_rules()), None);
}

#[test]
fn unparseable_url_is_nothing_to_clean() {
    let rules = compiled(vec![provider(".*", &["^utm_"], &[])]);
    assert_eq!(clean_url("https://", &rules), None);
    assert_eq!(clean_url("not a url", &rules), None);
    assert_eq!(cleanup_comment("look at https:// now", &finder(), &rules), Vec::<String>::new());
}

#[test]
fn all_occurrences_of_a_matching_key_are_dropped() {
    let cleaned = clean_url(
        "https://example.com/x?utm_source=a&keep=1&utm_source=b&utm_medium=c&keep=2",
        &utm_rules(),
    );
    assert_eq!(cleaned, Some("https://example.com/x?keep=1&keep=2".to_string()));
}

#[test]
fn removal_goes_by_key_and_not_by_value() {
    let cleaned = clean_url("https://example.com/x?keep=utm_source&q=utm_", &utm_rules());
    assert_eq!(cleaned, Some("https://example.com/x?keep=utm_source&q=utm_".to_string()));
}

#[test]
fn empty_query_leaves_no_question_mark() {
    let cleaned = clean_url("https://example.com/x?utm_source=a&utm_medium=b", &utm_rules());
    assert_eq!(cleaned, Some("https://example.com/x".to_string()));
}

#[test]
fn fragment_stays_behind_an_emptied_query() {
    let cleaned = clean_url("https://example.com/x?utm_source=a#top", &utm_rules());
    assert_eq!(cleaned, Some("https://example.com/x?#top".to_string()));
}

#[test]
fn provider_is_matched_against_the_raw_url() {
    let rules = compiled(vec![provider("^https://example\\.com/only\\?", &["^ref$"], &[])]);
    assert_eq!(
        clean_url("https://example.com/only?ref=1&a=2", &rules),
        Some("https://example.com/only?a=2".to_string())
    );
    assert_eq!(clean_url("https://example.com/other?ref=1&a=2", &rules), None);
}

#[test]
fn covered_url_is_serialized_anew_even_if_nothing_is_stripped() {
    let cleaned = clean_url("https://example.com/x?a=b%20c&flag", &utm_rules());
    assert_eq!(cleaned, Some("https://example.com/x?a=b+c&flag=".to_string()));
}

#[test]
fn cleaning_a_cleaned_url_changes_nothing() {
    let rules = compiled(vec![
        provider("example.com", &["^utm_"], &[]),
        provider("example", &["^ref$", "^fbclid$"], &[]),
    ]);
    let first = clean_url("https://example.com/x?utm_source=a&ref=7&keep=1&fbclid=z", &rules)
        .expect("the URL is covered");
    assert_eq!(first, "https://example.com/x?keep=1");
    let second = clean_url(&first, &rules).expect("the URL is covered");
    assert_eq!(second, first);
    let again = cleanup_comment(&format!("again {}", first), &finder(), &rules);
    assert_eq!(again, Vec::<String>::new());
}

#[test]
fn output_keeps_the_order_of_the_text() {
    let rules = compiled(vec![provider("example", &["^utm_"], &[])]);
    let output = cleanup_comment(
        "a https://example.com/2?utm_a=1&b=2 b https://duckduckgo.com/ c \
         https://example.org/1?utm_z=9 d https://example.com/2?utm_a=1&b=2",
        &finder(),
        &rules,
    );
    assert_eq!(
        output,
        vec![
            "https://example.com/2?b=2".to_string(),
            "https://example.org/1".to_string(),
            "https://example.com/2?b=2".to_string(),
        ]
    );
}

#[test]
fn url_ends_at_first_white_space() {
    let found = finder().find("x https://example.com/a?b=c\thttp://b.test/\nhttps://c.test/é end");
    assert_eq!(
        found,
        vec![
            "https://example.com/a?b=c".to_string(),
            "http://b.test/".to_string(),
            "https://c.test/é".to_string(),
        ]
    );
}

#[test]
fn url_needs_http_or_https_scheme() {
    let found = finder().find("ftp://a.test/ www.b.test https:// mailto:x@y.test httpx://c.test");
    assert_eq!(found, Vec::<String>::new());
}

#[test]
fn find_candidates_parses_each_token() {
    let candidates = find_candidates(&finder(), "a https://example.com b https://[ c");
    assert_eq!(candidates.len(), 2);
    assert_eq!(candidates[0].token, "https://example.com");
    let working = candidates[0].working.as_ref().expect("the token is a URL");
    assert_eq!(working.url.as_str(), "https://example.com/");
    assert!(!working.did_changes);
    assert_eq!(candidates[1].token, "https://[");
    assert!(candidates[1].working.is_none());
}

#[test]
fn exception_vetoes_the_provider() {
    let rules = compiled(vec![provider("example.com", &["^utm_"], &["/keep/"])]);
    assert_eq!(clean_url("https://example.com/keep/x?utm_source=a", &rules), None);
    assert_eq!(
        clean_url("https://example.com/drop/x?utm_source=a&b=1", &rules),
        Some("https://example.com/drop/x?b=1".to_string())
    );
    let output =
        cleanup_comment("see https://example.com/keep/x?utm_source=a", &finder(), &rules);
    assert_eq!(output, Vec::<String>::new());
}

#[test]
fn exception_of_a_later_provider_leaves_nothing_stripped() {
    let rules = compiled(vec![
        provider("example.com", &["^utm_"], &[]),
        provider("example", &["^ref$"], &["/keep/"]),
    ]);
    assert_eq!(clean_url("https://example.com/keep/x?utm_source=a&ref=1", &rules), None);
    let working = WorkingUrl::start("https://example.com/keep/x?utm_source=a&ref=1")
        .expect("the text is a URL")
        .after_amp(&answered(vec![item(
            Some(canonical("https://example.org/story?utm_source=a&ref=1", false)),
            None,
        )]));
    assert_eq!(
        clean_working_url("https://example.com/keep/x?utm_source=a&ref=1", &working, &rules),
        Some("https://example.org/story?utm_source=a&ref=1".to_string())
    );
}

#[test]
fn two_providers_strip_both_their_parameters() {
    let rules = compiled(vec![
        provider("example.com", &["^utm_"], &[]),
        provider("never-matches", &["^keep$"], &[]),
        provider("/x\\?", &["^ref$", "^fbclid$"], &[]),
    ]);
    let cleaned = clean_url("https://example.com/x?utm_source=a&ref=7&keep=1&fbclid=z", &rules);
    assert_eq!(cleaned, Some("https://example.com/x?keep=1".to_string()));
}

#[test]
fn amp_canonical_target_is_reported_without_provider_match() {
    let token = "https://www.google.com/amp/s/example.org/story/amp/";
    let mut candidates = find_candidates(&finder(), token);
    let candidate = candidates.pop().expect("the text holds a URL");
    let working = candidate
        .working
        .expect("the token is a URL")
        .after_amp(&answered(vec![item(Some(canonical("https://example.org/story/", false)), None)]));
    assert!(working.did_changes);
    assert_eq!(working.url.as_str(), "https://example.org/story/");
    let candidates =
        vec![linkers::cleaner::Candidate { token: candidate.token, working: Some(working) }];
    let output = cleanup_candidates(&candidates, &utm_rules());
    assert_eq!(output, vec!["https://example.org/story/".to_string()]);
}

#[test]
fn canonical_target_is_rewritten_by_providers_of_the_raw_url() {
    let token = "https://example.com/amp/story?utm_source=a";
    let working = WorkingUrl::start(token).expect("the token is a URL").after_amp(&answered(vec![item(
        None,
        Some(canonical("https://example.org/story?utm_source=a&page=2", false)),
    )]));
    assert_eq!(
        clean_working_url(token, &working, &utm_rules()),
        Some("https://example.org/story?page=2".to_string())
    );
}

#[test]
fn canonical_target_that_equals_the_token_is_not_reported() {
    let token = "https://example.org/story/";
    let working = WorkingUrl::start(token)
        .expect("the token is a URL")
        .after_amp(&answered(vec![item(None, Some(canonical(token, false)))]));
    assert!(working.did_changes);
    let candidates =
        vec![linkers::cleaner::Candidate { token: token.to_string(), working: Some(working) }];
    assert_eq!(cleanup_candidates(&candidates, &utm_rules()), Vec::<String>::new());
}

#[test]
fn canonical_target_loses_trailing_question_marks() {
    let token = "https://www.google.com/amp/s/example.org/story/amp/";
    let working = WorkingUrl::start(token)
        .expect("the token is a URL")
        .after_amp(&answered(vec![item(None, Some(canonical("https://example.org/story??", false)))]));
    assert_eq!(
        clean_working_url(token, &working, &utm_rules()),
        Some("https://example.org/story".to_string())
    );
}

#[test]
fn redirect_without_result_leaves_url_unchanged_and_unreported() {
    let token = "https://bit.example/3DlYLDG";
    let response = RedirectorResponse {
        result_url: None,
        response_status: ResponseType::UrlMalformed,
        redirect_urls: None,
    };
    let working = WorkingUrl::start(token).expect("the token is a URL").after_redirect(&answered(response));
    assert!(!working.did_changes);
    assert_eq!(working.url.as_str(), token);
    let candidates =
        vec![linkers::cleaner::Candidate { token: token.to_string(), working: Some(working) }];
    assert_eq!(cleanup_candidates(&candidates, &utm_rules()), Vec::<String>::new());
}

#[test]
fn redirect_without_result_keeps_what_amp_changed() {
    let token = "https://www.google.com/amp/s/example.org/story/amp/";
    let response = RedirectorResponse {
        result_url: None,
        response_status: ResponseType::UrlMalformed,
        redirect_urls: None,
    };
    let working = WorkingUrl::start(token)
        .expect("the token is a URL")
        .after_amp(&answered(vec![item(Some(canonical("https://example.org/story/", false)), None)]))
        .after_redirect(&answered(response));
    assert!(working.did_changes);
    let candidates =
        vec![linkers::cleaner::Candidate { token: token.to_string(), working: Some(working) }];
    assert_eq!(
        cleanup_candidates(&candidates, &utm_rules()),
        vec!["https://example.org/story/".to_string()]
    );
}

#[test]
fn failed_lookups_leave_url_unchanged() {
    let token = "https://example.com/x?utm_source=a";
    let working = WorkingUrl::start(token)
        .expect("the token is a URL")
        .after_amp(&failed::<Vec<Item>>())
        .after_redirect(&failed::<RedirectorResponse>());
    assert!(!working.did_changes);
    assert_eq!(working.url.as_str(), token);
    assert_eq!(
        clean_working_url(token, &working, &utm_rules()),
        Some("https://example.com/x".to_string())
    );
}

#[test]
fn redirect_result_replaces_url_whatever_the_status() {
    let token = "https://bit.example/3DlYLDG";
    let response = RedirectorResponse {
        result_url: Some("https://example.com/products?utm_source=a&id=2".to_string()),
        response_status: ResponseType::BadRequest,
        redirect_urls: Some(vec![token.to_string()]),
    };
    let working = WorkingUrl::start(token).expect("the token is a URL").after_redirect(&answered(response));
    assert!(working.did_changes);
    assert_eq!(working.url.as_str(), "https://example.com/products?utm_source=a&id=2");
    let candidates =
        vec![linkers::cleaner::Candidate { token: token.to_string(), working: Some(working) }];
    // No provider covers the raw URL, so the redirect target is reported as it is.
    assert_eq!(
        cleanup_candidates(&candidates, &utm_rules()),
        vec!["https://example.com/products?utm_source=a&id=2".to_string()]
    );
}

#[test]
fn report_changed_picks_changed_urls_in_order() {
    let results = vec![
        ("https://a.test/?x=1".to_string(), Some("https://a.test/".to_string())),
        ("https://b.test/".to_string(), None),
        ("https://c.test/".to_string(), Some("https://c.test/".to_string())),
        ("https://d.test".to_string(), Some("https://d.test/".to_string())),
        ("https://a.test/?x=1".to_string(), Some("https://a.test/".to_string())),
    ];
    assert_eq!(
        report_changed(results),
        vec![
            "https://a.test/".to_string(),
            "https://d.test/".to_string(),
            "https://a.test/".to_string(),
        ]
    );
    assert_eq!(report_changed(Vec::new()), Vec::<String>::new());
}

#[test]
fn longer_cleaned_url_is_reported() {
    let rules = compiled(vec![provider("example.com", &["^utm_"], &[])]);
    let output = cleanup_comment("https://example.com", &finder(), &rules);
    assert_eq!(output, vec!["https://example.com/".to_string()]);
}

#[test]
fn response_text_without_links() {
    assert_eq!(
        build_response_text(Vec::new()),
        "Es wurden keine Links mit Tracking gefunden."
    );
}

#[test]
fn response_text_with_one_link() {
    assert_eq!(
        build_response_text(vec!["https://example.com/x?keep=1".to_string()]),
        "Hier der Link ohne Tracking:\n- https://example.com/x?keep=1\n"
    );
}

#[test]
fn response_text_with_several_links() {
    assert_eq!(
        build_response_text(vec!["https://a.test/".to_string(), "https://b.test/".to_string()]),
        "Hier die Links ohne Tracking:\n- https://a.test/\n- https://b.test/\n"
    );
}

#[test]
fn compile_providers_drops_provider_with_invalid_pattern() {
    let document = Providers {
        providers: vec![
            ("first".to_string(), provider("a\\.test", &["^x$"], &[])),
            ("broken rule".to_string(), provider("b\\.test", &["^x$", "(unclosed"], &[])),
            ("broken exception".to_string(), provider("c\\.test", &[], &["[z-a]"])),
            ("last".to_string(), provider("d\\.test", &["^y$"], &["/keep/"])),
        ],
    };
    let compiled = compile_providers(&document);
    assert_eq!(compiled.len(), 2);
    assert_eq!(compiled[0].url_pattern.as_str(), "a\\.test");
    assert_eq!(compiled[1].url_pattern.as_str(), "d\\.test");
    assert_eq!(compiled[1].rules.len(), 1);
    assert_eq!(compiled[1].rules[0].as_str(), "^y$");
    assert_eq!(compiled[1].exceptions[0].as_str(), "/keep/");
    assert_eq!(compile_providers(&Providers { providers: Vec::new() }).len(), 0);
}
