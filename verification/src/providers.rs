//! Provider rules: as they are written down, and compiled for matching.

use crate::pattern::{pattern_compiles, Pattern, PatternError};
use vstd::prelude::*;

verus! {

/// What a provider's rules say, whether written down or compiled.
pub struct ProviderView {
    pub url_pattern: Seq<char>,
    pub complete_provider: bool,
    pub rules: Seq<Seq<char>>,
    pub referral_marketing: Seq<Seq<char>>,
    pub raw_rules: Seq<Seq<char>>,
    pub exceptions: Seq<Seq<char>>,
    pub redirections: Seq<Seq<char>>,
    pub force_redirection: bool,
}

/// Whether every pattern of the list compiles.
pub open spec fn all_compile(patterns: Seq<Seq<char>>) -> bool {
    forall|i: int| 0 <= i < patterns.len() ==> pattern_compiles(#[trigger] patterns[i])
}

/// Whether `index` is the place of the first pattern of the list that does not
/// compile.
pub open spec fn first_rejected(patterns: Seq<Seq<char>>, index: int) -> bool {
    &&& 0 <= index < patterns.len()
    &&& !pattern_compiles(patterns[index])
    &&& all_compile(patterns.take(index))
}

impl ProviderView {
    /// Whether every pattern of the provider compiles.
    pub open spec fn compiles(self) -> bool {
        &&& pattern_compiles(self.url_pattern)
        &&& all_compile(self.rules)
        &&& all_compile(self.referral_marketing)
        &&& all_compile(self.raw_rules)
        &&& all_compile(self.exceptions)
        &&& all_compile(self.redirections)
    }

    /// Whether the first pattern that does not compile, going through the
    /// fields in the order of their declaration, is the one at `index` of
    /// `field`.
    pub open spec fn fails_at(self, field: RuleField, index: int) -> bool {
        match field {
            RuleField::UrlPattern => index == 0 && !pattern_compiles(self.url_pattern),
            RuleField::Rules => {
                &&& pattern_compiles(self.url_pattern)
                &&& first_rejected(self.rules, index)
            },
            RuleField::ReferralMarketing => {
                &&& pattern_compiles(self.url_pattern)
                &&& all_compile(self.rules)
                &&& first_rejected(self.referral_marketing, index)
            },
            RuleField::RawRules => {
                &&& pattern_compiles(self.url_pattern)
                &&& all_compile(self.rules)
                &&& all_compile(self.referral_marketing)
                &&& first_rejected(self.raw_rules, index)
            },
            RuleField::Exceptions => {
                &&& pattern_compiles(self.url_pattern)
                &&& all_compile(self.rules)
                &&& all_compile(self.referral_marketing)
                &&& all_compile(self.raw_rules)
                &&& first_rejected(self.exceptions, index)
            },
            RuleField::Redirections => {
                &&& pattern_compiles(self.url_pattern)
                &&& all_compile(self.rules)
                &&& all_compile(self.referral_marketing)
                &&& all_compile(self.raw_rules)
                &&& all_compile(self.exceptions)
                &&& first_rejected(self.redirections, index)
            },
        }
    }

    /// The pattern at `index` of `field`.
    pub open spec fn pattern_at(self, field: RuleField, index: int) -> Seq<char> {
        match field {
            RuleField::UrlPattern => self.url_pattern,
            RuleField::Rules => self.rules[index],
            RuleField::ReferralMarketing => self.referral_marketing[index],
            RuleField::RawRules => self.raw_rules[index],
            RuleField::Exceptions => self.exceptions[index],
            RuleField::Redirections => self.redirections[index],
        }
    }
}

/// The rules of one provider as the rule document gives them.
#[derive(Debug)]
pub struct ProviderDetails {
    pub url_pattern: String,
    pub complete_provider: bool,
    pub rules: Vec<String>,
    pub referral_marketing: Vec<String>,
    pub raw_rules: Vec<String>,
    pub exceptions: Vec<String>,
    pub redirections: Vec<String>,
    pub force_redirection: bool,
}

impl View for ProviderDetails {
    type V = ProviderView;

    open spec fn view(&self) -> ProviderView {
        ProviderView {
            url_pattern: self.url_pattern@,
            complete_provider: self.complete_provider,
            rules: self.rules.deep_view(),
            referral_marketing: self.referral_marketing.deep_view(),
            raw_rules: self.raw_rules.deep_view(),
            exceptions: self.exceptions.deep_view(),
            redirections: self.redirections.deep_view(),
            force_redirection: self.force_redirection,
        }
    }
}

/// The rules of one provider with every pattern compiled.
#[derive(Debug)]
pub struct CompiledProviderDetails {
    pub url_pattern: Pattern,
    pub complete_provider: bool,
    pub rules: Vec<Pattern>,
    pub referral_marketing: Vec<Pattern>,
    pub raw_rules: Vec<Pattern>,
    pub exceptions: Vec<Pattern>,
    pub redirections: Vec<Pattern>,
    pub force_redirection: bool,
}

impl View for CompiledProviderDetails {
    type V = ProviderView;

    open spec fn view(&self) -> ProviderView {
        ProviderView {
            url_pattern: self.url_pattern@,
            complete_provider: self.complete_provider,
            rules: self.rules.deep_view(),
            referral_marketing: self.referral_marketing.deep_view(),
            raw_rules: self.raw_rules.deep_view(),
            exceptions: self.exceptions.deep_view(),
            redirections: self.redirections.deep_view(),
            force_redirection: self.force_redirection,
        }
    }
}

impl DeepView for CompiledProviderDetails {
    type V = ProviderView;

    open spec fn deep_view(&self) -> ProviderView {
        self@
    }
}

/// The rule document: the providers under their names, in the order in which
/// they are to be tried.
#[derive(Debug)]
pub struct Providers {
    pub providers: Vec<(String, ProviderDetails)>,
}

impl Providers {
    /// The rules of the document's providers, in its order and without the names.
    pub open spec fn rules(&self) -> Seq<ProviderView> {
        Seq::new(self.providers@.len(), |i: int| self.providers@[i].1@)
    }
}

/// The field of a provider's rules in which a pattern stands.
#[derive(Debug, Clone, Copy, PartialEq, Eq, Structural)]
pub enum RuleField {
    UrlPattern,
    Rules,
    ReferralMarketing,
    RawRules,
    Exceptions,
    Redirections,
}

/// A pattern of a provider that did not compile: where it stands, and the
/// error of compiling it.
#[derive(Debug)]
pub struct RuleError {
    pub field: RuleField,
    pub index: usize,
    pub error: PatternError,
}

/// Compiles the patterns of one list in order and stops at the first that is
/// rejected, handing back its place and the error.
fn compile_all(sources: &Vec<String>) -> (r: Result<Vec<Pattern>, (usize, PatternError)>)
    ensures
        r is Ok <==> all_compile(sources.deep_view()),
        r matches Ok(patterns) ==> patterns.deep_view() == sources.deep_view(),
        r matches Err(e) ==> first_rejected(sources.deep_view(), e.0 as int) && e.1.pattern@
            == sources.deep_view()[e.0 as int],
{
    let ghost texts = sources.deep_view();
    let mut patterns: Vec<Pattern> = Vec::new();
    let mut i: usize = 0;
    while i < sources.len()
        invariant
            0 <= i <= sources.len(),
            texts == sources.deep_view(),
            patterns.deep_view() == texts.take(i as int),
            all_compile(texts.take(i as int)),
        decreases sources.len() - i,
    {
        assert(texts[i as int] == sources[i as int]@);
        let ghost before = patterns@;
        assert(before.len() == patterns.deep_view().len());
        match Pattern::new(sources[i].as_str()) {
            Ok(pattern) => {
                patterns.push(pattern);
                assert(patterns@ == before.push(pattern));
            },
            Err(error) => {
                return Err((i, error));
            },
        }
        proof {
            let after = patterns.deep_view();
            assert forall|j: int| 0 <= j < i + 1 implies after[j] == texts[j] by {
                if j < i {
                    assert(patterns@[j] == before[j]);
                    assert(texts.take(i as int)[j] == texts[j]);
                }
            }
            assert(after =~= texts.take(i as int + 1));
            assert forall|j: int| 0 <= j < i + 1 implies pattern_compiles(
                #[trigger] texts.take(i as int + 1)[j],
            ) by {
                if j < i {
                    assert(texts.take(i as int)[j] == texts[j]);
                }
            }
        }
        i = i + 1;
    }
    proof {
        assert(texts.take(sources.len() as int) =~= texts);
    }
    Ok(patterns)
}

/// Builds the error for the pattern at the place that `compile_all` reported.
fn rejected(field: RuleField, failure: (usize, PatternError)) -> (e: RuleError)
    ensures
        e.field == field,
        e.index == failure.0,
        e.error == failure.1,
{
    RuleError { field, index: failure.0, error: failure.1 }
}

impl CompiledProviderDetails {
    /// Compiles every pattern of a provider, field by field in the order of
    /// their declaration. Succeeds exactly where all of them compile, and the
    /// result then says what `details` says. Otherwise the error names the
    /// place of the first pattern that was rejected and holds its text.
    pub fn new(details: &ProviderDetails) -> (r: Result<CompiledProviderDetails, RuleError>)
        ensures
            r is Ok <==> details@.compiles(),
            r matches Ok(compiled) ==> compiled@ == details@,
            r matches Err(e) ==> details@.fails_at(e.field, e.index as int) && e.error.pattern@
                == details@.pattern_at(e.field, e.index as int),
    {
        let url_pattern = match Pattern::new(details.url_pattern.as_str()) {
            Ok(pattern) => pattern,
            Err(error) => {
                return Err(RuleError { field: RuleField::UrlPattern, index: 0, error });
            },
        };
        let rules = match compile_all(&details.rules) {
            Ok(patterns) => patterns,
            Err(failure) => {
                return Err(rejected(RuleField::Rules, failure));
            },
        };
        let referral_marketing = match compile_all(&details.referral_marketing) {
            Ok(patterns) => patterns,
            Err(failure) => {
                return Err(rejected(RuleField::ReferralMarketing, failure));
            },
        };
        let raw_rules = match compile_all(&details.raw_rules) {
            Ok(patterns) => patterns,
            Err(failure) => {
                return Err(rejected(RuleField::RawRules, failure));
            },
        };
        let exceptions = match compile_all(&details.exceptions) {
            Ok(patterns) => patterns,
            Err(failure) => {
                return Err(rejected(RuleField::Exceptions, failure));
            },
        };
        let redirections = match compile_all(&details.redirections) {
            Ok(patterns) => patterns,
            Err(failure) => {
                return Err(rejected(RuleField::Redirections, failure));
            },
        };
        Ok(
            CompiledProviderDetails {
                url_pattern,
                complete_provider: details.complete_provider,
                rules,
                referral_marketing,
                raw_rules,
                exceptions,
                redirections,
                force_redirection: details.force_redirection,
            },
        )
    }
}

/// The providers of a document that are kept: those whose patterns all
/// compile, in the document's order.
pub open spec fn kept_rules(rules: Seq<ProviderView>) -> Seq<ProviderView> {
    rules.filter(|rule: ProviderView| rule.compiles())
}

/// Compiles the providers of a rule document in its order. A provider with a
/// pattern that does not compile is left out; the others are all there. So
/// every provider of the result holds valid patterns only.
pub fn compile_providers(providers: &Providers) -> (compiled: Vec<CompiledProviderDetails>)
    ensures
        compiled.deep_view() == kept_rules(providers.rules()),
        forall|i: int| 0 <= i < compiled.len() ==> (#[trigger] compiled.deep_view()[i]).compiles(),
{
    let ghost rules = providers.rules();
    let mut compiled: Vec<CompiledProviderDetails> = Vec::new();
    let mut i: usize = 0;
    proof {
        reveal(Seq::filter);
        assert(rules.take(0) =~= Seq::empty());
        assert(compiled.deep_view() =~= kept_rules(rules.take(0)));
    }
    while i < providers.providers.len()
        invariant
            0 <= i <= providers.providers.len(),
            rules == providers.rules(),
            compiled.deep_view() == kept_rules(rules.take(i as int)),
        decreases providers.providers.len() - i,
    {
        let ghost before = compiled@;
        let ghost kept = compiled.deep_view();
        assert(before.len() == kept.len());
        proof {
            assert(rules.take(i as int + 1) =~= rules.take(i as int).push(rules[i as int]));
            rules.take(i as int).lemma_filter_push(
                rules[i as int],
                |rule: ProviderView| rule.compiles(),
            );
        }
        match CompiledProviderDetails::new(&providers.providers[i].1) {
            Ok(provider) => {
                compiled.push(provider);
                proof {
                    let after = compiled.deep_view();
                    assert forall|j: int| 0 <= j < after.len() implies after[j] == kept.push(
                        rules[i as int],
                    )[j] by {
                        if j < before.len() {
                            assert(compiled@[j] == before[j]);
                            assert(kept[j] == before[j]@);
                        }
                    }
                    assert(after =~= kept.push(rules[i as int]));
                }
            },
            Err(_) => {},
        }
        i = i + 1;
    }
    proof {
        assert(rules.take(providers.providers.len() as int) =~= rules);
        assert forall|i: int| 0 <= i < compiled.len() implies (#[trigger] compiled.deep_view()[
            i
        ]).compiles() by {
            rules.lemma_filter_pred(|rule: ProviderView| rule.compiles(), i);
        }
    }
    compiled
}

} // verus!
