//! Reconciling rules with the installed applications.
//!
//! A rule list is rebuilt from three sources: the rules predicted in this
//! round, the rules stored before, and the applications that are installed
//! now. Hand-edited rules win over fresh predictions, which win over stored
//! predictions; an application without any rule gets the first input source
//! of the catalog.

use vstd::prelude::*;
use crate::catalog::catalog_has_id;
use crate::config::{rule_views, AppRule, AppRuleView};
use crate::error::AppError;
use crate::llm::LLMConfig;
use crate::input_source::{has_id, source_views, InputSource, InputSourceView};
use crate::system_apps::{app_views, SystemApp, SystemAppView};
use crate::text::{text_eq, text_starts_with};

verus! {

/// The prefix of the bundle ids that the platform's vendor reserves.
pub open spec fn reserved_prefix() -> Seq<char> {
    "com.apple."@
}

/// The test that an application is a target for rules: its bundle id does
/// not carry the reserved prefix.
pub open spec fn is_target() -> spec_fn(SystemAppView) -> bool {
    |app: SystemAppView| !reserved_prefix().is_prefix_of(app.bundle_id)
}

/// Keeps the applications whose bundle id does not carry the reserved
/// prefix, in their order.
pub fn filter_target_apps(apps: Vec<SystemApp>) -> (targets: Vec<SystemApp>)
    ensures
        app_views(targets@) == app_views(apps@).filter(is_target()),
{
    let ghost all = app_views(apps@);
    let mut targets: Vec<SystemApp> = Vec::new();
    let mut i: usize = 0;
    proof {
        reveal(Seq::filter);
        assert(app_views(targets@) =~= all.take(0).filter(is_target()));
    }
    while i < apps.len()
        invariant
            i <= apps.len(),
            all == app_views(apps@),
            app_views(targets@) == all.take(i as int).filter(is_target()),
        decreases apps.len() - i,
    {
        let ghost before = app_views(targets@);
        proof {
            reveal(Seq::filter);
            assert(all.take(i + 1).drop_last() =~= all.take(i as int));
            assert(all.take(i + 1).last() == apps[i as int]@);
        }
        if !text_starts_with(apps[i].bundle_id.as_str(), "com.apple.") {
            targets.push(apps[i].clone());
            proof {
                assert(app_views(targets@) =~= before.push(apps[i as int]@));
            }
        }
        i += 1;
    }
    proof {
        assert(all.take(apps.len() as int) =~= all);
    }
    targets
}

/// Filtering keeps exactly the applications of other vendors: no kept
/// application carries the reserved prefix, and every application without it
/// is kept.
pub proof fn filter_keeps_exactly_other_vendors(apps: Seq<SystemAppView>)
    ensures
        forall|i: int|
            0 <= i < apps.filter(is_target()).len() ==> !reserved_prefix().is_prefix_of(
                (#[trigger] apps.filter(is_target())[i]).bundle_id,
            ) && apps.contains(apps.filter(is_target())[i]),
        forall|j: int|
            0 <= j < apps.len() && !reserved_prefix().is_prefix_of((#[trigger] apps[j]).bundle_id)
                ==> apps.filter(is_target()).contains(apps[j]),
{
    let kept = apps.filter(is_target());
    assert forall|i: int| 0 <= i < kept.len() implies !reserved_prefix().is_prefix_of(
        (#[trigger] kept[i]).bundle_id,
    ) && apps.contains(kept[i]) by {
        apps.lemma_filter_pred(is_target(), i);
        assert(kept.contains(kept[i]));
        apps.lemma_filter_contains_rev(is_target(), kept[i]);
    }
    assert forall|j: int|
        0 <= j < apps.len() && !reserved_prefix().is_prefix_of(
            (#[trigger] apps[j]).bundle_id,
        ) implies kept.contains(apps[j]) by {
        apps.lemma_filter_contains(is_target(), j);
    }
}

/// Whether `first` stands at an earlier place of the list than `second`.
pub open spec fn stands_before(
    apps: Seq<SystemAppView>,
    first: SystemAppView,
    second: SystemAppView,
) -> bool {
    exists|i: int, j: int|
        0 <= i < j < apps.len() && (#[trigger] apps[i]) == first && (#[trigger] apps[j]) == second
}

/// Filtering keeps the order: an application that stands before another in
/// the result stood before it in the list.
pub proof fn filter_keeps_order(apps: Seq<SystemAppView>)
    ensures
        forall|a: int, b: int|
            0 <= a < b < apps.filter(is_target()).len() ==> stands_before(
                apps,
                #[trigger] apps.filter(is_target())[a],
                #[trigger] apps.filter(is_target())[b],
            ),
    decreases apps.len(),
{
    reveal(Seq::filter);
    if apps.len() > 0 {
        let front = apps.drop_last();
        filter_keeps_order(front);
        let kept = apps.filter(is_target());
        let earlier = front.filter(is_target());
        assert forall|a: int, b: int| 0 <= a < b < kept.len() implies stands_before(
            apps,
            #[trigger] kept[a],
            #[trigger] kept[b],
        ) by {
            if b < earlier.len() {
                assert(kept[a] == earlier[a] && kept[b] == earlier[b]);
                assert(stands_before(front, earlier[a], earlier[b]));
                let (i, j) = choose|i: int, j: int|
                    0 <= i < j < front.len() && (#[trigger] front[i]) == earlier[a] && (
                    #[trigger] front[j]) == earlier[b];
                assert(apps[i] == front[i] && apps[j] == front[j]);
            } else {
                assert(kept[a] == earlier[a]);
                assert(earlier.contains(earlier[a]));
                front.lemma_filter_contains_rev(is_target(), earlier[a]);
                let i = choose|i: int| 0 <= i < front.len() && front[i] == earlier[a];
                assert(apps[i] == front[i]);
                assert(apps[apps.len() - 1] == kept[b]);
            }
        }
    }
}

/// The input source that stands in for a missing one: the first of the
/// catalog, or the empty text when the catalog is empty.
pub open spec fn fallback_id(catalog: Seq<InputSourceView>) -> Seq<char> {
    if catalog.len() > 0 {
        catalog[0].id
    } else {
        Seq::empty()
    }
}

/// A rule after normalization: with a catalog that lacks its preferred
/// input, the rule prefers the first input source of the catalog.
pub open spec fn normalize_rule(rule: AppRuleView, catalog: Seq<InputSourceView>) -> AppRuleView {
    if catalog.len() == 0 || has_id(catalog, rule.preferred_input) {
        rule
    } else {
        AppRuleView { preferred_input: catalog[0].id, ..rule }
    }
}

/// A rule list after normalization of each rule.
pub open spec fn normalized(rules: Seq<AppRuleView>, catalog: Seq<InputSourceView>) -> Seq<
    AppRuleView,
> {
    Seq::new(rules.len(), |i: int| normalize_rule(rules[i], catalog))
}

/// Rewrites every rule whose preferred input the catalog lacks to the first
/// input source of the catalog. With an empty catalog nothing changes.
pub fn normalize_rule_inputs(rules: Vec<AppRule>, input_sources: &[InputSource]) -> (out: Vec<
    AppRule,
>)
    ensures
        rule_views(out@) == normalized(rule_views(rules@), source_views(input_sources@)),
{
    let ghost catalog = source_views(input_sources@);
    let ghost before = rule_views(rules@);
    if input_sources.len() == 0 {
        proof {
            assert(before =~= normalized(before, catalog));
        }
        return rules;
    }
    let mut out: Vec<AppRule> = Vec::new();
    let mut i: usize = 0;
    while i < rules.len()
        invariant
            i <= rules.len(),
            input_sources.len() > 0,
            catalog == source_views(input_sources@),
            before == rule_views(rules@),
            out@.len() == i,
            forall|j: int| 0 <= j < i ==> (#[trigger] out[j])@ == normalize_rule(before[j], catalog),
        decreases rules.len() - i,
    {
        let rule = &rules[i];
        let preferred_input = if catalog_has_id(input_sources, rule.preferred_input.as_str()) {
            rule.preferred_input.clone()
        } else {
            input_sources[0].id.clone()
        };
        proof {
            assert(catalog[0] == input_sources[0]@);
            assert(before[i as int] == rule@);
        }
        out.push(
            AppRule {
                bundle_id: rule.bundle_id.clone(),
                app_name: rule.app_name.clone(),
                preferred_input,
                is_ai_generated: rule.is_ai_generated,
            },
        );
        i += 1;
    }
    proof {
        assert(rule_views(out@) =~= normalized(before, catalog));
    }
    out
}

/// After normalization against a catalog that is not empty, every rule
/// prefers an input source of the catalog: its own where the catalog has it,
/// else the first of the catalog. Against an empty catalog the rules stay as
/// they are. Nothing but the preferred input ever changes.
pub proof fn normalized_rules_prefer_known_inputs(
    rules: Seq<AppRuleView>,
    catalog: Seq<InputSourceView>,
)
    ensures
        normalized(rules, catalog).len() == rules.len(),
        catalog.len() == 0 ==> normalized(rules, catalog) == rules,
        forall|i: int|
            0 <= i < rules.len() && catalog.len() > 0 ==> {
                let after = #[trigger] normalized(rules, catalog)[i];
                &&& has_id(catalog, after.preferred_input)
                &&& after.preferred_input == (if has_id(catalog, rules[i].preferred_input) {
                    rules[i].preferred_input
                } else {
                    catalog[0].id
                })
                &&& after.bundle_id == rules[i].bundle_id
                &&& after.app_name == rules[i].app_name
                &&& after.is_ai_generated == rules[i].is_ai_generated
            },
{
    if catalog.len() == 0 {
        assert(normalized(rules, catalog) =~= rules);
    } else {
        assert(has_id(catalog, catalog[0].id));
    }
}

/// Normalizing rules that are normalized already changes nothing.
pub proof fn normalizing_again_changes_nothing(
    rules: Seq<AppRuleView>,
    catalog: Seq<InputSourceView>,
)
    ensures
        normalized(normalized(rules, catalog), catalog) == normalized(rules, catalog),
{
    if catalog.len() > 0 {
        assert(has_id(catalog, catalog[0].id));
    }
    assert(normalized(normalized(rules, catalog), catalog) =~= normalized(rules, catalog));
}

/// The last rule of a list for a bundle; with `manual_only`, the last that
/// was edited by hand.
pub open spec fn last_rule_for(rules: Seq<AppRuleView>, bundle_id: Seq<char>, manual_only: bool) -> Option<
    AppRuleView,
>
    decreases rules.len(),
{
    if rules.len() == 0 {
        None
    } else if rules.last().bundle_id == bundle_id && (!manual_only
        || !rules.last().is_ai_generated) {
        Some(rules.last())
    } else {
        last_rule_for(rules.drop_last(), bundle_id, manual_only)
    }
}

/// The rule chosen for an application, before its names are repaired: a
/// stored rule edited by hand, else a rule predicted in this round, else any
/// stored rule, else a new rule for the fallback input.
pub open spec fn chosen_rule(
    app: SystemAppView,
    generated: Seq<AppRuleView>,
    existing: Seq<AppRuleView>,
    catalog: Seq<InputSourceView>,
) -> AppRuleView {
    if last_rule_for(existing, app.bundle_id, true) is Some {
        last_rule_for(existing, app.bundle_id, true)->0
    } else if last_rule_for(generated, app.bundle_id, false) is Some {
        last_rule_for(generated, app.bundle_id, false)->0
    } else if last_rule_for(existing, app.bundle_id, false) is Some {
        last_rule_for(existing, app.bundle_id, false)->0
    } else {
        AppRuleView {
            bundle_id: app.bundle_id,
            app_name: app.name,
            preferred_input: fallback_id(catalog),
            is_ai_generated: true,
        }
    }
}

/// The rule of an application after reconciling: the chosen rule under the
/// application's current names, normalized against the catalog.
pub open spec fn aligned_rule(
    app: SystemAppView,
    generated: Seq<AppRuleView>,
    existing: Seq<AppRuleView>,
    catalog: Seq<InputSourceView>,
) -> AppRuleView {
    normalize_rule(
        AppRuleView {
            bundle_id: app.bundle_id,
            app_name: app.name,
            ..chosen_rule(app, generated, existing, catalog)
        },
        catalog,
    )
}

/// The reconciled rule list: one rule per application, in their order.
pub open spec fn aligned(
    apps: Seq<SystemAppView>,
    generated: Seq<AppRuleView>,
    existing: Seq<AppRuleView>,
    catalog: Seq<InputSourceView>,
) -> Seq<AppRuleView> {
    Seq::new(apps.len(), |i: int| aligned_rule(apps[i], generated, existing, catalog))
}

/// The position of the last rule of a list for a bundle.
fn find_last_rule(rules: &[AppRule], bundle_id: &str, manual_only: bool) -> (found: Option<usize>)
    ensures
        match found {
            Some(i) => i < rules.len() && last_rule_for(rule_views(rules@), bundle_id@, manual_only)
                == Some(rules[i as int]@),
            None => last_rule_for(rule_views(rules@), bundle_id@, manual_only) is None,
        },
{
    let ghost views = rule_views(rules@);
    let mut i: usize = rules.len();
    proof {
        assert(views.take(i as int) =~= views);
    }
    while i > 0
        invariant
            i <= rules.len(),
            views == rule_views(rules@),
            last_rule_for(views, bundle_id@, manual_only) == last_rule_for(
                views.take(i as int),
                bundle_id@,
                manual_only,
            ),
        decreases i,
    {
        proof {
            assert(views.take(i as int).drop_last() =~= views.take(i - 1));
            assert(views.take(i as int).last() == rules[i - 1]@);
        }
        i -= 1;
        if text_eq(rules[i].bundle_id.as_str(), bundle_id) && (!manual_only
            || !rules[i].is_ai_generated) {
            return Some(i);
        }
    }
    None
}

/// Reconciles the rules with the installed applications: exactly one rule
/// per application, in the applications' order. Rules for applications that
/// are not in the list are dropped.
pub fn align_rules_with_apps(
    target_apps: &[SystemApp],
    generated_rules: Vec<AppRule>,
    existing_rules: &[AppRule],
    input_sources: &[InputSource],
) -> (rules: Vec<AppRule>)
    ensures
        rule_views(rules@) == aligned(
            app_views(target_apps@),
            rule_views(generated_rules@),
            rule_views(existing_rules@),
            source_views(input_sources@),
        ),
{
    let ghost apps = app_views(target_apps@);
    let ghost generated = rule_views(generated_rules@);
    let ghost existing = rule_views(existing_rules@);
    let ghost catalog = source_views(input_sources@);
    let fallback_input = if input_sources.len() > 0 {
        input_sources[0].id.clone()
    } else {
        String::new()
    };
    proof {
        if input_sources.len() > 0 {
            assert(catalog[0] == input_sources[0]@);
        }
        assert(fallback_input@ == fallback_id(catalog));
    }
    let mut selected_rules: Vec<AppRule> = Vec::new();
    let mut i: usize = 0;
    while i < target_apps.len()
        invariant
            i <= target_apps.len(),
            apps == app_views(target_apps@),
            generated == rule_views(generated_rules@),
            existing == rule_views(existing_rules@),
            catalog == source_views(input_sources@),
            fallback_input@ == fallback_id(catalog),
            selected_rules@.len() == i,
            forall|j: int|
                0 <= j < i ==> (#[trigger] selected_rules[j])@ == (AppRuleView {
                    bundle_id: apps[j].bundle_id,
                    app_name: apps[j].name,
                    ..chosen_rule(apps[j], generated, existing, catalog)
                }),
        decreases target_apps.len() - i,
    {
        let app = &target_apps[i];
        proof {
            assert(apps[i as int] == app@);
        }
        let bundle_id = app.bundle_id.as_str();
        let (preferred_input, is_ai_generated) = match find_last_rule(
            existing_rules,
            bundle_id,
            true,
        ) {
            Some(k) => (existing_rules[k].preferred_input.clone(), existing_rules[k].is_ai_generated),
            None => match find_last_rule(generated_rules.as_slice(), bundle_id, false) {
                Some(k) => (
                    generated_rules[k].preferred_input.clone(),
                    generated_rules[k].is_ai_generated,
                ),
                None => match find_last_rule(existing_rules, bundle_id, false) {
                    Some(k) => (
                        existing_rules[k].preferred_input.clone(),
                        existing_rules[k].is_ai_generated,
                    ),
                    None => (fallback_input.clone(), true),
                },
            },
        };
        selected_rules.push(
            AppRule {
                bundle_id: app.bundle_id.clone(),
                app_name: app.name.clone(),
                preferred_input,
                is_ai_generated,
            },
        );
        i += 1;
    }
    let rules = normalize_rule_inputs(selected_rules, input_sources);
    proof {
        assert(rule_views(rules@) =~= aligned(apps, generated, existing, catalog));
    }
    rules
}

/// Reconciling gives one rule per application, in the applications' order
/// and under their current names, and no rule for any other bundle. Unless
/// the catalog is empty, every rule prefers an input source of the catalog.
pub proof fn aligned_rules_cover_the_apps(
    apps: Seq<SystemAppView>,
    generated: Seq<AppRuleView>,
    existing: Seq<AppRuleView>,
    catalog: Seq<InputSourceView>,
)
    ensures
        aligned(apps, generated, existing, catalog).len() == apps.len(),
        forall|i: int|
            0 <= i < apps.len() ==> {
                let rule = #[trigger] aligned(apps, generated, existing, catalog)[i];
                &&& rule.bundle_id == apps[i].bundle_id
                &&& rule.app_name == apps[i].name
                &&& (catalog.len() > 0 ==> has_id(catalog, rule.preferred_input))
            },
{
    if catalog.len() > 0 {
        assert(has_id(catalog, catalog[0].id));
    }
}

/// The precedence among the sources of a rule. A stored rule edited by hand
/// decides the input and stays marked as edited by hand; without one, a rule
/// predicted in this round decides; without that too, any stored rule
/// decides; an application with no rule at all gets the fallback input and
/// is marked as predicted. The decided input is then normalized.
pub proof fn aligned_rules_follow_precedence(
    app: SystemAppView,
    generated: Seq<AppRuleView>,
    existing: Seq<AppRuleView>,
    catalog: Seq<InputSourceView>,
)
    ensures
        ({
            let rule = aligned_rule(app, generated, existing, catalog);
            let manual = last_rule_for(existing, app.bundle_id, true);
            let fresh = last_rule_for(generated, app.bundle_id, false);
            let stored = last_rule_for(existing, app.bundle_id, false);
            let decided = if manual is Some {
                manual->0
            } else if fresh is Some {
                fresh->0
            } else if stored is Some {
                stored->0
            } else {
                AppRuleView {
                    bundle_id: app.bundle_id,
                    app_name: app.name,
                    preferred_input: fallback_id(catalog),
                    is_ai_generated: true,
                }
            };
            &&& rule.is_ai_generated == decided.is_ai_generated
            &&& (manual is Some ==> !rule.is_ai_generated)
            &&& rule.preferred_input == (if catalog.len() == 0 || has_id(
                catalog,
                decided.preferred_input,
            ) {
                decided.preferred_input
            } else {
                catalog[0].id
            })
        }),
{
    lemma_last_rule_matches(existing, app.bundle_id, true);
}

/// A rule found for a bundle is a rule of the list for that bundle, and one
/// edited by hand where only those were asked for.
pub proof fn lemma_last_rule_matches(rules: Seq<AppRuleView>, bundle_id: Seq<char>, manual_only: bool)
    ensures
        last_rule_for(rules, bundle_id, manual_only) is Some ==> {
            let rule = last_rule_for(rules, bundle_id, manual_only)->0;
            &&& rules.contains(rule)
            &&& rule.bundle_id == bundle_id
            &&& (manual_only ==> !rule.is_ai_generated)
        },
        last_rule_for(rules, bundle_id, manual_only) is None ==> forall|i: int|
            0 <= i < rules.len() ==> !((#[trigger] rules[i]).bundle_id == bundle_id && (!manual_only
                || !rules[i].is_ai_generated)),
    decreases rules.len(),
{
    if rules.len() > 0 {
        lemma_last_rule_matches(rules.drop_last(), bundle_id, manual_only);
        if rules.last().bundle_id == bundle_id && (!manual_only || !rules.last().is_ai_generated) {
            assert(rules[rules.len() - 1] == rules.last());
        } else {
            let front = rules.drop_last();
            if last_rule_for(front, bundle_id, manual_only) is Some {
                let rule = last_rule_for(front, bundle_id, manual_only)->0;
                let k = choose|k: int| 0 <= k < front.len() && front[k] == rule;
                assert(rules[k] == rule);
            } else {
                assert forall|i: int| 0 <= i < rules.len() implies !((#[trigger] rules[i]).bundle_id
                    == bundle_id && (!manual_only || !rules[i].is_ai_generated)) by {
                    if i < front.len() {
                        assert(front[i] == rules[i]);
                    }
                }
            }
        }
    }
}

/// Whether a round of predictions can start. It cannot without candidate
/// input sources, nor with an incomplete configuration of the service.
pub fn check_prediction_ready(input_sources: &[InputSource], config: &LLMConfig) -> (ready: Result<
    (),
    AppError,
>)
    ensures
        ready is Ok <==> input_sources@.len() > 0 && config@.is_complete(),
        input_sources@.len() == 0 ==> (ready matches Err(AppError::InputSource(m)) && m@
            == "No available input sources"@),
        input_sources@.len() > 0 && !config@.is_complete() ==> (ready matches Err(
            AppError::Llm(m),
        ) && m@ == "LLM configuration is incomplete"@),
{
    if input_sources.len() == 0 {
        return Err(AppError::InputSource("No available input sources".to_owned()));
    }
    if !config.is_complete() {
        return Err(AppError::Llm("LLM configuration is incomplete".to_owned()));
    }
    Ok(())
}

/// The rule that a prediction for an application gives.
pub open spec fn predicted_rule(app: SystemAppView, preferred_input: Seq<char>) -> AppRuleView {
    AppRuleView {
        bundle_id: app.bundle_id,
        app_name: app.name,
        preferred_input,
        is_ai_generated: true,
    }
}

/// Takes the prediction for one application into the rules of the round. A
/// prediction that failed is passed over: it never ends the round.
pub fn record_prediction(
    rules: &mut Vec<AppRule>,
    app: &SystemApp,
    prediction: Result<String, AppError>,
)
    ensures
        rule_views(final(rules)@) == (match prediction {
            Ok(preferred_input) => rule_views(old(rules)@).push(
                predicted_rule(app@, preferred_input@),
            ),
            Err(_) => rule_views(old(rules)@),
        }),
{
    let ghost before = rule_views(rules@);
    match prediction {
        Ok(preferred_input) => {
            rules.push(
                AppRule {
                    bundle_id: app.bundle_id.clone(),
                    app_name: app.name.clone(),
                    preferred_input,
                    is_ai_generated: true,
                },
            );
            proof {
                assert(rule_views(rules@) =~= before.push(predicted_rule(app@, preferred_input@)));
            }
        },
        Err(_) => {},
    }
}

/// Whether a rescan is running. At most one runs at a time.
pub struct RescanState {
    running: bool,
}

impl RescanState {
    /// Whether a rescan is running.
    pub closed spec fn is_running(&self) -> bool {
        self.running
    }

    /// No rescan is running.
    pub fn new() -> (state: Self)
        ensures
            !state.is_running(),
    {
        RescanState { running: false }
    }

    /// Whether a rescan is running.
    pub fn is_rescanning(&self) -> (running: bool)
        ensures
            running == self.is_running(),
    {
        self.running
    }

    /// Starts a rescan unless one is running: a second request fails at once
    /// and leaves the first one running.
    pub fn try_begin(&mut self) -> (started: Result<(), AppError>)
        ensures
            final(self).is_running(),
            started is Ok <==> !old(self).is_running(),
            started matches Err(e) ==> e matches AppError::Config(m) && m@
                == "Rescan is already in progress"@,
    {
        if self.running {
            return Err(AppError::Config("Rescan is already in progress".to_owned()));
        }
        self.running = true;
        Ok(())
    }

    /// Ends the rescan, however it went.
    pub fn finish(&mut self)
        ensures
            !final(self).is_running(),
    {
        self.running = false;
    }
}

/// Reconciling is stable: when the reconciled rules are stored and the same
/// round is reconciled again over them, the same rules come out.
pub proof fn aligning_again_changes_nothing(
    apps: Seq<SystemAppView>,
    generated: Seq<AppRuleView>,
    existing: Seq<AppRuleView>,
    catalog: Seq<InputSourceView>,
)
    ensures
        aligned(apps, generated, aligned(apps, generated, existing, catalog), catalog) == aligned(
            apps,
            generated,
            existing,
            catalog,
        ),
{
    let once = aligned(apps, generated, existing, catalog);
    let twice = aligned(apps, generated, once, catalog);
    if catalog.len() > 0 {
        assert(has_id(catalog, catalog[0].id));
    }
    assert forall|i: int| 0 <= i < apps.len() implies twice[i] == once[i] by {
        let bundle_id = apps[i].bundle_id;
        let rule = once[i];
        lemma_last_rule_matches(existing, bundle_id, true);
        lemma_last_rule_matches(once, bundle_id, true);
        lemma_last_rule_matches(once, bundle_id, false);
        assert(rule.bundle_id == bundle_id);
        if last_rule_for(once, bundle_id, true) is Some {
            let found = last_rule_for(once, bundle_id, true)->0;
            let j = choose|j: int| 0 <= j < once.len() && once[j] == found;
            assert(apps[j].bundle_id == bundle_id);
            assert(found.preferred_input == rule.preferred_input);
            assert(found.is_ai_generated == rule.is_ai_generated);
        } else {
            assert(rule.is_ai_generated);
            if last_rule_for(generated, bundle_id, false) is None {
                assert(last_rule_for(once, bundle_id, false) is Some);
                let found = last_rule_for(once, bundle_id, false)->0;
                let j = choose|j: int| 0 <= j < once.len() && once[j] == found;
                assert(apps[j].bundle_id == bundle_id);
                assert(found.preferred_input == rule.preferred_input);
                assert(found.is_ai_generated == rule.is_ai_generated);
            }
        }
    }
    assert(twice =~= once);
}

/// Reconciling depends on nothing but the values of its four inputs: equal
/// inputs give equal rule lists, however often it is done.
pub proof fn aligning_is_repeatable(
    apps: Seq<SystemApp>,
    generated: Seq<AppRule>,
    existing: Seq<AppRule>,
    catalog: Seq<InputSource>,
    apps_again: Seq<SystemApp>,
    generated_again: Seq<AppRule>,
    existing_again: Seq<AppRule>,
    catalog_again: Seq<InputSource>,
    first: Seq<AppRule>,
    second: Seq<AppRule>,
)
    requires
        app_views(apps) == app_views(apps_again),
        rule_views(generated) == rule_views(generated_again),
        rule_views(existing) == rule_views(existing_again),
        source_views(catalog) == source_views(catalog_again),
        rule_views(first) == aligned(
            app_views(apps),
            rule_views(generated),
            rule_views(existing),
            source_views(catalog),
        ),
        rule_views(second) == aligned(
            app_views(apps_again),
            rule_views(generated_again),
            rule_views(existing_again),
            source_views(catalog_again),
        ),
    ensures
        rule_views(first) == rule_views(second),
        first.len() == second.len(),
        forall|i: int|
            0 <= i < first.len() ==> {
                &&& (#[trigger] first[i]).bundle_id@ == second[i].bundle_id@
                &&& first[i].app_name@ == second[i].app_name@
                &&& first[i].preferred_input@ == second[i].preferred_input@
                &&& first[i].is_ai_generated == second[i].is_ai_generated
            },
{
    assert(first.len() == rule_views(first).len());
    assert(second.len() == rule_views(second).len());
    assert forall|i: int| 0 <= i < first.len() implies {
        &&& (#[trigger] first[i]).bundle_id@ == second[i].bundle_id@
        &&& first[i].app_name@ == second[i].app_name@
        &&& first[i].preferred_input@ == second[i].preferred_input@
        &&& first[i].is_ai_generated == second[i].is_ai_generated
    } by {
        assert(rule_views(first)[i] == first[i]@);
        assert(rule_views(second)[i] == second[i]@);
    }
}

} // verus!
