//! The persisted configuration and the manager that answers rule lookups.

use vstd::prelude::*;
use crate::text::text_eq;

verus! {

/// A rule: while the application `bundle_id` is in front, use the input
/// source `preferred_input`.
#[derive(Debug)]
pub struct AppRule {
    pub bundle_id: String,
    pub app_name: String,
    pub preferred_input: String,
    pub is_ai_generated: bool,
}

/// The mathematical value of an [`AppRule`].
pub struct AppRuleView {
    pub bundle_id: Seq<char>,
    pub app_name: Seq<char>,
    pub preferred_input: Seq<char>,
    pub is_ai_generated: bool,
}

impl View for AppRule {
    type V = AppRuleView;

    open spec fn view(&self) -> AppRuleView {
        AppRuleView {
            bundle_id: self.bundle_id@,
            app_name: self.app_name@,
            preferred_input: self.preferred_input@,
            is_ai_generated: self.is_ai_generated,
        }
    }
}

impl Clone for AppRule {
    fn clone(&self) -> (copy: Self)
        ensures
            copy@ == self@,
    {
        AppRule {
            bundle_id: self.bundle_id.clone(),
            app_name: self.app_name.clone(),
            preferred_input: self.preferred_input.clone(),
            is_ai_generated: self.is_ai_generated,
        }
    }
}

/// The values of a list of rules, in order.
pub open spec fn rule_views(list: Seq<AppRule>) -> Seq<AppRuleView> {
    list.map_values(|r: AppRule| r@)
}

/// A copy of a list of rules with the same values.
pub fn copy_rules(rules: &Vec<AppRule>) -> (copy: Vec<AppRule>)
    ensures
        rule_views(copy@) == rule_views(rules@),
{
    let mut copy: Vec<AppRule> = Vec::new();
    let mut i: usize = 0;
    while i < rules.len()
        invariant
            i <= rules.len(),
            rule_views(copy@) == rule_views(rules@).take(i as int),
        decreases rules.len() - i,
    {
        let ghost before = rule_views(copy@);
        copy.push(rules[i].clone());
        proof {
            assert(rule_views(copy@) =~= before.push(rules[i as int]@));
            assert(rule_views(rules@).take(i + 1) =~= before.push(rules[i as int]@));
        }
        i += 1;
    }
    proof {
        assert(rule_views(rules@).take(rules.len() as int) =~= rule_views(rules@));
    }
    copy
}

/// Settings of the shell around the engine.
#[derive(Clone, Copy, Debug, PartialEq, Eq, Structural)]
pub struct GeneralSettings {
    pub auto_start: bool,
    pub hide_dock_icon: bool,
}

impl Default for GeneralSettings {
    fn default() -> (settings: Self)
        ensures
            settings.auto_start,
            !settings.hide_dock_icon,
    {
        GeneralSettings { auto_start: true, hide_dock_icon: false }
    }
}

/// The whole configuration document.
#[derive(Debug)]
pub struct AppConfig {
    pub version: u32,
    pub global_switch: bool,
    pub default_input: String,
    pub general: GeneralSettings,
    pub rules: Vec<AppRule>,
}

/// The mathematical value of an [`AppConfig`].
pub struct AppConfigView {
    pub version: u32,
    pub global_switch: bool,
    pub default_input: Seq<char>,
    pub general: GeneralSettings,
    pub rules: Seq<AppRuleView>,
}

impl View for AppConfig {
    type V = AppConfigView;

    open spec fn view(&self) -> AppConfigView {
        AppConfigView {
            version: self.version,
            global_switch: self.global_switch,
            default_input: self.default_input@,
            general: self.general,
            rules: rule_views(self.rules@),
        }
    }
}

impl Clone for AppConfig {
    fn clone(&self) -> (copy: Self)
        ensures
            copy@ == self@,
    {
        AppConfig {
            version: self.version,
            global_switch: self.global_switch,
            default_input: self.default_input.clone(),
            general: self.general,
            rules: copy_rules(&self.rules),
        }
    }
}

impl Default for AppConfig {
    fn default() -> (config: Self)
        ensures
            config@ == (AppConfigView {
                version: 1,
                global_switch: true,
                default_input: "keep"@,
                general: GeneralSettings { auto_start: true, hide_dock_icon: false },
                rules: Seq::empty(),
            }),
    {
        let config = AppConfig {
            version: 1,
            global_switch: true,
            default_input: "keep".to_owned(),
            general: GeneralSettings::default(),
            rules: Vec::new(),
        };
        proof {
            assert(rule_views(config.rules@) =~= Seq::empty());
        }
        config
    }
}

/// The input that a rule list prefers for a bundle: that of the last rule
/// for the bundle, if there is one.
pub open spec fn preferred_for(rules: Seq<AppRuleView>, bundle_id: Seq<char>) -> Option<Seq<char>>
    decreases rules.len(),
{
    if rules.len() == 0 {
        None
    } else if rules.last().bundle_id == bundle_id {
        Some(rules.last().preferred_input)
    } else {
        preferred_for(rules.drop_last(), bundle_id)
    }
}

/// The rule list after a rule was added: the rules for other bundles, in
/// their order, then the new rule.
pub open spec fn with_rule(rules: Seq<AppRuleView>, rule: AppRuleView) -> Seq<AppRuleView> {
    rules.filter(other_bundle(rule.bundle_id)).push(rule)
}

/// The test that a rule is for another bundle than the given one.
pub open spec fn other_bundle(bundle_id: Seq<char>) -> spec_fn(AppRuleView) -> bool {
    |r: AppRuleView| r.bundle_id != bundle_id
}

/// One entry of the lookup cache: a bundle id and its preferred input.
pub struct CacheEntry {
    pub bundle_id: String,
    pub preferred_input: String,
}

/// What a cache answers for a bundle: the input of its last entry for it.
pub open spec fn cache_answer(cache: Seq<CacheEntry>, bundle_id: Seq<char>) -> Option<Seq<char>>
    decreases cache.len(),
{
    if cache.len() == 0 {
        None
    } else if cache.last().bundle_id@ == bundle_id {
        Some(cache.last().preferred_input@)
    } else {
        cache_answer(cache.drop_last(), bundle_id)
    }
}

/// Holds the configuration and a cache of its rules for lookups by bundle.
pub struct ConfigManager {
    config: AppConfig,
    rule_map: Vec<CacheEntry>,
}

impl View for ConfigManager {
    type V = AppConfigView;

    closed spec fn view(&self) -> AppConfigView {
        self.config@
    }
}

impl ConfigManager {
    /// The cache answers for every bundle what the rule list prefers.
    #[verifier::type_invariant]
    closed spec fn cache_agrees(&self) -> bool {
        forall|bundle_id: Seq<char>|
            (#[trigger] cache_answer(self.rule_map@, bundle_id)) == preferred_for(
                rule_views(self.config.rules@),
                bundle_id,
            )
    }

    /// A manager for the given configuration.
    pub fn new(config: AppConfig) -> (manager: Self)
        ensures
            manager@ == config@,
    {
        let rule_map = Self::rebuild_cache(&config.rules);
        ConfigManager { config, rule_map }
    }

    /// The lookup cache of a rule list: one entry per rule, in order.
    fn rebuild_cache(rules: &Vec<AppRule>) -> (cache: Vec<CacheEntry>)
        ensures
            forall|bundle_id: Seq<char>|
                (#[trigger] cache_answer(cache@, bundle_id)) == preferred_for(
                    rule_views(rules@),
                    bundle_id,
                ),
    {
        let mut cache: Vec<CacheEntry> = Vec::new();
        let mut i: usize = 0;
        while i < rules.len()
            invariant
                i <= rules.len(),
                forall|bundle_id: Seq<char>|
                    (#[trigger] cache_answer(cache@, bundle_id)) == preferred_for(
                        rule_views(rules@).take(i as int),
                        bundle_id,
                    ),
            decreases rules.len() - i,
        {
            let ghost before = cache@;
            cache.push(
                CacheEntry {
                    bundle_id: rules[i].bundle_id.clone(),
                    preferred_input: rules[i].preferred_input.clone(),
                },
            );
            proof {
                assert(cache@.drop_last() =~= before);
                assert(rule_views(rules@).take(i + 1).drop_last() =~= rule_views(rules@).take(
                    i as int,
                ));
                assert(rule_views(rules@).take(i + 1).last() == rules[i as int]@);
                assert(cache@.last().bundle_id@ == rules[i as int]@.bundle_id);
                assert(cache@.last().preferred_input@ == rules[i as int]@.preferred_input);
                assert forall|bundle_id: Seq<char>|
                    (#[trigger] cache_answer(cache@, bundle_id)) == preferred_for(
                        rule_views(rules@).take(i + 1),
                        bundle_id,
                    ) by {
                    assert(cache_answer(before, bundle_id) == preferred_for(
                        rule_views(rules@).take(i as int),
                        bundle_id,
                    ));
                }
            }
            i += 1;
        }
        proof {
            assert(rule_views(rules@).take(rules.len() as int) =~= rule_views(rules@));
        }
        cache
    }

    /// A copy of the configuration.
    pub fn get_config(&self) -> (config: AppConfig)
        ensures
            config@ == self@,
    {
        self.config.clone()
    }

    /// Replaces the whole configuration.
    pub fn set_config(&mut self, config: AppConfig)
        ensures
            final(self)@ == config@,
    {
        let rule_map = Self::rebuild_cache(&config.rules);
        *self = ConfigManager { config, rule_map };
    }

    /// The input that the rules prefer for a bundle: none while switching is
    /// turned off, else that of the last rule for the bundle.
    pub fn get_rule(&self, bundle_id: &str) -> (input: Option<String>)
        ensures
            crate::text::opt_text(input) == (if self@.global_switch {
                preferred_for(self@.rules, bundle_id@)
            } else {
                None
            }),
    {
        proof {
            use_type_invariant(self);
            assert(cache_answer(self.rule_map@, bundle_id@) == preferred_for(
                rule_views(self.config.rules@),
                bundle_id@,
            ));
        }
        if !self.config.global_switch {
            return None;
        }
        let mut i: usize = self.rule_map.len();
        proof {
            assert(self.rule_map@.take(i as int) =~= self.rule_map@);
        }
        while i > 0
            invariant
                i <= self.rule_map.len(),
                self.config.global_switch,
                cache_answer(self.rule_map@, bundle_id@) == preferred_for(
                    rule_views(self.config.rules@),
                    bundle_id@,
                ),
                cache_answer(self.rule_map@, bundle_id@) == cache_answer(
                    self.rule_map@.take(i as int),
                    bundle_id@,
                ),
            decreases i,
        {
            proof {
                assert(self.rule_map@.take(i as int).drop_last() =~= self.rule_map@.take(i - 1));
                assert(self.rule_map@.take(i as int).last() == self.rule_map@[i - 1]);
            }
            i -= 1;
            if text_eq(self.rule_map[i].bundle_id.as_str(), bundle_id) {
                return Some(self.rule_map[i].preferred_input.clone());
            }
        }
        None
    }

    /// Puts a rule in place of every rule for the same bundle: the rules for
    /// other bundles keep their order and the new rule comes last.
    pub fn add_or_update_rule(&mut self, rule: AppRule)
        ensures
            final(self)@.rules == with_rule(old(self)@.rules, rule@),
            final(self)@.version == old(self)@.version,
            final(self)@.global_switch == old(self)@.global_switch,
            final(self)@.default_input == old(self)@.default_input,
            final(self)@.general == old(self)@.general,
    {
        let ghost old_rules = rule_views(self.config.rules@);
        let ghost keep = other_bundle(rule@.bundle_id);
        let mut rules: Vec<AppRule> = Vec::new();
        let mut i: usize = 0;
        proof {
            reveal(Seq::filter);
            assert(old_rules.take(0).filter(keep) =~= rule_views(rules@));
        }
        while i < self.config.rules.len()
            invariant
                i <= self.config.rules.len(),
                old_rules == rule_views(self.config.rules@),
                keep == other_bundle(rule@.bundle_id),
                rule_views(rules@) == old_rules.take(i as int).filter(keep),
            decreases self.config.rules.len() - i,
        {
            let ghost before = rule_views(rules@);
            proof {
                reveal(Seq::filter);
                assert(old_rules.take(i + 1).drop_last() =~= old_rules.take(i as int));
            }
            if !text_eq(self.config.rules[i].bundle_id.as_str(), rule.bundle_id.as_str()) {
                rules.push(self.config.rules[i].clone());
                proof {
                    assert(rule_views(rules@) =~= before.push(old_rules[i as int]));
                }
            }
            i += 1;
        }
        let ghost kept = rule_views(rules@);
        rules.push(rule);
        proof {
            assert(old_rules.take(self.config.rules.len() as int) =~= old_rules);
            assert(rule_views(rules@) =~= kept.push(rule@));
        }
        let config = AppConfig {
            version: self.config.version,
            global_switch: self.config.global_switch,
            default_input: self.config.default_input.clone(),
            general: self.config.general,
            rules,
        };
        let rule_map = Self::rebuild_cache(&config.rules);
        *self = ConfigManager { config, rule_map };
    }
}

} // verus!
