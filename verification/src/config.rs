//! Threshold configuration for the rule set, loaded once at run start.
//! An invalid threshold fails the whole run before any unit is processed:
//! a bad configuration would silently invalidate every subsequent finding.
//! Unrecognized rule ids are ignored with a warning, not a failure.

use vstd::prelude::*;
use crate::finding::{known_rule, is_known_rule, Severity};

verus! {

/// A per-rule override: disable the rule or replace its default severity.
#[derive(Clone, Copy, PartialEq, Eq, Debug)]
pub struct RuleOverride {
    pub rule_id: u32,
    pub enabled: bool,
    pub severity_override: Option<Severity>,
}

/// Detector thresholds and per-rule overrides.
#[derive(Clone, PartialEq, Eq, Debug)]
pub struct AnalysisConfig {
    /// A struct is a god-entity candidate above this field count.
    pub god_fields: u32,
    /// ... and above this method count,
    pub god_methods: u32,
    /// ... with at least this many distinct domain-noun clusters.
    pub god_clusters: u32,
    /// Minimum length of a strictly sequential call chain.
    pub layer_min_calls: u32,
    /// Minimum number of single-method traits sharing one semantic root.
    pub verb_trait_min: u32,
    /// A trait is a fat interface from this method count on,
    pub fat_methods: u32,
    /// ... when its methods span at least this many verb groups.
    pub fat_verb_groups: u32,
    /// From this many independent lifetime parameters on, a signature is
    /// over-parameterized.
    pub lifetime_many: u32,
    /// From this many bounds on one generic parameter on, it can be
    /// over-constrained.
    pub bounds_many: u32,
    /// Units with at most this many declarations run every detector.
    pub small_unit: u32,
    pub overrides: Vec<RuleOverride>,
}

/// An invalid configuration value, or an override naming no known rule.
#[derive(Clone, Copy, PartialEq, Eq, Debug)]
pub enum ConfigError {
    /// A threshold is zero; every rule needs a positive threshold.
    /// Fatal: the run must not start.
    ZeroThreshold { which: u32 },
    /// An override names a rule id outside the rule set. Recoverable:
    /// the override is ignored with a warning.
    UnknownRuleId { rule_id: u32 },
}

impl ConfigError {
    /// Spec mirror of `is_recoverable`.
    pub open spec fn is_recoverable_spec(self) -> bool {
        self matches ConfigError::UnknownRuleId { .. }
    }

    /// Whether the run can go on (the faulty entry is ignored) or must
    /// fail at startup.
    pub fn is_recoverable(&self) -> (r: bool)
        ensures
            r == self.is_recoverable_spec(),
    {
        match self {
            ConfigError::UnknownRuleId { .. } => true,
            ConfigError::ZeroThreshold { .. } => false,
        }
    }
}

impl AnalysisConfig {
    /// Every threshold the rules divide ranges by is positive.
    pub open spec fn thresholds_wf(self) -> bool {
        &&& self.god_fields >= 1
        &&& self.god_methods >= 1
        &&& self.god_clusters >= 1
        &&& self.layer_min_calls >= 1
        &&& self.verb_trait_min >= 1
        &&& self.fat_methods >= 1
        &&& self.fat_verb_groups >= 1
        &&& self.lifetime_many >= 1
        &&& self.bounds_many >= 1
    }

    /// Whether the rule with this id is enabled: disabled only by an
    /// explicit override entry.
    pub open spec fn rule_enabled(self, rule_id: u32) -> bool {
        forall|i: int|
            0 <= i < self.overrides@.len() && (#[trigger] self.overrides@[i]).rule_id == rule_id
                ==> self.overrides@[i].enabled
    }

    /// The severity a finding of this rule is reported with, given its
    /// detector-assigned default: the last matching override wins.
    pub open spec fn effective_severity_upto(self, rule_id: u32, dflt: Severity, upto: int) -> Severity
        decreases upto,
    {
        if upto <= 0 {
            dflt
        } else {
            let prev = self.effective_severity_upto(rule_id, dflt, upto - 1);
            let ov = self.overrides@[upto - 1];
            if ov.rule_id == rule_id {
                match ov.severity_override {
                    Option::Some(s) => s,
                    Option::None => prev,
                }
            } else {
                prev
            }
        }
    }

    pub open spec fn effective_severity(self, rule_id: u32, dflt: Severity) -> Severity {
        self.effective_severity_upto(rule_id, dflt, self.overrides@.len() as int)
    }

    /// The defaults named in the rule descriptions.
    pub fn new() -> (c: AnalysisConfig)
        ensures
            c.thresholds_wf(),
            c.overrides@.len() == 0,
            c.god_fields == 7,
            c.god_methods == 15,
            c.god_clusters == 5,
            c.layer_min_calls == 5,
            c.verb_trait_min == 3,
            c.fat_methods == 8,
            c.fat_verb_groups == 3,
            c.lifetime_many == 3,
            c.bounds_many == 4,
            c.small_unit == 10,
    {
        AnalysisConfig {
            god_fields: 7,
            god_methods: 15,
            god_clusters: 5,
            layer_min_calls: 5,
            verb_trait_min: 3,
            fat_methods: 8,
            fat_verb_groups: 3,
            lifetime_many: 3,
            bounds_many: 4,
            small_unit: 10,
            overrides: Vec::new(),
        }
    }

    /// Validate the configuration at run start. Fails loud, with the
    /// fatal error, when a threshold is zero; otherwise returns the
    /// recoverable warnings: one for each override naming no known rule,
    /// in override order.
    pub fn validate(&self) -> (r: Result<Vec<ConfigError>, ConfigError>)
        ensures
            r is Ok <==> self.thresholds_wf(),
            r matches Err(e) ==> !e.is_recoverable_spec(),
            r matches Ok(warnings) ==> warnings@ == unknown_rule_warnings(
                self.overrides@,
                self.overrides@.len() as int,
            ),
            r matches Ok(warnings) ==> forall|i: int|
                0 <= i < warnings@.len() ==> (#[trigger] warnings@[i]).is_recoverable_spec(),
    {
        if self.god_fields == 0 {
            return Err(ConfigError::ZeroThreshold { which: 0 });
        }
        if self.god_methods == 0 {
            return Err(ConfigError::ZeroThreshold { which: 1 });
        }
        if self.god_clusters == 0 {
            return Err(ConfigError::ZeroThreshold { which: 2 });
        }
        if self.layer_min_calls == 0 {
            return Err(ConfigError::ZeroThreshold { which: 3 });
        }
        if self.verb_trait_min == 0 {
            return Err(ConfigError::ZeroThreshold { which: 4 });
        }
        if self.fat_methods == 0 {
            return Err(ConfigError::ZeroThreshold { which: 5 });
        }
        if self.fat_verb_groups == 0 {
            return Err(ConfigError::ZeroThreshold { which: 6 });
        }
        if self.lifetime_many == 0 {
            return Err(ConfigError::ZeroThreshold { which: 7 });
        }
        if self.bounds_many == 0 {
            return Err(ConfigError::ZeroThreshold { which: 8 });
        }
        let n = self.overrides.len();
        let mut warnings: Vec<ConfigError> = Vec::new();
        let mut i: usize = 0;
        while i < n
            invariant
                i <= n,
                warnings@ == unknown_rule_warnings(self.overrides@, i as int),
                forall|k: int|
                    0 <= k < warnings@.len() ==> (#[trigger] warnings@[k])
                        matches ConfigError::UnknownRuleId { .. },
            decreases n - i,
        {
            let rid = self.overrides[i].rule_id;
            if !is_known_rule(rid) {
                warnings.push(ConfigError::UnknownRuleId { rule_id: rid });
            }
            proof {
                assert(warnings@ =~= unknown_rule_warnings(self.overrides@, i + 1));
            }
            i = i + 1;
        }
        Ok(warnings)
    }
}

/// The recoverable warnings for the first `upto` overrides: one for each
/// entry naming a rule id outside the rule set, in override order.
pub open spec fn unknown_rule_warnings(ovs: Seq<RuleOverride>, upto: int) -> Seq<ConfigError>
    decreases upto,
{
    if upto <= 0 {
        seq![]
    } else {
        unknown_rule_warnings(ovs, upto - 1) + if !known_rule(ovs[upto - 1].rule_id) {
            seq![ConfigError::UnknownRuleId { rule_id: ovs[upto - 1].rule_id }]
        } else {
            seq![]
        }
    }
}

} // verus!
