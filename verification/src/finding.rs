//! Findings: the reports a detector emits, and the merged form the
//! aggregator hands to the reporting collaborator.

use vstd::prelude::*;

verus! {

/// The six analysis domains.
#[derive(Clone, Copy, PartialEq, Eq, Structural, Debug)]
pub enum Domain {
    Architecture,
    Concurrency,
    Borrowing,
    ErrorHandling,
    Systems,
    TypeSystem,
}

/// How grave a finding is.
#[derive(Clone, Copy, PartialEq, Eq, Structural, Debug)]
pub enum Severity {
    Info,
    Warning,
    Critical,
}

/// How certain the detector is that the pattern is real.
#[derive(Clone, Copy, PartialEq, Eq, Structural, Debug)]
pub enum Confidence {
    Possible,
    Likely,
    Definite,
}

/// A stable numbering of the domains, used for ranking and bitmasks.
pub open spec fn domain_code(d: Domain) -> int {
    match d {
        Domain::Architecture => 0,
        Domain::Concurrency => 1,
        Domain::Borrowing => 2,
        Domain::ErrorHandling => 3,
        Domain::Systems => 4,
        Domain::TypeSystem => 5,
    }
}

/// One bit per domain, for the provenance mask of a merged finding.
pub open spec fn domain_bit(d: Domain) -> u32 {
    match d {
        Domain::Architecture => 1u32,
        Domain::Concurrency => 2u32,
        Domain::Borrowing => 4u32,
        Domain::ErrorHandling => 8u32,
        Domain::Systems => 16u32,
        Domain::TypeSystem => 32u32,
    }
}

pub fn domain_bit_of(d: Domain) -> (r: u32)
    ensures
        r == domain_bit(d),
{
    match d {
        Domain::Architecture => 1,
        Domain::Concurrency => 2,
        Domain::Borrowing => 4,
        Domain::ErrorHandling => 8,
        Domain::Systems => 16,
        Domain::TypeSystem => 32,
    }
}

/// Whether a provenance mask records the given domain.
pub fn mask_has_domain(mask: u32, d: Domain) -> (r: bool)
    ensures
        r == (mask & domain_bit(d) != 0),
{
    mask & domain_bit_of(d) != 0
}

pub open spec fn severity_rank(s: Severity) -> int {
    match s {
        Severity::Info => 0,
        Severity::Warning => 1,
        Severity::Critical => 2,
    }
}

pub open spec fn confidence_rank(c: Confidence) -> int {
    match c {
        Confidence::Possible => 0,
        Confidence::Likely => 1,
        Confidence::Definite => 2,
    }
}

/// The graver of two severities.
pub open spec fn severity_max(a: Severity, b: Severity) -> Severity {
    if severity_rank(a) >= severity_rank(b) {
        a
    } else {
        b
    }
}

pub fn severity_max_of(a: Severity, b: Severity) -> (r: Severity)
    ensures
        r == severity_max(a, b),
{
    let ra: u32 = match a {
        Severity::Info => 0,
        Severity::Warning => 1,
        Severity::Critical => 2,
    };
    let rb: u32 = match b {
        Severity::Info => 0,
        Severity::Warning => 1,
        Severity::Critical => 2,
    };
    if ra >= rb {
        a
    } else {
        b
    }
}

/// The stronger of two confidences.
pub open spec fn confidence_max(a: Confidence, b: Confidence) -> Confidence {
    if confidence_rank(a) >= confidence_rank(b) {
        a
    } else {
        b
    }
}

pub fn confidence_max_of(a: Confidence, b: Confidence) -> (r: Confidence)
    ensures
        r == confidence_max(a, b),
{
    let ra: u32 = match a {
        Confidence::Possible => 0,
        Confidence::Likely => 1,
        Confidence::Definite => 2,
    };
    let rb: u32 = match b {
        Confidence::Possible => 0,
        Confidence::Likely => 1,
        Confidence::Definite => 2,
    };
    if ra >= rb {
        a
    } else {
        b
    }
}

// Rule identifiers. Each detector owns one block of the numbering; the
// single-implementor rule is shared between the architecture and the
// type-system detectors, which is why it carries one id for both.
pub const RULE_GOD_ENTITY: u32 = 10;
pub const RULE_OVER_LAYERING: u32 = 11;
pub const RULE_TRAIT_PER_VERB: u32 = 12;
pub const RULE_UNNECESSARY_NESTING: u32 = 13;
pub const RULE_FAT_INTERFACE: u32 = 14;
pub const RULE_CONCRETE_COUPLING: u32 = 15;
pub const RULE_CYCLIC_COMPOSITION: u32 = 16;
pub const RULE_SINGLE_IMPLEMENTOR: u32 = 17;
pub const RULE_NEWTYPE_NO_SEMANTICS: u32 = 18;

pub const RULE_DATA_RACE: u32 = 20;
pub const RULE_LOCK_ACROSS_SUSPEND: u32 = 21;
pub const RULE_UNBOUNDED_SPAWN: u32 = 22;
pub const RULE_BLOCKING_IN_ASYNC: u32 = 23;
pub const RULE_UNJOINED_TASK: u32 = 24;
pub const RULE_LOCK_ORDER_CYCLE: u32 = 25;
pub const RULE_IO_NO_DEADLINE: u32 = 26;

pub const RULE_UNNECESSARY_LIFETIME: u32 = 30;
pub const RULE_OVER_PARAMETERIZED_LIFETIMES: u32 = 31;
pub const RULE_SELF_REFERENCE: u32 = 32;
pub const RULE_LIFETIME_MERGE: u32 = 33;
pub const RULE_OWNED_FOR_BORROW: u32 = 34;

pub const RULE_CONTEXT_LOSS: u32 = 40;
pub const RULE_GENERIC_ERROR_CHANNEL: u32 = 41;
pub const RULE_SILENT_DISCARD: u32 = 42;
pub const RULE_BLIND_RERAISE: u32 = 43;
pub const RULE_ABORT_ON_ERROR: u32 = 44;
pub const RULE_NO_RECOVERY_CLASSIFICATION: u32 = 45;

pub const RULE_UNDOCUMENTED_UNSAFE: u32 = 50;
pub const RULE_USE_AFTER_FREE: u32 = 51;
pub const RULE_UNGUARDED_PTR_ARITH: u32 = 52;
pub const RULE_DANGLING_FFI: u32 = 53;
pub const RULE_UNCHECKED_SIZE_MUL: u32 = 54;
pub const RULE_MISLEADING_SAFETY: u32 = 55;

pub const RULE_OVER_CONSTRAINED: u32 = 60;
pub const RULE_UNDER_CONSTRAINED: u32 = 61;
pub const RULE_UNNECESSARY_DYN: u32 = 62;

/// Whether a rule id belongs to the engine's rule set.
pub open spec fn known_rule(r: u32) -> bool {
    (10 <= r && r <= 18) || (20 <= r && r <= 26) || (30 <= r && r <= 34) || (40 <= r && r <= 45)
        || (50 <= r && r <= 55) || (60 <= r && r <= 62)
}

pub fn is_known_rule(r: u32) -> (b: bool)
    ensures
        b == known_rule(r),
{
    (10 <= r && r <= 18) || (20 <= r && r <= 26) || (30 <= r && r <= 34) || (40 <= r && r <= 45)
        || (50 <= r && r <= 55) || (60 <= r && r <= 62)
}

/// A human-readable message for each rule; report formatting beyond this
/// is the reporting collaborator's concern.
pub fn rule_message(r: u32) -> (m: &'static str) {
    if r == 10 {
        "aggregate bundles many fields, methods and unrelated responsibilities"
    } else if r == 11 {
        "strictly sequential chain of single-purpose components"
    } else if r == 12 {
        "several single-method traits share one semantic root"
    } else if r == 13 {
        "single-field struct wraps another single-field struct without adding an invariant"
    } else if r == 14 {
        "trait exposes many methods spanning several verb groups"
    } else if r == 15 {
        "concrete external-service field beside abstract sibling fields"
    } else if r == 16 {
        "field-reference types form a composition cycle"
    } else if r == 17 {
        "trait has exactly one implementor and crosses no boundary"
    } else if r == 18 {
        "newtype wraps a generic container without adding semantics"
    } else if r == 20 {
        "shared state mutated by independently scheduled tasks without synchronization"
    } else if r == 21 {
        "exclusive lock held across a suspension point"
    } else if r == 22 {
        "unbounded task spawning inside a loop with no capacity bound in scope"
    } else if r == 23 {
        "blocking call inside a cooperatively scheduled function"
    } else if r == 24 {
        "spawned task is never awaited or joined"
    } else if r == 25 {
        "lock acquisition order forms a cycle across tasks"
    } else if r == 26 {
        "i/o statement carries no bound or deadline"
    } else if r == 30 {
        "lifetime parameter appears exactly once and relates to nothing"
    } else if r == 31 {
        "several independent lifetime parameters with no documented relation"
    } else if r == 32 {
        "field borrows from data owned by the same aggregate"
    } else if r == 33 {
        "returned borrow is bound to unrelated input lifetimes"
    } else if r == 34 {
        "owned parameter is only read; a borrow would do"
    } else if r == 40 {
        "error converted to unstructured text, identity of the cause lost"
    } else if r == 41 {
        "public error channel masks distinct failure kinds"
    } else if r == 42 {
        "error observed but neither logged, returned nor surfaced"
    } else if r == 43 {
        "error re-raised with no added location or context"
    } else if r == 44 {
        "unconditional abort on error"
    } else if r == 45 {
        "error taxonomy exposes no recoverable/fatal classification"
    } else if r == 50 {
        "unsafe operation lacks an attached precondition"
    } else if r == 51 {
        "dereference of a pointer whose owning scope has ended"
    } else if r == 52 {
        "raw pointer arithmetic with no overflow or bounds guard"
    } else if r == 53 {
        "ffi call captures a borrowed pointer with no lifetime tie"
    } else if r == 54 {
        "unchecked multiplication feeds a size calculation"
    } else if r == 55 {
        "documented safety claim contradicted by the constructing code"
    } else if r == 60 {
        "generic parameter carries bounds the body never uses"
    } else if r == 61 {
        "type parameter is never used beyond pass-through"
    } else if r == 62 {
        "trait object where a generic parameter would suffice"
    } else {
        "unknown rule"
    }
}

/// One detector-emitted report of a matched pattern.
#[derive(Clone, Copy, PartialEq, Eq, Debug)]
pub struct Finding {
    pub rule_id: u32,
    pub domain: Domain,
    pub severity: Severity,
    pub confidence: Confidence,
    /// Index of the declaration the finding is about, within the unit
    /// that produced it.
    pub decl: usize,
    /// Offset of the matched statement within that declaration's coarse
    /// statement sequence, where the rule is statement-level.
    pub stmt_offset: Option<usize>,
}

/// The aggregator's output: duplicate (rule, location) reports merged,
/// with the provenance of every contributing domain retained as a bitmask.
#[derive(Clone, Copy, PartialEq, Eq, Debug)]
pub struct MergedFinding {
    pub rule_id: u32,
    pub decl: usize,
    pub stmt_offset: Option<usize>,
    /// Union of `domain_bit` over every merged report.
    pub domains: u32,
    /// Gravest severity among the merged reports.
    pub severity: Severity,
    /// Strongest confidence among the merged reports.
    pub confidence: Confidence,
}

/// A statement-level finding at offset `j` of declaration `d`.
pub open spec fn stmt_finding(
    rule: u32,
    dom: Domain,
    sev: Severity,
    conf: Confidence,
    d: int,
    j: int,
) -> Finding {
    Finding {
        rule_id: rule,
        domain: dom,
        severity: sev,
        confidence: conf,
        decl: d as usize,
        stmt_offset: Option::Some(j as usize),
    }
}

/// A finding about declaration `d` as a whole.
pub open spec fn decl_finding(rule: u32, dom: Domain, sev: Severity, conf: Confidence, d: int) -> Finding {
    Finding {
        rule_id: rule,
        domain: dom,
        severity: sev,
        confidence: conf,
        decl: d as usize,
        stmt_offset: Option::None,
    }
}

/// Totally ordered code for an optional statement offset: a finding on
/// the declaration as a whole sorts before its statement-level findings.
pub open spec fn offset_code(o: Option<usize>) -> int {
    match o {
        Option::None => 0,
        Option::Some(k) => k + 1,
    }
}

/// Reporting order: declaration source order, then rule id, then
/// statement offset.
pub open spec fn key_le(a: MergedFinding, b: MergedFinding) -> bool {
    if a.decl != b.decl {
        a.decl < b.decl
    } else if a.rule_id != b.rule_id {
        a.rule_id < b.rule_id
    } else {
        offset_code(a.stmt_offset) <= offset_code(b.stmt_offset)
    }
}

/// Two reports are duplicates when rule and location agree.
pub open spec fn same_key(a: MergedFinding, b: MergedFinding) -> bool {
    a.decl == b.decl && a.rule_id == b.rule_id && a.stmt_offset == b.stmt_offset
}

/// Whether a finding has the given (rule, location) key.
pub open spec fn finding_key_matches(f: Finding, m: MergedFinding) -> bool {
    f.decl == m.decl && f.rule_id == m.rule_id && f.stmt_offset == m.stmt_offset
}

} // verus!
