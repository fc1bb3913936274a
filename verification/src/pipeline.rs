//! The analysis pipeline: the router selects detectors, the selected
//! detectors run as pure functions of the model and the configuration,
//! and the aggregator merges their reports into one ordered result. Rule
//! overrides are applied last. The whole run is a function of the unit
//! and the configuration alone, so repeated runs agree.

use vstd::prelude::*;
use crate::model::{CompilationUnit, Declaration, ModelConstructionError, decls_wf};
use crate::config::AnalysisConfig;
use crate::finding::{Finding, MergedFinding, Domain, Severity, finding_key_matches};
use crate::router;
use crate::router::{router_selects, detector_findings};
use crate::aggregate;
use crate::aggregate::{aggregate_spec, strictly_ordered, key_lt};
use crate::arch;
use crate::concurrency;
use crate::borrowing;
use crate::error_rules;
use crate::systems;
use crate::type_rules;

verus! {

/// A detector referencing a declaration id outside its unit would be a
/// programming defect, never swallowed. Verification discharges it for
/// this pipeline: `analyze_unit` proves every reference resolves.
#[derive(Clone, Copy, PartialEq, Eq, Debug)]
pub struct InternalInvariantViolation {
    pub decl: usize,
}

/// What one selected detector contributes.
pub open spec fn domain_contribution(u: CompilationUnit, cfg: AnalysisConfig, dom: Domain) -> Seq<
    Finding,
> {
    if router_selects(u, cfg, dom) {
        detector_findings(dom, u, cfg)
    } else {
        seq![]
    }
}

/// The selected detectors' reports, joined in domain order at the
/// barrier before the aggregator.
pub open spec fn combined_findings(u: CompilationUnit, cfg: AnalysisConfig) -> Seq<Finding> {
    domain_contribution(u, cfg, Domain::Architecture) + domain_contribution(
        u,
        cfg,
        Domain::Concurrency,
    ) + domain_contribution(u, cfg, Domain::Borrowing) + domain_contribution(
        u,
        cfg,
        Domain::ErrorHandling,
    ) + domain_contribution(u, cfg, Domain::Systems) + domain_contribution(
        u,
        cfg,
        Domain::TypeSystem,
    )
}

/// Apply the per-rule overrides: disabled rules are dropped, severity
/// overrides replace the detector-assigned severity.
pub open spec fn overridden(cfg: AnalysisConfig, m: MergedFinding) -> MergedFinding {
    MergedFinding { severity: cfg.effective_severity(m.rule_id, m.severity), ..m }
}

pub open spec fn apply_overrides_upto(cfg: AnalysisConfig, s: Seq<MergedFinding>, upto: int) -> Seq<
    MergedFinding,
>
    decreases upto,
{
    if upto <= 0 {
        seq![]
    } else {
        apply_overrides_upto(cfg, s, upto - 1) + (if cfg.rule_enabled(s[upto - 1].rule_id) {
            seq![overridden(cfg, s[upto - 1])]
        } else {
            seq![]
        })
    }
}

pub open spec fn apply_overrides(cfg: AnalysisConfig, s: Seq<MergedFinding>) -> Seq<MergedFinding> {
    apply_overrides_upto(cfg, s, s.len() as int)
}

/// The whole pipeline as a function of unit and configuration.
pub open spec fn pipeline_spec(u: CompilationUnit, cfg: AnalysisConfig) -> Seq<MergedFinding> {
    apply_overrides(cfg, aggregate_spec(combined_findings(u, cfg)))
}

// --- executable pipeline -----------------------------------------------------

fn rule_enabled_ex(cfg: &AnalysisConfig, rule_id: u32) -> (b: bool)
    ensures
        b == cfg.rule_enabled(rule_id),
{
    let n = cfg.overrides.len();
    let mut i: usize = 0;
    while i < n
        invariant
            i <= n,
            n == cfg.overrides@.len(),
            forall|q: int|
                0 <= q < i && (#[trigger] cfg.overrides@[q]).rule_id == rule_id
                    ==> cfg.overrides@[q].enabled,
        decreases n - i,
    {
        let ov = cfg.overrides[i];
        if ov.rule_id == rule_id && !ov.enabled {
            return false;
        }
        i = i + 1;
    }
    true
}

fn effective_severity_ex(cfg: &AnalysisConfig, rule_id: u32, dflt: Severity) -> (s: Severity)
    ensures
        s == cfg.effective_severity(rule_id, dflt),
{
    let n = cfg.overrides.len();
    let mut cur = dflt;
    let mut i: usize = 0;
    while i < n
        invariant
            i <= n,
            n == cfg.overrides@.len(),
            cur == cfg.effective_severity_upto(rule_id, dflt, i as int),
        decreases n - i,
    {
        let ov = cfg.overrides[i];
        if ov.rule_id == rule_id {
            match ov.severity_override {
                Option::Some(s2) => {
                    cur = s2;
                },
                Option::None => {},
            }
        }
        i = i + 1;
    }
    cur
}

fn apply_overrides_ex(cfg: &AnalysisConfig, v: &Vec<MergedFinding>) -> (r: Vec<MergedFinding>)
    ensures
        r@ == apply_overrides(*cfg, v@),
{
    let n = v.len();
    let mut out: Vec<MergedFinding> = Vec::new();
    let mut i: usize = 0;
    while i < n
        invariant
            i <= n,
            n == v@.len(),
            out@ == apply_overrides_upto(*cfg, v@, i as int),
        decreases n - i,
    {
        let m = v[i];
        if rule_enabled_ex(cfg, m.rule_id) {
            let sev = effective_severity_ex(cfg, m.rule_id, m.severity);
            out.push(
                MergedFinding {
                    rule_id: m.rule_id,
                    decl: m.decl,
                    stmt_offset: m.stmt_offset,
                    domains: m.domains,
                    severity: sev,
                    confidence: m.confidence,
                },
            );
        }
        proof {
            assert(out@ =~= apply_overrides_upto(*cfg, v@, i + 1));
        }
        i = i + 1;
    }
    out
}

/// Analyze one unit: route, run the selected detectors, merge, apply the
/// overrides. The result is ordered by declaration, rule and offset, and
/// every finding's declaration id resolves inside the unit.
pub fn analyze_unit(u: &CompilationUnit, cfg: &AnalysisConfig) -> (r: Vec<MergedFinding>)
    requires
        u.wf(),
        cfg.thresholds_wf(),
    ensures
        r@ == pipeline_spec(*u, *cfg),
        forall|k: int| 0 <= k < r@.len() ==> (#[trigger] r@[k]).decl < u.decls@.len(),
        forall|i: int, j: int| 0 <= i < j < r@.len() ==> key_lt(#[trigger] r@[i], #[trigger] r@[j]),
{
    let small = {
        let n = u.decls.len();
        n as u64 <= cfg.small_unit as u64
    };
    let mut all: Vec<Finding> = Vec::new();
    if small || router::count_hits(u, Domain::Architecture) > 0 {
        let mut v = crate::arch::detect_architecture(u, cfg);
        all.append(&mut v);
    }
    if small || router::count_hits(u, Domain::Concurrency) > 0 {
        let mut v = crate::concurrency::detect_concurrency(u);
        all.append(&mut v);
    }
    if small || router::count_hits(u, Domain::Borrowing) > 0 {
        let mut v = crate::borrowing::detect_borrowing(u, cfg);
        all.append(&mut v);
    }
    if small || router::count_hits(u, Domain::ErrorHandling) > 0 {
        let mut v = crate::error_rules::detect_errors(u);
        all.append(&mut v);
    }
    if small || router::count_hits(u, Domain::Systems) > 0 {
        let mut v = crate::systems::detect_systems(u);
        all.append(&mut v);
    }
    if small || router::count_hits(u, Domain::TypeSystem) > 0 {
        let mut v = crate::type_rules::detect_types(u, cfg);
        all.append(&mut v);
    }
    proof {
        assert(all@ =~= combined_findings(*u, *cfg));
    }
    let merged = aggregate::aggregate(&all);
    let out = apply_overrides_ex(cfg, &merged);
    proof {
        lemma_combined_resolve(*u, *cfg);
        aggregate::lemma_aggregate_ordered(all@, all@.len() as int);
        lemma_overrides_keep_shape(*cfg, merged@, merged@.len() as int);
        assert forall|k: int| 0 <= k < out@.len() implies (#[trigger] out@[k]).decl
            < u.decls@.len() by {
            let q = choose|q: int|
                0 <= q < merged@.len() && same_loc(#[trigger] merged@[q], out@[k]);
            let i = choose|i: int|
                0 <= i < all@.len() && finding_key_matches(#[trigger] all@[i], merged@[q]);
        }
    }
    out
}

/// The findings of every selected detector resolve inside the unit.
proof fn lemma_combined_resolve(u: CompilationUnit, cfg: AnalysisConfig)
    requires
        u.wf(),
    ensures
        forall|i: int|
            0 <= i < combined_findings(u, cfg).len() ==> (#[trigger] combined_findings(u, cfg)[i]).decl
                < u.decls@.len(),
{
    let n = u.decls@.len() as int;
    vstd::std_specs::vec::axiom_spec_len(&u.decls);
    arch::lemma_arch_findings_decls(u, cfg, n);
    concurrency::lemma_conc_findings_resolve(u, n);
    borrowing::lemma_borrow_findings_decls(u, cfg, n);
    error_rules::lemma_err_findings_resolve(u, n);
    systems::lemma_sys_findings_resolve(u, n);
    type_rules::lemma_type_findings_never_critical(u, cfg, n);
    let s = combined_findings(u, cfg);
    assert forall|i: int| 0 <= i < s.len() implies (#[trigger] s[i]).decl < u.decls@.len() by {
        let c1 = domain_contribution(u, cfg, Domain::Architecture);
        let c2 = domain_contribution(u, cfg, Domain::Concurrency);
        let c3 = domain_contribution(u, cfg, Domain::Borrowing);
        let c4 = domain_contribution(u, cfg, Domain::ErrorHandling);
        let c5 = domain_contribution(u, cfg, Domain::Systems);
        if i < c1.len() {
            assert(s[i] == c1[i]);
        } else if i < c1.len() + c2.len() {
            assert(s[i] == c2[i - c1.len()]);
        } else if i < c1.len() + c2.len() + c3.len() {
            assert(s[i] == c3[i - c1.len() - c2.len()]);
        } else if i < c1.len() + c2.len() + c3.len() + c4.len() {
            assert(s[i] == c4[i - c1.len() - c2.len() - c3.len()]);
        } else if i < c1.len() + c2.len() + c3.len() + c4.len() + c5.len() {
            assert(s[i] == c5[i - c1.len() - c2.len() - c3.len() - c4.len()]);
        } else {
            assert(s[i] == domain_contribution(u, cfg, Domain::TypeSystem)[i - c1.len() - c2.len()
                - c3.len() - c4.len() - c5.len()]);
        }
    }
}

/// Two merged findings at the same location with the same rule.
pub open spec fn same_loc(a: MergedFinding, b: MergedFinding) -> bool {
    a.rule_id == b.rule_id && a.decl == b.decl && a.stmt_offset == b.stmt_offset
}

/// Applying overrides keeps each finding's rule and location, and keeps
/// the strict reporting order.
proof fn lemma_overrides_keep_shape(cfg: AnalysisConfig, s: Seq<MergedFinding>, upto: int)
    requires
        0 <= upto <= s.len(),
        strictly_ordered(s),
    ensures
        forall|k: int|
            0 <= k < apply_overrides_upto(cfg, s, upto).len() ==> exists|q: int|
                0 <= q < upto && same_loc(#[trigger] s[q], #[trigger] apply_overrides_upto(
                    cfg,
                    s,
                    upto,
                )[k]),
        forall|i: int, j: int|
            0 <= i < j < apply_overrides_upto(cfg, s, upto).len() ==> key_lt(
                #[trigger] apply_overrides_upto(cfg, s, upto)[i],
                #[trigger] apply_overrides_upto(cfg, s, upto)[j],
            ),
        apply_overrides_upto(cfg, s, upto).len() > 0 && upto < s.len() ==> key_lt(
            apply_overrides_upto(cfg, s, upto)[apply_overrides_upto(cfg, s, upto).len() - 1],
            s[upto],
        ),
    decreases upto,
{
    if upto > 0 {
        lemma_overrides_keep_shape(cfg, s, upto - 1);
        let prev = apply_overrides_upto(cfg, s, upto - 1);
        let cur = apply_overrides_upto(cfg, s, upto);
        assert forall|k: int|
            0 <= k < cur.len() implies exists|q: int|
            0 <= q < upto && same_loc(#[trigger] s[q], #[trigger] cur[k]) by {
            if k < prev.len() {
                assert(cur[k] == prev[k]);
                let q = choose|q: int| 0 <= q < upto - 1 && same_loc(#[trigger] s[q], prev[k]);
                assert(same_loc(s[q], cur[k]));
            } else {
                assert(cur[k] == overridden(cfg, s[upto - 1]));
                assert(same_loc(s[upto - 1], cur[k]));
            }
        }
        assert forall|i: int, j: int| 0 <= i < j < cur.len() implies key_lt(
            #[trigger] cur[i],
            #[trigger] cur[j],
        ) by {
            if j < prev.len() {
                assert(cur[i] == prev[i] && cur[j] == prev[j]);
            } else {
                assert(cur[j] == overridden(cfg, s[upto - 1]));
                assert(cur[i] == prev[i]);
                let q = choose|q: int| 0 <= q < upto - 1 && same_loc(#[trigger] s[q], prev[i]);
                if i < prev.len() - 1 {
                    assert(key_lt(prev[i], prev[prev.len() - 1]));
                    assert(key_lt(prev[prev.len() - 1], s[upto - 1]));
                } else {
                    assert(key_lt(prev[prev.len() - 1], s[upto - 1]));
                }
            }
        }
        if cur.len() > 0 && upto < s.len() {
            let q = choose|q: int| 0 <= q < upto && same_loc(#[trigger] s[q], cur[cur.len() - 1]);
            assert(q == upto - 1 || key_lt(s[q], s[upto - 1]));
            assert(key_lt(s[q], s[upto as int]) || q == upto - 1);
            assert(key_lt(cur[cur.len() - 1], s[upto as int]));
        }
    }
}

// --- the idempotence law ------------------------------------------------------

/// Running the pipeline twice on an unchanged unit and configuration
/// yields identical ordered finding sequences: the run is a pure function
/// of (model, configuration), with no hidden state.
pub proof fn lemma_pipeline_deterministic(
    u: CompilationUnit,
    cfg: AnalysisConfig,
    r1: Seq<MergedFinding>,
    r2: Seq<MergedFinding>,
)
    requires
        r1 == pipeline_spec(u, cfg),
        r2 == pipeline_spec(u, cfg),
    ensures
        r1 == r2,
{
}

// --- the reference invariant, checked ----------------------------------------

/// Check that every finding references a declaration of the unit. For
/// results of `analyze_unit` this is proved to hold, so the fatal
/// `InternalInvariantViolation` can never arise from this pipeline.
pub fn check_findings_resolve(u: &CompilationUnit, findings: &Vec<MergedFinding>) -> (r: Result<
    (),
    InternalInvariantViolation,
>)
    ensures
        r is Ok <==> (forall|k: int|
            0 <= k < findings@.len() ==> (#[trigger] findings@[k]).decl < u.decls@.len()),
{
    let n = findings.len();
    let mut k: usize = 0;
    while k < n
        invariant
            k <= n,
            n == findings@.len(),
            forall|q: int| 0 <= q < k ==> (#[trigger] findings@[q]).decl < u.decls@.len(),
        decreases n - k,
    {
        if findings[k].decl >= u.decls.len() {
            return Err(InternalInvariantViolation { decl: findings[k].decl });
        }
        k = k + 1;
    }
    Ok(())
}

/// Analyze a batch of raw units. A unit whose raw input cannot be reduced
/// to valid declarations is reported and skipped; the batch continues,
/// and results for completed units remain valid. A bad configuration must
/// instead fail the whole run before this is called.
pub fn analyze_batch(units: Vec<Vec<Declaration>>, cfg: &AnalysisConfig) -> (r: Vec<
    Result<Vec<MergedFinding>, ModelConstructionError>,
>)
    requires
        cfg.thresholds_wf(),
    ensures
        r@.len() == units@.len(),
        forall|i: int|
            0 <= i < r@.len() ==> ((#[trigger] r@[i]) is Ok <==> decls_wf(units@[i]@)),
        forall|i: int|
            0 <= i < r@.len() ==> ((#[trigger] r@[i]) matches Ok(fs) ==> fs@ == pipeline_spec(
                CompilationUnit { decls: units@[i] },
                *cfg,
            )),
{
    let ghost original = units@;
    let mut rest = units;
    let n = rest.len();
    let mut tmp: Vec<Result<Vec<MergedFinding>, ModelConstructionError>> = Vec::new();
    while rest.len() > 0
        invariant
            cfg.thresholds_wf(),
            rest@.len() <= n,
            n == original.len(),
            rest@ == original.take(rest@.len() as int),
            tmp@.len() == n - rest@.len(),
            forall|k: int|
                0 <= k < tmp@.len() ==> batch_entry_ok(#[trigger] tmp@[k], original[n - 1 - k], *cfg),
        decreases rest@.len(),
    {
        let raw = match rest.pop() {
            Option::Some(raw) => raw,
            Option::None => {
                proof {
                    assert(false);
                }
                return Vec::new();
            },
        };
        proof {
            assert(rest@ =~= original.take(rest@.len() as int));
        }
        proof {
            assert(raw == original[rest@.len() as int]);
        }
        let entry = match CompilationUnit::new(raw) {
            Ok(u) => {
                let fs = analyze_unit(&u, cfg);
                proof {
                    assert(u == (CompilationUnit { decls: raw }));
                }
                Ok(fs)
            },
            Err(e) => Err(e),
        };
        proof {
            assert(batch_entry_ok(entry, original[rest@.len() as int], *cfg));
        }
        tmp.push(entry);
    }
    let mut out: Vec<Result<Vec<MergedFinding>, ModelConstructionError>> = Vec::new();
    while tmp.len() > 0
        invariant
            n == original.len(),
            out@.len() + tmp@.len() == n,
            forall|k: int|
                0 <= k < tmp@.len() ==> batch_entry_ok(#[trigger] tmp@[k], original[n - 1 - k], *cfg),
            forall|k: int|
                0 <= k < out@.len() ==> batch_entry_ok(#[trigger] out@[k], original[k], *cfg),
        decreases tmp@.len(),
    {
        let entry = match tmp.pop() {
            Option::Some(entry) => entry,
            Option::None => {
                proof {
                    assert(false);
                }
                return Vec::new();
            },
        };
        out.push(entry);
    }
    proof {
        assert forall|i: int| 0 <= i < out@.len() implies ((#[trigger] out@[i]) is Ok <==> decls_wf(
            original[i]@,
        )) by {
            assert(batch_entry_ok(out@[i], original[i], *cfg));
        }
    }
    out
}

/// What the batch promises of one entry.
pub open spec fn batch_entry_ok(
    res: Result<Vec<MergedFinding>, ModelConstructionError>,
    raw: Vec<Declaration>,
    cfg: AnalysisConfig,
) -> bool {
    &&& res is Ok <==> decls_wf(raw@)
    &&& res matches Ok(fs) ==> fs@ == pipeline_spec(CompilationUnit { decls: raw }, cfg)
}

} // verus!
