// Pipeline-level properties: reference resolution, idempotence, router
// soundness and ranking, configuration validation, overrides, and
// fail-soft batch analysis.

use critic::model::{
    CompilationUnit, Declaration, EnumDecl, ErrorChannel, Field, FunctionDecl, ImplBlock,
    ModelConstructionError, PtrProvenance, ReturnShape, Stmt, StmtKind, StructDecl, TypeShape,
};
use critic::config::{AnalysisConfig, ConfigError, RuleOverride};
use critic::finding::{Domain, MergedFinding, Severity};
use critic::finding::{RULE_ABORT_ON_ERROR, RULE_BLIND_RERAISE, RULE_LOCK_ACROSS_SUSPEND};
use critic::pipeline::{analyze_batch, analyze_unit, check_findings_resolve};
use critic::router::route;

fn st(kind: StmtKind) -> Stmt {
    Stmt { kind, scope: 0, task: 0 }
}

fn base_fn(stmts: Vec<Stmt>) -> FunctionDecl {
    FunctionDecl {
        is_async: false,
        is_unsafe: false,
        is_public: false,
        is_request_path: false,
        is_startup: false,
        params: vec![],
        generics: vec![],
        lifetimes: vec![],
        ret: ReturnShape {
            is_borrow: false,
            error_channel: ErrorChannel::Infallible,
            distinct_failure_kinds: 0,
        },
        ret_bound_lifetimes: vec![],
        builds_heterogeneous: false,
        stmts,
    }
}

fn plain_fn(stmts: Vec<Stmt>) -> Declaration {
    Declaration::Function(base_fn(stmts))
}

fn async_fn(stmts: Vec<Stmt>) -> Declaration {
    let mut f = base_fn(stmts);
    f.is_async = true;
    Declaration::Function(f)
}

fn inert_enum() -> Declaration {
    Declaration::Enum(EnumDecl {
        is_error_type: false,
        variants: 1,
        carries_cause: false,
        has_recoverability_predicate: false,
    })
}

fn mixed_unit() -> CompilationUnit {
    CompilationUnit::new(vec![
        Declaration::Struct(StructDecl {
            fields: vec![
                Field { noun_cluster: 0, ty: TypeShape::ExternalService },
                Field { noun_cluster: 1, ty: TypeShape::TraitObject { trait_decl: None } },
            ],
            has_invariant: false,
        }),
        async_fn(vec![st(StmtKind::LockAcquire { lock: 0 }), st(StmtKind::Suspend)]),
        plain_fn(vec![st(StmtKind::AbortOnError), st(StmtKind::ErrorReraise)]),
        plain_fn(vec![st(StmtKind::PtrDeref {
            documented: false,
            provenance: PtrProvenance::Unchecked,
            source_owner: None,
        })]),
    ])
    .expect("valid unit")
}

#[test]
fn every_finding_resolves_inside_its_unit() {
    let unit = mixed_unit();
    let cfg = AnalysisConfig::new();
    let fs = analyze_unit(&unit, &cfg);
    assert!(!fs.is_empty());
    assert!(fs.iter().all(|f| f.decl < unit.decl_count()));
    assert!(check_findings_resolve(&unit, &fs).is_ok());
}

#[test]
fn repeated_runs_agree_byte_for_byte() {
    let unit = mixed_unit();
    let cfg = AnalysisConfig::new();
    let first = analyze_unit(&unit, &cfg);
    let second = analyze_unit(&unit, &cfg);
    assert_eq!(first, second);
}

#[test]
fn small_units_run_every_detector() {
    let unit = CompilationUnit::new(vec![inert_enum()]).expect("valid unit");
    let cfg = AnalysisConfig::new();
    let ranked = route(&unit, &cfg);
    assert_eq!(ranked.len(), 6);
}

#[test]
fn large_units_skip_only_zero_signal_domains() {
    let mut decls: Vec<Declaration> = (0..11).map(|_| inert_enum()).collect();
    decls.push(plain_fn(vec![st(StmtKind::PtrDeref {
        documented: false,
        provenance: PtrProvenance::Unchecked,
        source_owner: None,
    })]));
    let unit = CompilationUnit::new(decls).expect("valid unit");
    let cfg = AnalysisConfig::new();
    let ranked = route(&unit, &cfg);
    assert_eq!(ranked.len(), 1);
    assert_eq!(ranked[0].domain, Domain::Systems);
    assert_eq!(ranked[0].hits, 1);
    // and the skipped-domain policy never loses the Critical finding:
    let fs = analyze_unit(&unit, &cfg);
    assert!(fs.iter().any(|f| f.severity == Severity::Critical && f.decl == 11));
}

#[test]
fn ranking_puts_the_strongest_signal_first() {
    let unit = CompilationUnit::new(vec![
        plain_fn(vec![st(StmtKind::PtrDeref {
            documented: true,
            provenance: PtrProvenance::Validated,
            source_owner: None,
        })]),
        plain_fn(vec![st(StmtKind::PtrArith { documented: true, guarded: true })]),
        async_fn(vec![]),
    ])
    .expect("valid unit");
    let cfg = AnalysisConfig::new();
    let ranked = route(&unit, &cfg);
    assert_eq!(ranked.len(), 6);
    assert_eq!(ranked[0].domain, Domain::Systems);
    assert_eq!(ranked[0].hits, 2);
    assert_eq!(ranked[1].domain, Domain::Concurrency);
    assert_eq!(ranked[1].hits, 1);
}

#[test]
fn default_configuration_validates_cleanly() {
    let cfg = AnalysisConfig::new();
    let warnings = cfg.validate().expect("valid configuration");
    assert!(warnings.is_empty());
}

#[test]
fn unknown_rule_ids_warn_but_do_not_fail() {
    let mut cfg = AnalysisConfig::new();
    cfg.overrides.push(RuleOverride { rule_id: 99, enabled: true, severity_override: None });
    let warnings = cfg.validate().expect("still valid");
    assert_eq!(warnings.len(), 1);
    assert!(warnings[0].is_recoverable());
    assert!(matches!(warnings[0], ConfigError::UnknownRuleId { rule_id: 99 }));
}

#[test]
fn zero_threshold_fails_the_whole_run() {
    let mut cfg = AnalysisConfig::new();
    cfg.god_fields = 0;
    let err = cfg.validate().expect_err("invalid configuration");
    assert!(!err.is_recoverable());
    assert!(matches!(err, ConfigError::ZeroThreshold { .. }));
}

#[test]
fn recoverability_splits_the_error_kinds() {
    assert!(ConfigError::UnknownRuleId { rule_id: 3 }.is_recoverable());
    assert!(!ConfigError::ZeroThreshold { which: 0 }.is_recoverable());
}

#[test]
fn disabled_rules_are_dropped() {
    let unit =
        CompilationUnit::new(vec![plain_fn(vec![st(StmtKind::AbortOnError)])]).expect("valid");
    let mut cfg = AnalysisConfig::new();
    cfg.overrides.push(RuleOverride {
        rule_id: RULE_ABORT_ON_ERROR,
        enabled: false,
        severity_override: None,
    });
    let fs = analyze_unit(&unit, &cfg);
    assert!(fs.iter().all(|f| f.rule_id != RULE_ABORT_ON_ERROR));
}

#[test]
fn severity_overrides_replace_the_default() {
    let unit =
        CompilationUnit::new(vec![plain_fn(vec![st(StmtKind::ErrorReraise)])]).expect("valid");
    let mut cfg = AnalysisConfig::new();
    cfg.overrides.push(RuleOverride {
        rule_id: RULE_BLIND_RERAISE,
        enabled: true,
        severity_override: Some(Severity::Warning),
    });
    let fs = analyze_unit(&unit, &cfg);
    let f = fs.iter().find(|f| f.rule_id == RULE_BLIND_RERAISE).expect("reraise");
    assert_eq!(f.severity, Severity::Warning);
}

#[test]
fn dangling_reference_fails_construction() {
    let r = CompilationUnit::new(vec![Declaration::Struct(StructDecl {
        fields: vec![Field { noun_cluster: 0, ty: TypeShape::Named { decl: 5 } }],
        has_invariant: false,
    })]);
    assert!(matches!(r, Err(ModelConstructionError::DanglingReference { decl: 0 })));
}

#[test]
fn bad_impl_target_fails_construction() {
    let r = CompilationUnit::new(vec![Declaration::Impl(ImplBlock {
        self_decl: 9,
        trait_decl: None,
        methods: vec![],
    })]);
    assert!(matches!(r, Err(ModelConstructionError::BadImplTarget { decl: 0 })));
}

#[test]
fn out_of_range_statement_tag_fails_construction() {
    let r = CompilationUnit::new(vec![plain_fn(vec![st(StmtKind::LockAcquire { lock: 7 })])]);
    assert!(matches!(r, Err(ModelConstructionError::BadStatementTag { decl: 0 })));
}

#[test]
fn a_bad_unit_does_not_abort_the_batch() {
    let bad = vec![Declaration::Struct(StructDecl {
        fields: vec![Field { noun_cluster: 0, ty: TypeShape::Named { decl: 5 } }],
        has_invariant: false,
    })];
    let good = vec![plain_fn(vec![st(StmtKind::AbortOnError)])];
    let cfg = AnalysisConfig::new();
    let results = analyze_batch(vec![bad, good], &cfg);
    assert_eq!(results.len(), 2);
    assert!(results[0].is_err());
    let fs = results[1].as_ref().expect("second unit analyzed");
    assert!(fs.iter().any(|f| f.rule_id == RULE_ABORT_ON_ERROR));
}

#[test]
fn merged_findings_keep_the_gravest_severity() {
    // the same location reported by two domains keeps one entry; the
    // single-implementor overlap is checked in the detector scenarios,
    // here the lock-across-suspend report stays single and Critical.
    let unit = CompilationUnit::new(vec![async_fn(vec![
        st(StmtKind::LockAcquire { lock: 0 }),
        st(StmtKind::Suspend),
    ])])
    .expect("valid");
    let cfg = AnalysisConfig::new();
    let fs = analyze_unit(&unit, &cfg);
    let hits: Vec<&MergedFinding> =
        fs.iter().filter(|f| f.rule_id == RULE_LOCK_ACROSS_SUSPEND).collect();
    assert_eq!(hits.len(), 1);
    assert_eq!(hits[0].severity, Severity::Critical);
}

#[test]
fn every_known_rule_has_a_message() {
    for rule in 0..80u32 {
        if critic::finding::is_known_rule(rule) {
            assert!(!critic::finding::rule_message(rule).is_empty());
            assert_ne!(critic::finding::rule_message(rule), "unknown rule");
        }
    }
    assert_eq!(critic::finding::rule_message(99), "unknown rule");
}

#[test]
fn an_empty_unit_yields_no_findings() {
    let unit = CompilationUnit::new(vec![]).expect("empty unit is valid");
    let cfg = AnalysisConfig::new();
    let fs = analyze_unit(&unit, &cfg);
    assert!(fs.is_empty());
}
