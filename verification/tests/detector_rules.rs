// Per-rule scenarios: each encodes a small program shape in the
// structural model and checks which findings the pipeline reports.

use critic::model::{
    CompilationUnit, Declaration, EnumDecl, ErrorChannel, Field, FunctionDecl, GenericParam,
    ImplBlock, LifetimeParam, MethodSig, Param, PtrProvenance, ReturnShape, Stmt, StmtKind,
    StructDecl, TraitDecl, TypeShape,
};
use critic::config::AnalysisConfig;
use critic::finding::{Confidence, Domain, MergedFinding, Severity};
use critic::finding::{
    RULE_GOD_ENTITY, RULE_OVER_LAYERING, RULE_TRAIT_PER_VERB, RULE_UNNECESSARY_NESTING,
    RULE_FAT_INTERFACE, RULE_CONCRETE_COUPLING, RULE_CYCLIC_COMPOSITION, RULE_SINGLE_IMPLEMENTOR,
    RULE_NEWTYPE_NO_SEMANTICS, RULE_DATA_RACE, RULE_LOCK_ACROSS_SUSPEND, RULE_UNBOUNDED_SPAWN,
    RULE_BLOCKING_IN_ASYNC, RULE_UNJOINED_TASK, RULE_LOCK_ORDER_CYCLE, RULE_IO_NO_DEADLINE,
    RULE_UNNECESSARY_LIFETIME, RULE_OVER_PARAMETERIZED_LIFETIMES, RULE_SELF_REFERENCE,
    RULE_LIFETIME_MERGE, RULE_OWNED_FOR_BORROW, RULE_CONTEXT_LOSS, RULE_GENERIC_ERROR_CHANNEL,
    RULE_SILENT_DISCARD, RULE_BLIND_RERAISE, RULE_ABORT_ON_ERROR, RULE_NO_RECOVERY_CLASSIFICATION,
    RULE_UNDOCUMENTED_UNSAFE, RULE_USE_AFTER_FREE, RULE_UNGUARDED_PTR_ARITH, RULE_DANGLING_FFI,
    RULE_UNCHECKED_SIZE_MUL, RULE_MISLEADING_SAFETY, RULE_OVER_CONSTRAINED, RULE_UNDER_CONSTRAINED,
    RULE_UNNECESSARY_DYN,
};
use critic::pipeline::analyze_unit;

fn st(kind: StmtKind) -> Stmt {
    Stmt { kind, scope: 0, task: 0 }
}

fn stt(kind: StmtKind, task: u32) -> Stmt {
    Stmt { kind, scope: 0, task }
}

fn base_fn(stmts: Vec<Stmt>) -> FunctionDecl {
    FunctionDecl {
        is_async: false,
        is_unsafe: false,
        is_public: false,
        is_request_path: false,
        is_startup: false,
        params: vec![],
        generics: vec![],
        lifetimes: vec![],
        ret: ReturnShape {
            is_borrow: false,
            error_channel: ErrorChannel::Infallible,
            distinct_failure_kinds: 0,
        },
        ret_bound_lifetimes: vec![],
        builds_heterogeneous: false,
        stmts,
    }
}

fn plain_fn(stmts: Vec<Stmt>) -> Declaration {
    Declaration::Function(base_fn(stmts))
}

fn async_fn(stmts: Vec<Stmt>) -> Declaration {
    let mut f = base_fn(stmts);
    f.is_async = true;
    Declaration::Function(f)
}

fn analyze(decls: Vec<Declaration>) -> Vec<MergedFinding> {
    let unit = CompilationUnit::new(decls).expect("valid unit");
    analyze_unit(&unit, &AnalysisConfig::new())
}

fn rules_of(fs: &[MergedFinding]) -> Vec<u32> {
    fs.iter().map(|f| f.rule_id).collect()
}

fn find_rule(fs: &[MergedFinding], rule: u32) -> Option<MergedFinding> {
    fs.iter().copied().find(|f| f.rule_id == rule)
}

// --- concurrency ---------------------------------------------------------

#[test]
fn lock_then_suspend_is_critical() {
    let fs = analyze(vec![async_fn(vec![
        st(StmtKind::LockAcquire { lock: 0 }),
        st(StmtKind::Suspend),
    ])]);
    let f = find_rule(&fs, RULE_LOCK_ACROSS_SUSPEND).expect("lock-across-suspend");
    assert_eq!(f.severity, Severity::Critical);
    assert_eq!(f.decl, 0);
    assert_eq!(f.stmt_offset, Some(1));
}

#[test]
fn release_before_suspend_is_silent() {
    let fs = analyze(vec![async_fn(vec![
        st(StmtKind::LockAcquire { lock: 0 }),
        st(StmtKind::LockRelease { lock: 0 }),
        st(StmtKind::Suspend),
    ])]);
    assert!(find_rule(&fs, RULE_LOCK_ACROSS_SUSPEND).is_none());
}

#[test]
fn shared_mutation_across_tasks_races() {
    let fs = analyze(vec![async_fn(vec![
        st(StmtKind::Spawn { task: 1, in_loop: false }),
        stt(StmtKind::SharedMutate { state: 0 }, 1),
        st(StmtKind::Spawn { task: 2, in_loop: false }),
        stt(StmtKind::SharedMutate { state: 0 }, 2),
        st(StmtKind::Join { task: 1 }),
        st(StmtKind::Join { task: 2 }),
    ])]);
    let f = find_rule(&fs, RULE_DATA_RACE).expect("data race");
    assert_eq!(f.severity, Severity::Critical);
    assert_eq!(f.stmt_offset, Some(3));
    assert!(find_rule(&fs, RULE_UNJOINED_TASK).is_none());
}

#[test]
fn synchronized_mutation_does_not_race() {
    let fs = analyze(vec![async_fn(vec![
        st(StmtKind::Spawn { task: 1, in_loop: false }),
        stt(StmtKind::SharedMutate { state: 0 }, 1),
        st(StmtKind::Sync),
        stt(StmtKind::SharedMutate { state: 0 }, 2),
    ])]);
    assert!(find_rule(&fs, RULE_DATA_RACE).is_none());
}

#[test]
fn unbounded_spawn_in_loop_warns() {
    let fs = analyze(vec![async_fn(vec![st(StmtKind::Spawn { task: 0, in_loop: true })])]);
    let f = find_rule(&fs, RULE_UNBOUNDED_SPAWN).expect("unbounded spawn");
    assert_eq!(f.severity, Severity::Warning);
}

#[test]
fn bounded_channel_spawning_is_silent() {
    let fs = analyze(vec![async_fn(vec![
        st(StmtKind::CapacityBound),
        st(StmtKind::Spawn { task: 1, in_loop: true }),
        st(StmtKind::Join { task: 1 }),
    ])]);
    assert!(find_rule(&fs, RULE_UNBOUNDED_SPAWN).is_none());
}

#[test]
fn blocking_io_in_async_fn_is_critical() {
    let fs = analyze(vec![async_fn(vec![st(StmtKind::BlockingIo)])]);
    let f = find_rule(&fs, RULE_BLOCKING_IN_ASYNC).expect("blocking in async");
    assert_eq!(f.severity, Severity::Critical);
}

#[test]
fn blocking_io_in_plain_fn_is_fine() {
    let fs = analyze(vec![plain_fn(vec![st(StmtKind::BlockingIo)])]);
    assert!(find_rule(&fs, RULE_BLOCKING_IN_ASYNC).is_none());
}

#[test]
fn spawned_task_never_joined_warns() {
    let fs = analyze(vec![async_fn(vec![st(StmtKind::Spawn { task: 0, in_loop: false })])]);
    assert!(find_rule(&fs, RULE_UNJOINED_TASK).is_some());
}

#[test]
fn opposite_lock_orders_deadlock() {
    let fs = analyze(vec![async_fn(vec![
        st(StmtKind::Spawn { task: 1, in_loop: false }),
        stt(StmtKind::LockAcquire { lock: 0 }, 1),
        stt(StmtKind::LockAcquire { lock: 1 }, 1),
        st(StmtKind::Spawn { task: 2, in_loop: false }),
        stt(StmtKind::LockAcquire { lock: 1 }, 2),
        stt(StmtKind::LockAcquire { lock: 0 }, 2),
        st(StmtKind::Join { task: 1 }),
        st(StmtKind::Join { task: 2 }),
    ])]);
    let f = find_rule(&fs, RULE_LOCK_ORDER_CYCLE).expect("lock order cycle");
    assert_eq!(f.severity, Severity::Critical);
}

#[test]
fn consistent_lock_orders_do_not_deadlock() {
    let fs = analyze(vec![async_fn(vec![
        st(StmtKind::Spawn { task: 1, in_loop: false }),
        stt(StmtKind::LockAcquire { lock: 0 }, 1),
        stt(StmtKind::LockAcquire { lock: 1 }, 1),
        st(StmtKind::Spawn { task: 2, in_loop: false }),
        stt(StmtKind::LockAcquire { lock: 0 }, 2),
        stt(StmtKind::LockAcquire { lock: 1 }, 2),
        st(StmtKind::Join { task: 1 }),
        st(StmtKind::Join { task: 2 }),
    ])]);
    assert!(find_rule(&fs, RULE_LOCK_ORDER_CYCLE).is_none());
}

#[test]
fn io_without_deadline_warns() {
    let with = analyze(vec![async_fn(vec![st(StmtKind::Io { has_deadline: false })])]);
    assert!(find_rule(&with, RULE_IO_NO_DEADLINE).is_some());
    let without = analyze(vec![async_fn(vec![st(StmtKind::Io { has_deadline: true })])]);
    assert!(find_rule(&without, RULE_IO_NO_DEADLINE).is_none());
}

// --- borrowing -------------------------------------------------------------

fn fn_with_lifetimes(lts: Vec<LifetimeParam>) -> Declaration {
    let mut f = base_fn(vec![]);
    f.lifetimes = lts;
    Declaration::Function(f)
}

#[test]
fn lone_unrelated_lifetime_is_flagged() {
    let fs = analyze(vec![fn_with_lifetimes(vec![LifetimeParam {
        uses: 1,
        related: false,
        elidable: true,
    }])]);
    let f = find_rule(&fs, RULE_UNNECESSARY_LIFETIME).expect("unnecessary lifetime");
    assert_eq!(f.confidence, Confidence::Likely);
}

#[test]
fn shared_lifetime_is_not_flagged() {
    let fs = analyze(vec![fn_with_lifetimes(vec![LifetimeParam {
        uses: 2,
        related: true,
        elidable: false,
    }])]);
    assert!(find_rule(&fs, RULE_UNNECESSARY_LIFETIME).is_none());
}

#[test]
fn three_independent_lifetimes_are_flagged() {
    let lt = LifetimeParam { uses: 2, related: false, elidable: false };
    let fs = analyze(vec![fn_with_lifetimes(vec![lt, lt, lt])]);
    assert!(find_rule(&fs, RULE_OVER_PARAMETERIZED_LIFETIMES).is_some());
}

#[test]
fn self_referential_field_is_critical() {
    let fs = analyze(vec![Declaration::Struct(StructDecl {
        fields: vec![
            Field { noun_cluster: 0, ty: TypeShape::Primitive },
            Field { noun_cluster: 1, ty: TypeShape::RawPointer { pointee_owner: Some(0) } },
        ],
        has_invariant: false,
    })]);
    let f = find_rule(&fs, RULE_SELF_REFERENCE).expect("self reference");
    assert_eq!(f.severity, Severity::Critical);
    assert_eq!(f.confidence, Confidence::Definite);
}

#[test]
fn merged_unrelated_return_lifetimes_are_critical() {
    let lt = LifetimeParam { uses: 1, related: false, elidable: false };
    let mut f = base_fn(vec![]);
    f.lifetimes = vec![lt, lt];
    f.ret = ReturnShape {
        is_borrow: true,
        error_channel: ErrorChannel::Infallible,
        distinct_failure_kinds: 0,
    };
    f.ret_bound_lifetimes = vec![0, 1];
    let fs = analyze(vec![Declaration::Function(f)]);
    let m = find_rule(&fs, RULE_LIFETIME_MERGE).expect("lifetime merge");
    assert_eq!(m.severity, Severity::Critical);
}

#[test]
fn owned_but_only_read_parameter_is_noted() {
    let mut f = base_fn(vec![]);
    f.params = vec![Param { owned: true, consumed: false, is_trait_object: false }];
    let fs = analyze(vec![Declaration::Function(f)]);
    let m = find_rule(&fs, RULE_OWNED_FOR_BORROW).expect("owned for borrow");
    assert_eq!(m.severity, Severity::Info);
}

// --- systems ---------------------------------------------------------------

fn deref(documented: bool, provenance: PtrProvenance) -> Stmt {
    st(StmtKind::PtrDeref { documented, provenance, source_owner: None })
}

#[test]
fn validated_documented_deref_is_never_flagged() {
    let fs = analyze(vec![plain_fn(vec![deref(true, PtrProvenance::Validated)])]);
    assert!(fs.iter().all(|f| !(40..60).contains(&f.rule_id) || f.stmt_offset != Some(0)));
    assert!(find_rule(&fs, RULE_UNDOCUMENTED_UNSAFE).is_none());
    assert!(find_rule(&fs, RULE_MISLEADING_SAFETY).is_none());
}

#[test]
fn undocumented_deref_is_always_critical() {
    let fs = analyze(vec![plain_fn(vec![deref(false, PtrProvenance::Unchecked)])]);
    let f = find_rule(&fs, RULE_UNDOCUMENTED_UNSAFE).expect("undocumented unsafe");
    assert_eq!(f.severity, Severity::Critical);
}

#[test]
fn documented_but_unvalidated_deref_is_still_critical() {
    let fs = analyze(vec![plain_fn(vec![deref(true, PtrProvenance::Unchecked)])]);
    let f = find_rule(&fs, RULE_UNDOCUMENTED_UNSAFE).expect("undocumented unsafe");
    assert_eq!(f.severity, Severity::Critical);
}

#[test]
fn safety_claim_over_null_pointer_is_misleading() {
    let fs = analyze(vec![plain_fn(vec![deref(true, PtrProvenance::KnownInvalid)])]);
    let f = find_rule(&fs, RULE_MISLEADING_SAFETY).expect("misleading safety");
    assert_eq!(f.severity, Severity::Critical);
    assert_eq!(f.confidence, Confidence::Definite);
}

#[test]
fn deref_after_scope_end_is_use_after_free() {
    let fs = analyze(vec![plain_fn(vec![
        st(StmtKind::ScopeEnd { owner: 0 }),
        st(StmtKind::PtrDeref {
            documented: true,
            provenance: PtrProvenance::Validated,
            source_owner: Some(0),
        }),
    ])]);
    let f = find_rule(&fs, RULE_USE_AFTER_FREE).expect("use after free");
    assert_eq!(f.severity, Severity::Critical);
}

#[test]
fn unguarded_pointer_arithmetic_is_critical() {
    let fs = analyze(vec![plain_fn(vec![st(StmtKind::PtrArith {
        documented: true,
        guarded: false,
    })])]);
    assert!(find_rule(&fs, RULE_UNGUARDED_PTR_ARITH).is_some());
}

#[test]
fn untied_borrowed_ffi_capture_is_critical() {
    let dangling = analyze(vec![plain_fn(vec![st(StmtKind::FfiCall {
        passes_borrowed: true,
        lifetime_tied: false,
    })])]);
    assert!(find_rule(&dangling, RULE_DANGLING_FFI).is_some());
    let tied = analyze(vec![plain_fn(vec![st(StmtKind::FfiCall {
        passes_borrowed: true,
        lifetime_tied: true,
    })])]);
    assert!(find_rule(&tied, RULE_DANGLING_FFI).is_none());
}

#[test]
fn unchecked_size_multiplication_warns() {
    let unchecked = analyze(vec![plain_fn(vec![st(StmtKind::SizeMul { checked: false })])]);
    let f = find_rule(&unchecked, RULE_UNCHECKED_SIZE_MUL).expect("unchecked size mul");
    assert_eq!(f.severity, Severity::Warning);
    let checked = analyze(vec![plain_fn(vec![st(StmtKind::SizeMul { checked: true })])]);
    assert!(find_rule(&checked, RULE_UNCHECKED_SIZE_MUL).is_none());
}

// --- error handling ----------------------------------------------------------

#[test]
fn error_to_text_loses_context() {
    let fs = analyze(vec![plain_fn(vec![st(StmtKind::ErrorToText)])]);
    assert!(find_rule(&fs, RULE_CONTEXT_LOSS).is_some());
}

#[test]
fn generic_public_error_channel_warns() {
    let mut f = base_fn(vec![]);
    f.is_public = true;
    f.ret = ReturnShape {
        is_borrow: false,
        error_channel: ErrorChannel::Textual,
        distinct_failure_kinds: 3,
    };
    let fs = analyze(vec![Declaration::Function(f)]);
    assert!(find_rule(&fs, RULE_GENERIC_ERROR_CHANNEL).is_some());
}

#[test]
fn structured_error_channel_is_silent() {
    let mut f = base_fn(vec![]);
    f.is_public = true;
    f.ret = ReturnShape {
        is_borrow: false,
        error_channel: ErrorChannel::Structured,
        distinct_failure_kinds: 3,
    };
    let fs = analyze(vec![Declaration::Function(f)]);
    assert!(find_rule(&fs, RULE_GENERIC_ERROR_CHANNEL).is_none());
}

#[test]
fn silent_discard_on_request_path_is_critical() {
    let mut f = base_fn(vec![st(StmtKind::ErrorDiscard)]);
    f.is_request_path = true;
    let fs = analyze(vec![Declaration::Function(f)]);
    let m = find_rule(&fs, RULE_SILENT_DISCARD).expect("silent discard");
    assert_eq!(m.severity, Severity::Critical);
}

#[test]
fn silent_discard_elsewhere_warns() {
    let fs = analyze(vec![plain_fn(vec![st(StmtKind::ErrorDiscard)])]);
    let m = find_rule(&fs, RULE_SILENT_DISCARD).expect("silent discard");
    assert_eq!(m.severity, Severity::Warning);
}

#[test]
fn blind_reraise_is_informational() {
    let fs = analyze(vec![plain_fn(vec![st(StmtKind::ErrorReraise)])]);
    let m = find_rule(&fs, RULE_BLIND_RERAISE).expect("blind reraise");
    assert_eq!(m.severity, Severity::Info);
}

#[test]
fn abort_on_error_in_runtime_path_is_critical() {
    let fs = analyze(vec![plain_fn(vec![st(StmtKind::AbortOnError)])]);
    let m = find_rule(&fs, RULE_ABORT_ON_ERROR).expect("abort on error");
    assert_eq!(m.severity, Severity::Critical);
}

#[test]
fn abort_on_error_in_startup_code_is_informational() {
    let mut f = base_fn(vec![st(StmtKind::AbortOnError)]);
    f.is_startup = true;
    let fs = analyze(vec![Declaration::Function(f)]);
    let m = find_rule(&fs, RULE_ABORT_ON_ERROR).expect("abort on error");
    assert_eq!(m.severity, Severity::Info);
}

#[test]
fn error_taxonomy_without_classification_warns() {
    let flagged = analyze(vec![Declaration::Enum(EnumDecl {
        is_error_type: true,
        variants: 3,
        carries_cause: true,
        has_recoverability_predicate: false,
    })]);
    assert!(find_rule(&flagged, RULE_NO_RECOVERY_CLASSIFICATION).is_some());
    let good = analyze(vec![Declaration::Enum(EnumDecl {
        is_error_type: true,
        variants: 3,
        carries_cause: true,
        has_recoverability_predicate: true,
    })]);
    assert!(find_rule(&good, RULE_NO_RECOVERY_CLASSIFICATION).is_none());
}

// --- architecture -------------------------------------------------------------

#[test]
fn god_entity_with_many_fields_and_methods() {
    // ten fields across six domain-noun clusters, forty methods.
    let fields: Vec<Field> = (0..10)
        .map(|i| Field { noun_cluster: (i % 6) as u32, ty: TypeShape::Primitive })
        .collect();
    let methods: Vec<MethodSig> = (0..40).map(|i| MethodSig { verb_group: (i % 7) as u32 }).collect();
    let fs = analyze(vec![
        Declaration::Struct(StructDecl { fields, has_invariant: false }),
        Declaration::Impl(ImplBlock { self_decl: 0, trait_decl: None, methods }),
    ]);
    let f = find_rule(&fs, RULE_GOD_ENTITY).expect("god entity");
    assert_eq!(f.severity, Severity::Critical);
    assert!(matches!(f.confidence, Confidence::Likely | Confidence::Definite));
    assert_eq!(f.decl, 0);
}

#[test]
fn small_struct_is_not_a_god_entity() {
    let fields: Vec<Field> =
        (0..3).map(|i| Field { noun_cluster: i as u32, ty: TypeShape::Primitive }).collect();
    let fs = analyze(vec![Declaration::Struct(StructDecl { fields, has_invariant: false })]);
    assert!(find_rule(&fs, RULE_GOD_ENTITY).is_none());
}

#[test]
fn sequential_call_chain_is_over_layered() {
    let filler: Vec<Declaration> = (0..6)
        .map(|_| {
            Declaration::Enum(EnumDecl {
                is_error_type: false,
                variants: 1,
                carries_cause: false,
                has_recoverability_predicate: false,
            })
        })
        .collect();
    let mut decls = filler;
    decls.push(plain_fn((0..6).map(|c| st(StmtKind::Call { callee: c })).collect()));
    let fs = analyze(decls);
    let f = find_rule(&fs, RULE_OVER_LAYERING).expect("over layering");
    assert_eq!(f.decl, 6);
}

#[test]
fn branching_caller_is_not_over_layered() {
    let filler: Vec<Declaration> = (0..6)
        .map(|_| {
            Declaration::Enum(EnumDecl {
                is_error_type: false,
                variants: 1,
                carries_cause: false,
                has_recoverability_predicate: false,
            })
        })
        .collect();
    let mut decls = filler;
    let mut stmts: Vec<Stmt> = (0..6).map(|c| st(StmtKind::Call { callee: c })).collect();
    stmts.push(st(StmtKind::Branch));
    decls.push(plain_fn(stmts));
    let fs = analyze(decls);
    assert!(find_rule(&fs, RULE_OVER_LAYERING).is_none());
}

fn single_method_trait(root: u32) -> Declaration {
    Declaration::Trait(TraitDecl {
        methods: vec![MethodSig { verb_group: 0 }],
        semantic_root: root,
        supertraits: vec![],
        crosses_boundary: true,
        internal_only: false,
    })
}

#[test]
fn four_single_method_traits_over_one_noun_explode() {
    let fs = analyze(vec![
        single_method_trait(7),
        single_method_trait(7),
        single_method_trait(7),
        single_method_trait(7),
    ]);
    let hits: Vec<MergedFinding> =
        fs.iter().copied().filter(|f| f.rule_id == RULE_TRAIT_PER_VERB).collect();
    assert_eq!(hits.len(), 1);
    assert_eq!(hits[0].decl, 0);
}

#[test]
fn wrapper_of_wrapper_without_invariant_is_nested() {
    let fs = analyze(vec![
        Declaration::Struct(StructDecl {
            fields: vec![Field { noun_cluster: 0, ty: TypeShape::Named { decl: 1 } }],
            has_invariant: false,
        }),
        Declaration::Struct(StructDecl {
            fields: vec![Field { noun_cluster: 0, ty: TypeShape::Named { decl: 2 } }],
            has_invariant: false,
        }),
        Declaration::Struct(StructDecl {
            fields: vec![Field { noun_cluster: 0, ty: TypeShape::Primitive }],
            has_invariant: false,
        }),
    ]);
    let f = find_rule(&fs, RULE_UNNECESSARY_NESTING).expect("unnecessary nesting");
    assert_eq!(f.decl, 0);
}

#[test]
fn wide_trait_spanning_verb_groups_is_fat() {
    let methods: Vec<MethodSig> = (0..9).map(|i| MethodSig { verb_group: (i % 4) as u32 }).collect();
    let fs = analyze(vec![Declaration::Trait(TraitDecl {
        methods,
        semantic_root: 0,
        supertraits: vec![],
        crosses_boundary: true,
        internal_only: false,
    })]);
    assert!(find_rule(&fs, RULE_FAT_INTERFACE).is_some());
}

#[test]
fn concrete_service_beside_abstractions_couples() {
    let fs = analyze(vec![Declaration::Struct(StructDecl {
        fields: vec![
            Field { noun_cluster: 0, ty: TypeShape::ExternalService },
            Field { noun_cluster: 1, ty: TypeShape::TraitObject { trait_decl: None } },
        ],
        has_invariant: false,
    })]);
    assert!(find_rule(&fs, RULE_CONCRETE_COUPLING).is_some());
}

#[test]
fn mutual_shared_handles_form_a_cycle() {
    let fs = analyze(vec![
        Declaration::Struct(StructDecl {
            fields: vec![Field { noun_cluster: 0, ty: TypeShape::SharedHandle { decl: 1 } }],
            has_invariant: true,
        }),
        Declaration::Struct(StructDecl {
            fields: vec![Field { noun_cluster: 1, ty: TypeShape::SharedHandle { decl: 0 } }],
            has_invariant: true,
        }),
    ]);
    let hits: Vec<MergedFinding> =
        fs.iter().copied().filter(|f| f.rule_id == RULE_CYCLIC_COMPOSITION).collect();
    assert_eq!(hits.len(), 2);
    assert!(hits.iter().all(|f| f.severity == Severity::Critical));
}

#[test]
fn one_way_dependency_is_acyclic() {
    let fs = analyze(vec![
        Declaration::Struct(StructDecl {
            fields: vec![Field { noun_cluster: 0, ty: TypeShape::SharedHandle { decl: 1 } }],
            has_invariant: true,
        }),
        Declaration::Struct(StructDecl {
            fields: vec![Field { noun_cluster: 1, ty: TypeShape::Primitive }],
            has_invariant: true,
        }),
    ]);
    assert!(find_rule(&fs, RULE_CYCLIC_COMPOSITION).is_none());
}

#[test]
fn single_implementor_trait_is_merged_across_domains() {
    let fs = analyze(vec![
        Declaration::Trait(TraitDecl {
            methods: vec![MethodSig { verb_group: 0 }, MethodSig { verb_group: 1 }],
            semantic_root: 0,
            supertraits: vec![],
            crosses_boundary: false,
            internal_only: true,
        }),
        Declaration::Impl(ImplBlock {
            self_decl: 2,
            trait_decl: Some(0),
            methods: vec![MethodSig { verb_group: 0 }, MethodSig { verb_group: 1 }],
        }),
        Declaration::Struct(StructDecl {
            fields: vec![Field { noun_cluster: 0, ty: TypeShape::Primitive }],
            has_invariant: true,
        }),
    ]);
    let hits: Vec<MergedFinding> =
        fs.iter().copied().filter(|f| f.rule_id == RULE_SINGLE_IMPLEMENTOR).collect();
    // one merged finding, carrying both reporting domains.
    assert_eq!(hits.len(), 1);
    assert!(critic::finding::mask_has_domain(hits[0].domains, Domain::Architecture));
    assert!(critic::finding::mask_has_domain(hits[0].domains, Domain::TypeSystem));
}

#[test]
fn newtype_over_container_adds_no_semantics() {
    let flagged = analyze(vec![Declaration::Struct(StructDecl {
        fields: vec![Field { noun_cluster: 0, ty: TypeShape::GenericContainer }],
        has_invariant: false,
    })]);
    assert!(find_rule(&flagged, RULE_NEWTYPE_NO_SEMANTICS).is_some());
    // a wrapper around a primitive prevents identity mixing: not flagged.
    let good = analyze(vec![Declaration::Struct(StructDecl {
        fields: vec![Field { noun_cluster: 0, ty: TypeShape::Primitive }],
        has_invariant: false,
    })]);
    assert!(find_rule(&good, RULE_NEWTYPE_NO_SEMANTICS).is_none());
}

// --- type system -----------------------------------------------------------------

#[test]
fn many_unused_bounds_over_constrain() {
    let mut f = base_fn(vec![]);
    f.generics = vec![GenericParam { bounds: 5, bounds_used: 2, passthrough_only: false }];
    let fs = analyze(vec![Declaration::Function(f)]);
    assert!(find_rule(&fs, RULE_OVER_CONSTRAINED).is_some());
}

#[test]
fn passthrough_parameter_under_constrains() {
    let mut f = base_fn(vec![]);
    f.generics = vec![GenericParam { bounds: 0, bounds_used: 0, passthrough_only: true }];
    let fs = analyze(vec![Declaration::Function(f)]);
    let m = find_rule(&fs, RULE_UNDER_CONSTRAINED).expect("under constrained");
    assert_eq!(m.severity, Severity::Info);
}

#[test]
fn trait_object_without_heterogeneous_collection() {
    let mut f = base_fn(vec![]);
    f.params = vec![Param { owned: true, consumed: true, is_trait_object: true }];
    let fs = analyze(vec![Declaration::Function(f)]);
    assert!(find_rule(&fs, RULE_UNNECESSARY_DYN).is_some());
    let mut g = base_fn(vec![]);
    g.params = vec![Param { owned: true, consumed: true, is_trait_object: true }];
    g.builds_heterogeneous = true;
    let gs = analyze(vec![Declaration::Function(g)]);
    assert!(find_rule(&gs, RULE_UNNECESSARY_DYN).is_none());
}

#[test]
fn ordering_is_by_declaration_then_rule() {
    let fs = analyze(vec![
        plain_fn(vec![st(StmtKind::ErrorReraise), st(StmtKind::AbortOnError)]),
        plain_fn(vec![st(StmtKind::ErrorToText)]),
    ]);
    let rs = rules_of(&fs);
    assert_eq!(rs, vec![RULE_BLIND_RERAISE, RULE_ABORT_ON_ERROR, RULE_CONTEXT_LOSS]);
    assert_eq!(fs[0].decl, 0);
    assert_eq!(fs[2].decl, 1);
}
