//! The type-system detector: over- and under-constrained generics,
//! avoidable dynamic dispatch, and the internally-used single-implementor
//! trait it shares with the architecture detector.

use vstd::prelude::*;
use crate::model::{CompilationUnit, Declaration, FunctionDecl, TraitDecl, impl_count};
use crate::config::AnalysisConfig;
use crate::finding::{
    decl_finding, Finding, Domain, Severity, Confidence, RULE_OVER_CONSTRAINED,
    RULE_UNDER_CONSTRAINED, RULE_UNNECESSARY_DYN, RULE_SINGLE_IMPLEMENTOR,
};

verus! {

/// A generic parameter carrying many bounds the body does not all use.
pub open spec fn over_constrained_fires(f: FunctionDecl, cfg: AnalysisConfig) -> bool {
    exists|i: int|
        0 <= i < f.generics@.len() && (#[trigger] f.generics@[i]).bounds >= cfg.bounds_many
            && f.generics@[i].bounds_used < f.generics@[i].bounds
}

/// A type parameter never used beyond pass-through.
pub open spec fn under_constrained_fires(f: FunctionDecl) -> bool {
    exists|i: int| 0 <= i < f.generics@.len() && (#[trigger] f.generics@[i]).passthrough_only
}

/// A trait-object argument where no heterogeneous collection is built.
pub open spec fn unnecessary_dyn_fires(f: FunctionDecl) -> bool {
    &&& !f.builds_heterogeneous
    &&& exists|i: int| 0 <= i < f.params@.len() && (#[trigger] f.params@[i]).is_trait_object
}

/// The cross-domain single-implementor rule, seen from the type system:
/// one implementor, used only internally.
pub open spec fn internal_single_impl_fires(u: CompilationUnit, t: TraitDecl, d: int) -> bool {
    t.internal_only && impl_count(u.decls@, d, u.decls@.len() as int) == 1
}

pub open spec fn type_fn_findings(f: FunctionDecl, cfg: AnalysisConfig, d: int) -> Seq<Finding> {
    (if over_constrained_fires(f, cfg) {
        seq![
            decl_finding(
                RULE_OVER_CONSTRAINED,
                Domain::TypeSystem,
                Severity::Warning,
                Confidence::Likely,
                d,
            ),
        ]
    } else {
        seq![]
    }) + (if under_constrained_fires(f) {
        seq![
            decl_finding(
                RULE_UNDER_CONSTRAINED,
                Domain::TypeSystem,
                Severity::Info,
                Confidence::Possible,
                d,
            ),
        ]
    } else {
        seq![]
    }) + (if unnecessary_dyn_fires(f) {
        seq![
            decl_finding(
                RULE_UNNECESSARY_DYN,
                Domain::TypeSystem,
                Severity::Warning,
                Confidence::Possible,
                d,
            ),
        ]
    } else {
        seq![]
    })
}

pub open spec fn type_trait_findings(u: CompilationUnit, t: TraitDecl, d: int) -> Seq<Finding> {
    if internal_single_impl_fires(u, t, d) {
        seq![
            decl_finding(
                RULE_SINGLE_IMPLEMENTOR,
                Domain::TypeSystem,
                Severity::Warning,
                Confidence::Possible,
                d,
            ),
        ]
    } else {
        seq![]
    }
}

pub open spec fn type_decl_findings(u: CompilationUnit, cfg: AnalysisConfig, d: int) -> Seq<
    Finding,
> {
    match u.decls@[d] {
        Declaration::Function(f) => type_fn_findings(f, cfg, d),
        Declaration::Trait(t) => type_trait_findings(u, t, d),
        _ => seq![],
    }
}

pub open spec fn type_findings_upto(u: CompilationUnit, cfg: AnalysisConfig, upto: int) -> Seq<
    Finding,
>
    decreases upto,
{
    if upto <= 0 {
        seq![]
    } else {
        type_findings_upto(u, cfg, upto - 1) + type_decl_findings(u, cfg, upto - 1)
    }
}

/// The type-system detector's findings for a whole unit.
pub open spec fn type_findings(u: CompilationUnit, cfg: AnalysisConfig) -> Seq<Finding> {
    type_findings_upto(u, cfg, u.decls@.len() as int)
}

// --- executable matchers ---------------------------------------------------

fn over_constrained_at(f: &FunctionDecl, cfg: &AnalysisConfig) -> (b: bool)
    ensures
        b == over_constrained_fires(*f, *cfg),
{
    let n = f.generics.len();
    let mut i: usize = 0;
    while i < n
        invariant
            i <= n,
            n == f.generics@.len(),
            forall|q: int|
                0 <= q < i ==> !((#[trigger] f.generics@[q]).bounds >= cfg.bounds_many
                    && f.generics@[q].bounds_used < f.generics@[q].bounds),
        decreases n - i,
    {
        let g = f.generics[i];
        if g.bounds >= cfg.bounds_many && g.bounds_used < g.bounds {
            return true;
        }
        i = i + 1;
    }
    false
}

fn under_constrained_at(f: &FunctionDecl) -> (b: bool)
    ensures
        b == under_constrained_fires(*f),
{
    let n = f.generics.len();
    let mut i: usize = 0;
    while i < n
        invariant
            i <= n,
            n == f.generics@.len(),
            forall|q: int| 0 <= q < i ==> !(#[trigger] f.generics@[q]).passthrough_only,
        decreases n - i,
    {
        if f.generics[i].passthrough_only {
            return true;
        }
        i = i + 1;
    }
    false
}

fn unnecessary_dyn_at(f: &FunctionDecl) -> (b: bool)
    ensures
        b == unnecessary_dyn_fires(*f),
{
    if f.builds_heterogeneous {
        return false;
    }
    let n = f.params.len();
    let mut i: usize = 0;
    while i < n
        invariant
            i <= n,
            n == f.params@.len(),
            forall|q: int| 0 <= q < i ==> !(#[trigger] f.params@[q]).is_trait_object,
        decreases n - i,
    {
        if f.params[i].is_trait_object {
            return true;
        }
        i = i + 1;
    }
    false
}

/// Run the type-system detector over a unit.
pub fn detect_types(u: &CompilationUnit, cfg: &AnalysisConfig) -> (r: Vec<Finding>)
    requires
        u.wf(),
    ensures
        r@ == type_findings(*u, *cfg),
{
    let n = u.decls.len();
    let mut out: Vec<Finding> = Vec::new();
    let mut d: usize = 0;
    while d < n
        invariant
            d <= n,
            n == u.decls@.len(),
            out@ == type_findings_upto(*u, *cfg, d as int),
        decreases n - d,
    {
        match &u.decls[d] {
            Declaration::Function(f) => {
                if over_constrained_at(f, cfg) {
                    out.push(
                        Finding {
                            rule_id: RULE_OVER_CONSTRAINED,
                            domain: Domain::TypeSystem,
                            severity: Severity::Warning,
                            confidence: Confidence::Likely,
                            decl: d,
                            stmt_offset: Option::None,
                        },
                    );
                }
                if under_constrained_at(f) {
                    out.push(
                        Finding {
                            rule_id: RULE_UNDER_CONSTRAINED,
                            domain: Domain::TypeSystem,
                            severity: Severity::Info,
                            confidence: Confidence::Possible,
                            decl: d,
                            stmt_offset: Option::None,
                        },
                    );
                }
                if unnecessary_dyn_at(f) {
                    out.push(
                        Finding {
                            rule_id: RULE_UNNECESSARY_DYN,
                            domain: Domain::TypeSystem,
                            severity: Severity::Warning,
                            confidence: Confidence::Possible,
                            decl: d,
                            stmt_offset: Option::None,
                        },
                    );
                }
            },
            Declaration::Trait(t) => {
                if t.internal_only {
                    if crate::model::impl_count_eq(u, d, 1) {
                        out.push(
                            Finding {
                                rule_id: RULE_SINGLE_IMPLEMENTOR,
                                domain: Domain::TypeSystem,
                                severity: Severity::Warning,
                                confidence: Confidence::Possible,
                                decl: d,
                                stmt_offset: Option::None,
                            },
                        );
                    }
                }
            },
            _ => {},
        }
        proof {
            assert(out@ =~= type_findings_upto(*u, *cfg, d + 1));
        }
        d = d + 1;
    }
    out
}

/// The type-system detector never reports Critical: its patterns are
/// design smells, not soundness faults. The router may therefore skip it
/// freely without missing a Critical finding.
pub proof fn lemma_type_findings_never_critical(u: CompilationUnit, cfg: AnalysisConfig, upto: int)
    requires
        0 <= upto <= u.decls@.len(),
    ensures
        forall|k: int|
            0 <= k < type_findings_upto(u, cfg, upto).len() ==> !((#[trigger] type_findings_upto(
                u,
                cfg,
                upto,
            )[k]).severity is Critical) && type_findings_upto(u, cfg, upto)[k].domain is TypeSystem
                && type_findings_upto(u, cfg, upto)[k].decl < upto,
    decreases upto,
{
    if upto > 0 {
        lemma_type_findings_never_critical(u, cfg, upto - 1);
        vstd::std_specs::vec::axiom_spec_len(&u.decls);
    }
}

/// The type-system triage signal: generic-bound arities, trait-object
/// parameters, and internal traits.
pub open spec fn type_decl_sig(dcl: Declaration) -> nat {
    match dcl {
        Declaration::Function(f) => f.generics@.len() + f.params@.len(),
        Declaration::Trait(t) => 1nat,
        _ => 0nat,
    }
}

pub open spec fn type_sig_upto(u: CompilationUnit, upto: int) -> nat
    decreases upto,
{
    if upto <= 0 {
        0nat
    } else {
        type_sig_upto(u, upto - 1) + type_decl_sig(u.decls@[upto - 1])
    }
}

/// The unit's type-system triage signal.
pub open spec fn type_signal(u: CompilationUnit) -> nat {
    type_sig_upto(u, u.decls@.len() as int)
}

} // verus!
