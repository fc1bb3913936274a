//! The borrowing/lifetime detector: unnecessary or over-parameterized
//! lifetimes, self-referential aggregates, unsound lifetime merges, and
//! owned parameters that only dodge a borrow.

use vstd::prelude::*;
use crate::model::{CompilationUnit, Declaration, FunctionDecl, StructDecl, TypeShape};
use crate::config::AnalysisConfig;
use crate::finding::{
    decl_finding, Finding, Domain, Severity, Confidence, RULE_UNNECESSARY_LIFETIME,
    RULE_OVER_PARAMETERIZED_LIFETIMES, RULE_SELF_REFERENCE, RULE_LIFETIME_MERGE,
    RULE_OWNED_FOR_BORROW,
};

verus! {

/// A named lifetime parameter that appears exactly once and relates to
/// nothing can be elided away.
pub open spec fn unnecessary_lifetime_fires(f: FunctionDecl) -> bool {
    exists|i: int|
        0 <= i < f.lifetimes@.len() && (#[trigger] f.lifetimes@[i]).uses == 1
            && !f.lifetimes@[i].related
}

/// Confidence upgrades when some such lifetime is provably elidable.
pub open spec fn unnecessary_lifetime_confidence(f: FunctionDecl) -> Confidence {
    if exists|i: int|
        0 <= i < f.lifetimes@.len() && (#[trigger] f.lifetimes@[i]).uses == 1
            && !f.lifetimes@[i].related && f.lifetimes@[i].elidable {
        Confidence::Likely
    } else {
        Confidence::Possible
    }
}

/// Several independent lifetime parameters with no documented relation.
pub open spec fn over_param_fires(f: FunctionDecl, cfg: AnalysisConfig) -> bool {
    &&& f.lifetimes@.len() >= cfg.lifetime_many
    &&& forall|i: int| 0 <= i < f.lifetimes@.len() ==> !(#[trigger] f.lifetimes@[i]).related
}

/// A field that is a pointer or reference into data owned by the same
/// aggregate: structurally unrealizable without pinning or boxing, so it
/// is flagged regardless of documentation.
pub open spec fn self_reference_fires(s: StructDecl, d: int) -> bool {
    exists|i: int|
        0 <= i < s.fields@.len() && match (#[trigger] s.fields@[i]).ty {
            TypeShape::Reference { pointee_owner } => pointee_owner == Option::Some(d as usize),
            TypeShape::RawPointer { pointee_owner } => pointee_owner == Option::Some(d as usize),
            _ => false,
        }
}

/// A returned borrow bound to two or more input lifetimes, none of which
/// is related to anything by a declared common bound.
pub open spec fn lifetime_merge_fires(f: FunctionDecl) -> bool {
    &&& f.ret.is_borrow
    &&& f.ret_bound_lifetimes@.len() >= 2
    &&& forall|i: int|
        0 <= i < f.ret_bound_lifetimes@.len() && f.ret_bound_lifetimes@[i] < f.lifetimes@.len()
            ==> !(#[trigger] f.lifetimes@[f.ret_bound_lifetimes@[i] as int]).related
}

/// A parameter taken by ownership though the body only reads it.
pub open spec fn owned_for_borrow_fires(f: FunctionDecl) -> bool {
    exists|i: int|
        0 <= i < f.params@.len() && (#[trigger] f.params@[i]).owned && !f.params@[i].consumed
}

pub open spec fn borrow_fn_findings(f: FunctionDecl, cfg: AnalysisConfig, d: int) -> Seq<Finding> {
    (if unnecessary_lifetime_fires(f) {
        seq![
            decl_finding(
                RULE_UNNECESSARY_LIFETIME,
                Domain::Borrowing,
                Severity::Warning,
                unnecessary_lifetime_confidence(f),
                d,
            ),
        ]
    } else {
        seq![]
    }) + (if over_param_fires(f, cfg) {
        seq![
            decl_finding(
                RULE_OVER_PARAMETERIZED_LIFETIMES,
                Domain::Borrowing,
                Severity::Warning,
                Confidence::Possible,
                d,
            ),
        ]
    } else {
        seq![]
    }) + (if lifetime_merge_fires(f) {
        seq![
            decl_finding(
                RULE_LIFETIME_MERGE,
                Domain::Borrowing,
                Severity::Critical,
                Confidence::Likely,
                d,
            ),
        ]
    } else {
        seq![]
    }) + (if owned_for_borrow_fires(f) {
        seq![
            decl_finding(
                RULE_OWNED_FOR_BORROW,
                Domain::Borrowing,
                Severity::Info,
                Confidence::Possible,
                d,
            ),
        ]
    } else {
        seq![]
    })
}

pub open spec fn borrow_struct_findings(s: StructDecl, d: int) -> Seq<Finding> {
    if self_reference_fires(s, d) {
        seq![
            decl_finding(
                RULE_SELF_REFERENCE,
                Domain::Borrowing,
                Severity::Critical,
                Confidence::Definite,
                d,
            ),
        ]
    } else {
        seq![]
    }
}

pub open spec fn borrow_decl_findings(u: CompilationUnit, cfg: AnalysisConfig, d: int) -> Seq<
    Finding,
> {
    match u.decls@[d] {
        Declaration::Function(f) => borrow_fn_findings(f, cfg, d),
        Declaration::Struct(s) => borrow_struct_findings(s, d),
        _ => seq![],
    }
}

pub open spec fn borrow_findings_upto(u: CompilationUnit, cfg: AnalysisConfig, upto: int) -> Seq<
    Finding,
>
    decreases upto,
{
    if upto <= 0 {
        seq![]
    } else {
        borrow_findings_upto(u, cfg, upto - 1) + borrow_decl_findings(u, cfg, upto - 1)
    }
}

/// The borrowing detector's findings for a whole unit.
pub open spec fn borrow_findings(u: CompilationUnit, cfg: AnalysisConfig) -> Seq<Finding> {
    borrow_findings_upto(u, cfg, u.decls@.len() as int)
}

// --- executable matchers ---------------------------------------------------

fn unnecessary_lifetime_at(f: &FunctionDecl) -> (r: (bool, Confidence))
    ensures
        r.0 == unnecessary_lifetime_fires(*f),
        r.1 == unnecessary_lifetime_confidence(*f),
{
    let n = f.lifetimes.len();
    let mut fires = false;
    let mut elidable = false;
    let mut i: usize = 0;
    while i < n
        invariant
            i <= n,
            n == f.lifetimes@.len(),
            fires == exists|q: int|
                0 <= q < i && (#[trigger] f.lifetimes@[q]).uses == 1 && !f.lifetimes@[q].related,
            elidable == exists|q: int|
                0 <= q < i && (#[trigger] f.lifetimes@[q]).uses == 1 && !f.lifetimes@[q].related
                    && f.lifetimes@[q].elidable,
        decreases n - i,
    {
        let lt = f.lifetimes[i];
        if lt.uses == 1 && !lt.related {
            fires = true;
            if lt.elidable {
                elidable = true;
            }
        }
        i = i + 1;
    }
    (
        fires,
        if elidable {
            Confidence::Likely
        } else {
            Confidence::Possible
        },
    )
}

fn over_param_at(f: &FunctionDecl, cfg: &AnalysisConfig) -> (r: bool)
    ensures
        r == over_param_fires(*f, *cfg),
{
    if (f.lifetimes.len() as u64) < (cfg.lifetime_many as u64) {
        return false;
    }
    let n = f.lifetimes.len();
    let mut i: usize = 0;
    while i < n
        invariant
            i <= n,
            n == f.lifetimes@.len(),
            forall|q: int| 0 <= q < i ==> !(#[trigger] f.lifetimes@[q]).related,
        decreases n - i,
    {
        if f.lifetimes[i].related {
            return false;
        }
        i = i + 1;
    }
    true
}

fn self_reference_at(s: &StructDecl, d: usize) -> (r: bool)
    ensures
        r == self_reference_fires(*s, d as int),
{
    let n = s.fields.len();
    let mut i: usize = 0;
    while i < n
        invariant
            i <= n,
            n == s.fields@.len(),
            forall|q: int|
                0 <= q < i ==> !(match (#[trigger] s.fields@[q]).ty {
                    TypeShape::Reference { pointee_owner } => pointee_owner == Option::Some(d),
                    TypeShape::RawPointer { pointee_owner } => pointee_owner == Option::Some(d),
                    _ => false,
                }),
        decreases n - i,
    {
        let hit = match s.fields[i].ty {
            TypeShape::Reference { pointee_owner } => match pointee_owner {
                Option::Some(o) => o == d,
                Option::None => false,
            },
            TypeShape::RawPointer { pointee_owner } => match pointee_owner {
                Option::Some(o) => o == d,
                Option::None => false,
            },
            _ => false,
        };
        if hit {
            return true;
        }
        i = i + 1;
    }
    false
}

fn lifetime_merge_at(f: &FunctionDecl) -> (r: bool)
    ensures
        r == lifetime_merge_fires(*f),
{
    if !f.ret.is_borrow || f.ret_bound_lifetimes.len() < 2 {
        return false;
    }
    let n = f.ret_bound_lifetimes.len();
    let mut i: usize = 0;
    while i < n
        invariant
            i <= n,
            n == f.ret_bound_lifetimes@.len(),
            forall|q: int|
                0 <= q < i && f.ret_bound_lifetimes@[q] < f.lifetimes@.len() ==> !(
                #[trigger] f.lifetimes@[f.ret_bound_lifetimes@[q] as int]).related,
        decreases n - i,
    {
        let idx = f.ret_bound_lifetimes[i];
        if idx < f.lifetimes.len() {
            if f.lifetimes[idx].related {
                return false;
            }
        }
        i = i + 1;
    }
    true
}

fn owned_for_borrow_at(f: &FunctionDecl) -> (r: bool)
    ensures
        r == owned_for_borrow_fires(*f),
{
    let n = f.params.len();
    let mut i: usize = 0;
    while i < n
        invariant
            i <= n,
            n == f.params@.len(),
            forall|q: int| 0 <= q < i ==> !((#[trigger] f.params@[q]).owned && !f.params@[q].consumed),
        decreases n - i,
    {
        if f.params[i].owned && !f.params[i].consumed {
            return true;
        }
        i = i + 1;
    }
    false
}

/// Run the borrowing detector over a unit.
pub fn detect_borrowing(u: &CompilationUnit, cfg: &AnalysisConfig) -> (r: Vec<Finding>)
    requires
        u.wf(),
    ensures
        r@ == borrow_findings(*u, *cfg),
{
    let n = u.decls.len();
    let mut out: Vec<Finding> = Vec::new();
    let mut d: usize = 0;
    while d < n
        invariant
            d <= n,
            n == u.decls@.len(),
            out@ == borrow_findings_upto(*u, *cfg, d as int),
        decreases n - d,
    {
        match &u.decls[d] {
            Declaration::Function(f) => {
                let (fires, conf) = unnecessary_lifetime_at(f);
                if fires {
                    out.push(
                        Finding {
                            rule_id: RULE_UNNECESSARY_LIFETIME,
                            domain: Domain::Borrowing,
                            severity: Severity::Warning,
                            confidence: conf,
                            decl: d,
                            stmt_offset: Option::None,
                        },
                    );
                }
                if over_param_at(f, cfg) {
                    out.push(
                        Finding {
                            rule_id: RULE_OVER_PARAMETERIZED_LIFETIMES,
                            domain: Domain::Borrowing,
                            severity: Severity::Warning,
                            confidence: Confidence::Possible,
                            decl: d,
                            stmt_offset: Option::None,
                        },
                    );
                }
                if lifetime_merge_at(f) {
                    out.push(
                        Finding {
                            rule_id: RULE_LIFETIME_MERGE,
                            domain: Domain::Borrowing,
                            severity: Severity::Critical,
                            confidence: Confidence::Likely,
                            decl: d,
                            stmt_offset: Option::None,
                        },
                    );
                }
                if owned_for_borrow_at(f) {
                    out.push(
                        Finding {
                            rule_id: RULE_OWNED_FOR_BORROW,
                            domain: Domain::Borrowing,
                            severity: Severity::Info,
                            confidence: Confidence::Possible,
                            decl: d,
                            stmt_offset: Option::None,
                        },
                    );
                }
            },
            Declaration::Struct(s) => {
                if self_reference_at(s, d) {
                    out.push(
                        Finding {
                            rule_id: RULE_SELF_REFERENCE,
                            domain: Domain::Borrowing,
                            severity: Severity::Critical,
                            confidence: Confidence::Definite,
                            decl: d,
                            stmt_offset: Option::None,
                        },
                    );
                }
            },
            _ => {},
        }
        proof {
            assert(out@ =~= borrow_findings_upto(*u, *cfg, d + 1));
        }
        d = d + 1;
    }
    out
}

// --- the unnecessary-lifetime law -------------------------------------------

/// A lifetime parameter appearing exactly once, unrelated to any other,
/// always yields an unnecessary-lifetime finding on its function.
pub proof fn lemma_lone_lifetime_flagged(u: CompilationUnit, cfg: AnalysisConfig, d: int, i: int)
    requires
        0 <= d < u.decls@.len(),
        u.decls@[d] matches Declaration::Function(f),
        0 <= i < u.decls@[d]->Function_0.lifetimes@.len(),
        u.decls@[d]->Function_0.lifetimes@[i].uses == 1,
        !u.decls@[d]->Function_0.lifetimes@[i].related,
    ensures
        exists|k: int|
            0 <= k < borrow_findings(u, cfg).len() && (#[trigger] borrow_findings(u, cfg)[k]).rule_id
                == RULE_UNNECESSARY_LIFETIME && borrow_findings(u, cfg)[k].decl == d,
{
    let f = u.decls@[d]->Function_0;
    assert(unnecessary_lifetime_fires(f));
    let target = decl_finding(
        RULE_UNNECESSARY_LIFETIME,
        Domain::Borrowing,
        Severity::Warning,
        unnecessary_lifetime_confidence(f),
        d,
    );
    assert(borrow_decl_findings(u, cfg, d)[0] == target);
    lemma_borrow_decl_in_upto(u, cfg, d, 0, u.decls@.len() as int);
    vstd::std_specs::vec::axiom_spec_len(&u.decls);
    let q = choose|q: int|
        0 <= q < borrow_findings_upto(u, cfg, u.decls@.len() as int).len() && (
        #[trigger] borrow_findings_upto(u, cfg, u.decls@.len() as int)[q])
            == borrow_decl_findings(u, cfg, d)[0];
    assert(borrow_findings(u, cfg) == borrow_findings_upto(u, cfg, u.decls@.len() as int));
    assert(borrow_findings(u, cfg)[q].rule_id == RULE_UNNECESSARY_LIFETIME);
    assert(borrow_findings(u, cfg)[q].decl == d);
}

/// A lifetime shared by related inputs and outputs never yields one: when
/// every lifetime of the function is either used more than once or
/// related, the detector emits no unnecessary-lifetime finding for it.
pub proof fn lemma_shared_lifetime_unflagged(u: CompilationUnit, cfg: AnalysisConfig, d: int)
    requires
        0 <= d < u.decls@.len(),
        u.decls@[d] matches Declaration::Function(f),
        forall|i: int|
            0 <= i < u.decls@[d]->Function_0.lifetimes@.len() ==> (
            #[trigger] u.decls@[d]->Function_0.lifetimes@[i]).uses != 1
                || u.decls@[d]->Function_0.lifetimes@[i].related,
    ensures
        forall|k: int|
            0 <= k < borrow_findings(u, cfg).len() && (#[trigger] borrow_findings(u, cfg)[k]).decl
                == d ==> borrow_findings(u, cfg)[k].rule_id != RULE_UNNECESSARY_LIFETIME,
{
    let f = u.decls@[d]->Function_0;
    assert(!unnecessary_lifetime_fires(f));
    lemma_borrow_findings_decls(u, cfg, u.decls@.len() as int);
}

/// Index arithmetic: a finding of one declaration's sequence stands in
/// the unit's sequence.
proof fn lemma_borrow_decl_in_upto(
    u: CompilationUnit,
    cfg: AnalysisConfig,
    d: int,
    k: int,
    upto: int,
)
    requires
        0 <= d < upto,
        0 <= k < borrow_decl_findings(u, cfg, d).len(),
    ensures
        exists|q: int|
            0 <= q < borrow_findings_upto(u, cfg, upto).len() && (#[trigger] borrow_findings_upto(
                u,
                cfg,
                upto,
            )[q]) == borrow_decl_findings(u, cfg, d)[k],
    decreases upto,
{
    if d == upto - 1 {
        let q = borrow_findings_upto(u, cfg, upto - 1).len() + k;
        assert(borrow_findings_upto(u, cfg, upto)[q] == borrow_decl_findings(u, cfg, d)[k]);
    } else {
        lemma_borrow_decl_in_upto(u, cfg, d, k, upto - 1);
        let q = choose|q: int|
            0 <= q < borrow_findings_upto(u, cfg, upto - 1).len() && (#[trigger] borrow_findings_upto(
                u,
                cfg,
                upto - 1,
            )[q]) == borrow_decl_findings(u, cfg, d)[k];
        assert(borrow_findings_upto(u, cfg, upto)[q] == borrow_decl_findings(u, cfg, d)[k]);
    }
}

/// Every finding of the detector carries the Borrowing domain, a
/// declaration id that resolves, and only fires where its rule holds of
/// that very declaration.
pub proof fn lemma_borrow_findings_decls(u: CompilationUnit, cfg: AnalysisConfig, upto: int)
    requires
        0 <= upto <= u.decls@.len(),
    ensures
        forall|k: int|
            0 <= k < borrow_findings_upto(u, cfg, upto).len() ==> {
                let e = #[trigger] borrow_findings_upto(u, cfg, upto)[k];
                &&& e.domain is Borrowing
                &&& e.decl < upto
                &&& borrow_decl_findings(u, cfg, e.decl as int).contains(e)
            },
    decreases upto,
{
    if upto > 0 {
        lemma_borrow_findings_decls(u, cfg, upto - 1);
        let prev = borrow_findings_upto(u, cfg, upto - 1);
        let cur = borrow_decl_findings(u, cfg, upto - 1);
        assert forall|k: int|
            0 <= k < borrow_findings_upto(u, cfg, upto).len() implies {
            let e = #[trigger] borrow_findings_upto(u, cfg, upto)[k];
            &&& e.domain is Borrowing
            &&& e.decl < upto
            &&& borrow_decl_findings(u, cfg, e.decl as int).contains(e)
        } by {
            vstd::std_specs::vec::axiom_spec_len(&u.decls);
            let e = borrow_findings_upto(u, cfg, upto)[k];
            if k < prev.len() {
                assert(e == prev[k]);
            } else {
                assert(e == cur[k - prev.len()]);
                assert(e.decl == upto - 1);
                assert(borrow_decl_findings(u, cfg, upto - 1).contains(e));
            }
        }
    }
}

// --- the detector's triage signal ------------------------------------------

/// A field whose shape the borrowing rules read.
pub open spec fn borrow_field_sig(t: TypeShape) -> nat {
    match t {
        TypeShape::Reference { .. } => 1nat,
        TypeShape::RawPointer { .. } => 1nat,
        _ => 0nat,
    }
}

pub open spec fn borrow_fields_sig(s: StructDecl, upto: int) -> nat
    decreases upto,
{
    if upto <= 0 {
        0nat
    } else {
        borrow_fields_sig(s, upto - 1) + borrow_field_sig(s.fields@[upto - 1].ty)
    }
}

/// The borrowing triage signal of one declaration: lifetime parameters
/// per signature, plus reference-shaped fields.
pub open spec fn borrow_decl_sig(dcl: Declaration) -> nat {
    match dcl {
        Declaration::Function(f) => f.lifetimes@.len() as nat,
        Declaration::Struct(s) => borrow_fields_sig(s, s.fields@.len() as int),
        _ => 0nat,
    }
}

pub open spec fn borrow_sig_upto(u: CompilationUnit, upto: int) -> nat
    decreases upto,
{
    if upto <= 0 {
        0nat
    } else {
        borrow_sig_upto(u, upto - 1) + borrow_decl_sig(u.decls@[upto - 1])
    }
}

/// The unit's borrowing triage signal.
pub open spec fn borrow_signal(u: CompilationUnit) -> nat {
    borrow_sig_upto(u, u.decls@.len() as int)
}

proof fn lemma_borrow_fields_sig_pos(s: StructDecl, i: int, upto: int)
    requires
        0 <= i < upto,
        borrow_field_sig(s.fields@[i].ty) > 0,
    ensures
        borrow_fields_sig(s, upto) > 0,
    decreases upto,
{
    if i < upto - 1 {
        lemma_borrow_fields_sig_pos(s, i, upto - 1);
    }
}

proof fn lemma_borrow_sig_upto_pos(u: CompilationUnit, d: int, upto: int)
    requires
        0 <= d < upto,
        borrow_decl_sig(u.decls@[d]) > 0,
    ensures
        borrow_sig_upto(u, upto) > 0,
    decreases upto,
{
    if d < upto - 1 {
        lemma_borrow_sig_upto_pos(u, d, upto - 1);
    }
}

/// Router soundness, borrowing half: a Critical borrowing finding forces
/// a positive borrowing signal.
pub proof fn lemma_borrow_critical_needs_signal(u: CompilationUnit, cfg: AnalysisConfig, k: int)
    requires
        u.wf(),
        0 <= k < borrow_findings(u, cfg).len(),
        borrow_findings(u, cfg)[k].severity is Critical,
    ensures
        borrow_signal(u) > 0,
{
    let n = u.decls@.len() as int;
    lemma_borrow_findings_decls(u, cfg, n);
    let e = borrow_findings(u, cfg)[k];
    let d = e.decl as int;
    match u.decls@[d] {
        Declaration::Function(f) => {
            // only the lifetime-merge rule is Critical here; well-formed
            // bindings give two distinct lifetime indices.
            assert(lifetime_merge_fires(f)) by {
                if !lifetime_merge_fires(f) {
                    assert(borrow_decl_findings(u, cfg, d).contains(e));
                    assert(false);
                }
            }
            assert(crate::model::fn_wf(f, u.decls@.len() as int));
            assert(f.ret_bound_lifetimes@[0] != f.ret_bound_lifetimes@[1]);
            assert(f.lifetimes@.len() >= 1);
            lemma_borrow_sig_upto_pos(u, d, n);
        },
        Declaration::Struct(s) => {
            assert(self_reference_fires(s, d)) by {
                if !self_reference_fires(s, d) {
                    assert(borrow_decl_findings(u, cfg, d).contains(e));
                    assert(false);
                }
            }
            let i = choose|i: int|
                0 <= i < s.fields@.len() && match (#[trigger] s.fields@[i]).ty {
                    TypeShape::Reference { pointee_owner } => pointee_owner == Option::Some(
                        d as usize,
                    ),
                    TypeShape::RawPointer { pointee_owner } => pointee_owner == Option::Some(
                        d as usize,
                    ),
                    _ => false,
                };
            lemma_borrow_fields_sig_pos(s, i, s.fields@.len() as int);
            lemma_borrow_sig_upto_pos(u, d, n);
        },
        _ => {
            assert(borrow_decl_findings(u, cfg, d).contains(e));
            assert(false);
        },
    }
}

} // verus!
