//! The systems/unsafe detector: undocumented unsafe operations, stale
//! pointers, unguarded pointer arithmetic, dangling FFI captures,
//! unchecked size arithmetic, and safety claims contradicted by the
//! constructing code.

use vstd::prelude::*;
use crate::model::{CompilationUnit, Declaration, FunctionDecl, StmtKind, PtrProvenance};
use crate::finding::{
    stmt_finding, Finding, Domain, Severity, Confidence, RULE_UNDOCUMENTED_UNSAFE,
    RULE_USE_AFTER_FREE, RULE_UNGUARDED_PTR_ARITH, RULE_DANGLING_FFI, RULE_UNCHECKED_SIZE_MUL,
    RULE_MISLEADING_SAFETY,
};

verus! {

/// An unsafe operation with an attached precondition: for a dereference,
/// a documented claim backed by entry validation; for arithmetic and
/// reinterpretation, the documented precondition itself.
pub open spec fn undocumented_fires(f: FunctionDecl, j: int) -> bool {
    match f.stmts@[j].kind {
        StmtKind::PtrDeref { documented, provenance, source_owner } => !(documented && provenance
            is Validated),
        StmtKind::PtrArith { documented, guarded } => !documented,
        StmtKind::Reinterpret { documented } => !documented,
        _ => false,
    }
}

/// The scope owning the dereferenced data has already ended.
pub open spec fn uaf_fires(f: FunctionDecl, j: int) -> bool {
    &&& f.stmts@[j].kind matches StmtKind::PtrDeref {
        documented,
        provenance,
        source_owner: Option::Some(o),
    }
    &&& exists|i: int|
        0 <= i < j && ((#[trigger] f.stmts@[i]).kind matches StmtKind::ScopeEnd { owner }
            && owner == o)
}

pub open spec fn ptr_arith_fires(f: FunctionDecl, j: int) -> bool {
    f.stmts@[j].kind matches StmtKind::PtrArith { documented, guarded } && !guarded
}

pub open spec fn ffi_fires(f: FunctionDecl, j: int) -> bool {
    f.stmts@[j].kind matches StmtKind::FfiCall { passes_borrowed, lifetime_tied }
        && passes_borrowed && !lifetime_tied
}

pub open spec fn size_mul_fires(f: FunctionDecl, j: int) -> bool {
    f.stmts@[j].kind matches StmtKind::SizeMul { checked } && !checked
}

/// A documented safety claim over a pointer known to be built from a null
/// or zeroed value: distinct from, and graver than, a missing comment.
pub open spec fn misleading_fires(f: FunctionDecl, j: int) -> bool {
    f.stmts@[j].kind matches StmtKind::PtrDeref { documented, provenance, source_owner }
        && documented && provenance is KnownInvalid
}

pub open spec fn undocumented_seq(f: FunctionDecl, d: int, upto: int) -> Seq<Finding>
    decreases upto,
{
    if upto <= 0 {
        seq![]
    } else {
        undocumented_seq(f, d, upto - 1) + if undocumented_fires(f, upto - 1) {
            seq![
                stmt_finding(
                    RULE_UNDOCUMENTED_UNSAFE,
                    Domain::Systems,
                    Severity::Critical,
                    Confidence::Likely,
                    d,
                    upto - 1,
                ),
            ]
        } else {
            seq![]
        }
    }
}

pub open spec fn uaf_seq(f: FunctionDecl, d: int, upto: int) -> Seq<Finding>
    decreases upto,
{
    if upto <= 0 {
        seq![]
    } else {
        uaf_seq(f, d, upto - 1) + if uaf_fires(f, upto - 1) {
            seq![
                stmt_finding(
                    RULE_USE_AFTER_FREE,
                    Domain::Systems,
                    Severity::Critical,
                    Confidence::Likely,
                    d,
                    upto - 1,
                ),
            ]
        } else {
            seq![]
        }
    }
}

pub open spec fn ptr_arith_seq(f: FunctionDecl, d: int, upto: int) -> Seq<Finding>
    decreases upto,
{
    if upto <= 0 {
        seq![]
    } else {
        ptr_arith_seq(f, d, upto - 1) + if ptr_arith_fires(f, upto - 1) {
            seq![
                stmt_finding(
                    RULE_UNGUARDED_PTR_ARITH,
                    Domain::Systems,
                    Severity::Critical,
                    Confidence::Likely,
                    d,
                    upto - 1,
                ),
            ]
        } else {
            seq![]
        }
    }
}

pub open spec fn ffi_seq(f: FunctionDecl, d: int, upto: int) -> Seq<Finding>
    decreases upto,
{
    if upto <= 0 {
        seq![]
    } else {
        ffi_seq(f, d, upto - 1) + if ffi_fires(f, upto - 1) {
            seq![
                stmt_finding(
                    RULE_DANGLING_FFI,
                    Domain::Systems,
                    Severity::Critical,
                    Confidence::Likely,
                    d,
                    upto - 1,
                ),
            ]
        } else {
            seq![]
        }
    }
}

pub open spec fn size_mul_seq(f: FunctionDecl, d: int, upto: int) -> Seq<Finding>
    decreases upto,
{
    if upto <= 0 {
        seq![]
    } else {
        size_mul_seq(f, d, upto - 1) + if size_mul_fires(f, upto - 1) {
            seq![
                stmt_finding(
                    RULE_UNCHECKED_SIZE_MUL,
                    Domain::Systems,
                    Severity::Warning,
                    Confidence::Likely,
                    d,
                    upto - 1,
                ),
            ]
        } else {
            seq![]
        }
    }
}

pub open spec fn misleading_seq(f: FunctionDecl, d: int, upto: int) -> Seq<Finding>
    decreases upto,
{
    if upto <= 0 {
        seq![]
    } else {
        misleading_seq(f, d, upto - 1) + if misleading_fires(f, upto - 1) {
            seq![
                stmt_finding(
                    RULE_MISLEADING_SAFETY,
                    Domain::Systems,
                    Severity::Critical,
                    Confidence::Definite,
                    d,
                    upto - 1,
                ),
            ]
        } else {
            seq![]
        }
    }
}

/// Everything the detector says about one function, in rule order.
pub open spec fn sys_fn_findings(f: FunctionDecl, d: int) -> Seq<Finding> {
    let n = f.stmts@.len() as int;
    undocumented_seq(f, d, n) + uaf_seq(f, d, n) + ptr_arith_seq(f, d, n) + ffi_seq(f, d, n)
        + size_mul_seq(f, d, n) + misleading_seq(f, d, n)
}

pub open spec fn sys_decl_findings(u: CompilationUnit, d: int) -> Seq<Finding> {
    match u.decls@[d] {
        Declaration::Function(f) => sys_fn_findings(f, d),
        _ => seq![],
    }
}

pub open spec fn sys_findings_upto(u: CompilationUnit, upto: int) -> Seq<Finding>
    decreases upto,
{
    if upto <= 0 {
        seq![]
    } else {
        sys_findings_upto(u, upto - 1) + sys_decl_findings(u, upto - 1)
    }
}

/// The systems detector's findings for a whole unit.
pub open spec fn sys_findings(u: CompilationUnit) -> Seq<Finding> {
    sys_findings_upto(u, u.decls@.len() as int)
}

// --- executable matchers ---------------------------------------------------

fn undocumented_at(f: &FunctionDecl, j: usize) -> (b: bool)
    requires
        j < f.stmts@.len(),
    ensures
        b == undocumented_fires(*f, j as int),
{
    match f.stmts[j].kind {
        StmtKind::PtrDeref { documented, provenance, source_owner } => !(documented && match provenance {
            PtrProvenance::Validated => true,
            _ => false,
        }),
        StmtKind::PtrArith { documented, guarded } => !documented,
        StmtKind::Reinterpret { documented } => !documented,
        _ => false,
    }
}

fn uaf_at(f: &FunctionDecl, j: usize) -> (b: bool)
    requires
        j < f.stmts@.len(),
    ensures
        b == uaf_fires(*f, j as int),
{
    let o = match f.stmts[j].kind {
        StmtKind::PtrDeref { documented, provenance, source_owner } => match source_owner {
            Option::Some(o) => o,
            Option::None => {
                return false;
            },
        },
        _ => {
            return false;
        },
    };
    let mut i: usize = 0;
    while i < j
        invariant
            i <= j,
            j < f.stmts@.len(),
            f.stmts@[j as int].kind matches StmtKind::PtrDeref {
                documented,
                provenance,
                source_owner: Option::Some(o2),
            } && o2 == o,
            forall|q: int|
                0 <= q < i ==> !((#[trigger] f.stmts@[q]).kind matches StmtKind::ScopeEnd { owner }
                    && owner == o),
        decreases j - i,
    {
        let ends = match f.stmts[i].kind {
            StmtKind::ScopeEnd { owner } => owner == o,
            _ => false,
        };
        if ends {
            return true;
        }
        i = i + 1;
    }
    false
}

fn ptr_arith_at(f: &FunctionDecl, j: usize) -> (b: bool)
    requires
        j < f.stmts@.len(),
    ensures
        b == ptr_arith_fires(*f, j as int),
{
    match f.stmts[j].kind {
        StmtKind::PtrArith { documented, guarded } => !guarded,
        _ => false,
    }
}

fn ffi_at(f: &FunctionDecl, j: usize) -> (b: bool)
    requires
        j < f.stmts@.len(),
    ensures
        b == ffi_fires(*f, j as int),
{
    match f.stmts[j].kind {
        StmtKind::FfiCall { passes_borrowed, lifetime_tied } => passes_borrowed && !lifetime_tied,
        _ => false,
    }
}

fn size_mul_at(f: &FunctionDecl, j: usize) -> (b: bool)
    requires
        j < f.stmts@.len(),
    ensures
        b == size_mul_fires(*f, j as int),
{
    match f.stmts[j].kind {
        StmtKind::SizeMul { checked } => !checked,
        _ => false,
    }
}

fn misleading_at(f: &FunctionDecl, j: usize) -> (b: bool)
    requires
        j < f.stmts@.len(),
    ensures
        b == misleading_fires(*f, j as int),
{
    match f.stmts[j].kind {
        StmtKind::PtrDeref { documented, provenance, source_owner } => documented && match provenance {
            PtrProvenance::KnownInvalid => true,
            _ => false,
        },
        _ => false,
    }
}

fn scan_undocumented(f: &FunctionDecl, d: usize, out: &mut Vec<Finding>)
    ensures
        final(out)@ == old(out)@ + undocumented_seq(*f, d as int, f.stmts@.len() as int),
{
    let n = f.stmts.len();
    let mut j: usize = 0;
    while j < n
        invariant
            j <= n,
            n == f.stmts@.len(),
            out@ == old(out)@ + undocumented_seq(*f, d as int, j as int),
        decreases n - j,
    {
        if undocumented_at(f, j) {
            out.push(
                Finding {
                    rule_id: RULE_UNDOCUMENTED_UNSAFE,
                    domain: Domain::Systems,
                    severity: Severity::Critical,
                    confidence: Confidence::Likely,
                    decl: d,
                    stmt_offset: Option::Some(j),
                },
            );
        }
        proof {
            assert(out@ =~= old(out)@ + undocumented_seq(*f, d as int, j + 1));
        }
        j = j + 1;
    }
}

fn scan_uaf(f: &FunctionDecl, d: usize, out: &mut Vec<Finding>)
    ensures
        final(out)@ == old(out)@ + uaf_seq(*f, d as int, f.stmts@.len() as int),
{
    let n = f.stmts.len();
    let mut j: usize = 0;
    while j < n
        invariant
            j <= n,
            n == f.stmts@.len(),
            out@ == old(out)@ + uaf_seq(*f, d as int, j as int),
        decreases n - j,
    {
        if uaf_at(f, j) {
            out.push(
                Finding {
                    rule_id: RULE_USE_AFTER_FREE,
                    domain: Domain::Systems,
                    severity: Severity::Critical,
                    confidence: Confidence::Likely,
                    decl: d,
                    stmt_offset: Option::Some(j),
                },
            );
        }
        proof {
            assert(out@ =~= old(out)@ + uaf_seq(*f, d as int, j + 1));
        }
        j = j + 1;
    }
}

fn scan_ptr_arith(f: &FunctionDecl, d: usize, out: &mut Vec<Finding>)
    ensures
        final(out)@ == old(out)@ + ptr_arith_seq(*f, d as int, f.stmts@.len() as int),
{
    let n = f.stmts.len();
    let mut j: usize = 0;
    while j < n
        invariant
            j <= n,
            n == f.stmts@.len(),
            out@ == old(out)@ + ptr_arith_seq(*f, d as int, j as int),
        decreases n - j,
    {
        if ptr_arith_at(f, j) {
            out.push(
                Finding {
                    rule_id: RULE_UNGUARDED_PTR_ARITH,
                    domain: Domain::Systems,
                    severity: Severity::Critical,
                    confidence: Confidence::Likely,
                    decl: d,
                    stmt_offset: Option::Some(j),
                },
            );
        }
        proof {
            assert(out@ =~= old(out)@ + ptr_arith_seq(*f, d as int, j + 1));
        }
        j = j + 1;
    }
}

fn scan_ffi(f: &FunctionDecl, d: usize, out: &mut Vec<Finding>)
    ensures
        final(out)@ == old(out)@ + ffi_seq(*f, d as int, f.stmts@.len() as int),
{
    let n = f.stmts.len();
    let mut j: usize = 0;
    while j < n
        invariant
            j <= n,
            n == f.stmts@.len(),
            out@ == old(out)@ + ffi_seq(*f, d as int, j as int),
        decreases n - j,
    {
        if ffi_at(f, j) {
            out.push(
                Finding {
                    rule_id: RULE_DANGLING_FFI,
                    domain: Domain::Systems,
                    severity: Severity::Critical,
                    confidence: Confidence::Likely,
                    decl: d,
                    stmt_offset: Option::Some(j),
                },
            );
        }
        proof {
            assert(out@ =~= old(out)@ + ffi_seq(*f, d as int, j + 1));
        }
        j = j + 1;
    }
}

fn scan_size_mul(f: &FunctionDecl, d: usize, out: &mut Vec<Finding>)
    ensures
        final(out)@ == old(out)@ + size_mul_seq(*f, d as int, f.stmts@.len() as int),
{
    let n = f.stmts.len();
    let mut j: usize = 0;
    while j < n
        invariant
            j <= n,
            n == f.stmts@.len(),
            out@ == old(out)@ + size_mul_seq(*f, d as int, j as int),
        decreases n - j,
    {
        if size_mul_at(f, j) {
            out.push(
                Finding {
                    rule_id: RULE_UNCHECKED_SIZE_MUL,
                    domain: Domain::Systems,
                    severity: Severity::Warning,
                    confidence: Confidence::Likely,
                    decl: d,
                    stmt_offset: Option::Some(j),
                },
            );
        }
        proof {
            assert(out@ =~= old(out)@ + size_mul_seq(*f, d as int, j + 1));
        }
        j = j + 1;
    }
}

fn scan_misleading(f: &FunctionDecl, d: usize, out: &mut Vec<Finding>)
    ensures
        final(out)@ == old(out)@ + misleading_seq(*f, d as int, f.stmts@.len() as int),
{
    let n = f.stmts.len();
    let mut j: usize = 0;
    while j < n
        invariant
            j <= n,
            n == f.stmts@.len(),
            out@ == old(out)@ + misleading_seq(*f, d as int, j as int),
        decreases n - j,
    {
        if misleading_at(f, j) {
            out.push(
                Finding {
                    rule_id: RULE_MISLEADING_SAFETY,
                    domain: Domain::Systems,
                    severity: Severity::Critical,
                    confidence: Confidence::Definite,
                    decl: d,
                    stmt_offset: Option::Some(j),
                },
            );
        }
        proof {
            assert(out@ =~= old(out)@ + misleading_seq(*f, d as int, j + 1));
        }
        j = j + 1;
    }
}

/// Run the systems detector over a unit.
pub fn detect_systems(u: &CompilationUnit) -> (r: Vec<Finding>)
    requires
        u.wf(),
    ensures
        r@ == sys_findings(*u),
{
    let n = u.decls.len();
    let mut out: Vec<Finding> = Vec::new();
    let mut d: usize = 0;
    while d < n
        invariant
            d <= n,
            n == u.decls@.len(),
            out@ == sys_findings_upto(*u, d as int),
        decreases n - d,
    {
        match &u.decls[d] {
            Declaration::Function(f) => {
                scan_undocumented(f, d, &mut out);
                scan_uaf(f, d, &mut out);
                scan_ptr_arith(f, d, &mut out);
                scan_ffi(f, d, &mut out);
                scan_size_mul(f, d, &mut out);
                scan_misleading(f, d, &mut out);
            },
            _ => {},
        }
        proof {
            assert(out@ =~= sys_findings_upto(*u, d + 1));
        }
        d = d + 1;
    }
    out
}


// --- characterization of what the detector emits ---------------------------

proof fn lemma_undocumented_seq_elems(f: FunctionDecl, d: int, upto: int)
    requires
        0 <= upto <= f.stmts@.len(),
    ensures
        forall|k: int|
            0 <= k < undocumented_seq(f, d, upto).len() ==> {
                let e = #[trigger] undocumented_seq(f, d, upto)[k];
                &&& e.rule_id == RULE_UNDOCUMENTED_UNSAFE
                &&& e.domain is Systems
                &&& e.severity is Critical
                &&& e.confidence is Likely
                &&& e.decl == d as usize
                &&& e.stmt_offset matches Option::Some(j) && 0 <= j < upto && undocumented_fires(f, j as int)
            },
    decreases upto,
{
    vstd::std_specs::vec::axiom_spec_len(&f.stmts);
    if upto > 0 {
        lemma_undocumented_seq_elems(f, d, upto - 1);
    }
}

proof fn lemma_uaf_seq_elems(f: FunctionDecl, d: int, upto: int)
    requires
        0 <= upto <= f.stmts@.len(),
    ensures
        forall|k: int|
            0 <= k < uaf_seq(f, d, upto).len() ==> {
                let e = #[trigger] uaf_seq(f, d, upto)[k];
                &&& e.rule_id == RULE_USE_AFTER_FREE
                &&& e.domain is Systems
                &&& e.severity is Critical
                &&& e.confidence is Likely
                &&& e.decl == d as usize
                &&& e.stmt_offset matches Option::Some(j) && 0 <= j < upto && uaf_fires(f, j as int)
            },
    decreases upto,
{
    vstd::std_specs::vec::axiom_spec_len(&f.stmts);
    if upto > 0 {
        lemma_uaf_seq_elems(f, d, upto - 1);
    }
}

proof fn lemma_ptr_arith_seq_elems(f: FunctionDecl, d: int, upto: int)
    requires
        0 <= upto <= f.stmts@.len(),
    ensures
        forall|k: int|
            0 <= k < ptr_arith_seq(f, d, upto).len() ==> {
                let e = #[trigger] ptr_arith_seq(f, d, upto)[k];
                &&& e.rule_id == RULE_UNGUARDED_PTR_ARITH
                &&& e.domain is Systems
                &&& e.severity is Critical
                &&& e.confidence is Likely
                &&& e.decl == d as usize
                &&& e.stmt_offset matches Option::Some(j) && 0 <= j < upto && ptr_arith_fires(f, j as int)
            },
    decreases upto,
{
    vstd::std_specs::vec::axiom_spec_len(&f.stmts);
    if upto > 0 {
        lemma_ptr_arith_seq_elems(f, d, upto - 1);
    }
}

proof fn lemma_ffi_seq_elems(f: FunctionDecl, d: int, upto: int)
    requires
        0 <= upto <= f.stmts@.len(),
    ensures
        forall|k: int|
            0 <= k < ffi_seq(f, d, upto).len() ==> {
                let e = #[trigger] ffi_seq(f, d, upto)[k];
                &&& e.rule_id == RULE_DANGLING_FFI
                &&& e.domain is Systems
                &&& e.severity is Critical
                &&& e.confidence is Likely
                &&& e.decl == d as usize
                &&& e.stmt_offset matches Option::Some(j) && 0 <= j < upto && ffi_fires(f, j as int)
            },
    decreases upto,
{
    vstd::std_specs::vec::axiom_spec_len(&f.stmts);
    if upto > 0 {
        lemma_ffi_seq_elems(f, d, upto - 1);
    }
}

proof fn lemma_size_mul_seq_elems(f: FunctionDecl, d: int, upto: int)
    requires
        0 <= upto <= f.stmts@.len(),
    ensures
        forall|k: int|
            0 <= k < size_mul_seq(f, d, upto).len() ==> {
                let e = #[trigger] size_mul_seq(f, d, upto)[k];
                &&& e.rule_id == RULE_UNCHECKED_SIZE_MUL
                &&& e.domain is Systems
                &&& e.severity is Warning
                &&& e.confidence is Likely
                &&& e.decl == d as usize
                &&& e.stmt_offset matches Option::Some(j) && 0 <= j < upto && size_mul_fires(f, j as int)
            },
    decreases upto,
{
    vstd::std_specs::vec::axiom_spec_len(&f.stmts);
    if upto > 0 {
        lemma_size_mul_seq_elems(f, d, upto - 1);
    }
}

proof fn lemma_misleading_seq_elems(f: FunctionDecl, d: int, upto: int)
    requires
        0 <= upto <= f.stmts@.len(),
    ensures
        forall|k: int|
            0 <= k < misleading_seq(f, d, upto).len() ==> {
                let e = #[trigger] misleading_seq(f, d, upto)[k];
                &&& e.rule_id == RULE_MISLEADING_SAFETY
                &&& e.domain is Systems
                &&& e.severity is Critical
                &&& e.confidence is Definite
                &&& e.decl == d as usize
                &&& e.stmt_offset matches Option::Some(j) && 0 <= j < upto && misleading_fires(f, j as int)
            },
    decreases upto,
{
    vstd::std_specs::vec::axiom_spec_len(&f.stmts);
    if upto > 0 {
        lemma_misleading_seq_elems(f, d, upto - 1);
    }
}

/// Every finding the detector emits about a function carries the Systems
/// domain and that function's declaration id.
pub proof fn lemma_sys_fn_findings_shape(f: FunctionDecl, d: int)
    ensures
        forall|k: int|
            0 <= k < sys_fn_findings(f, d).len() ==> (#[trigger] sys_fn_findings(f, d)[k]).domain
                is Systems && sys_fn_findings(f, d)[k].decl == d as usize,
{
    let n = f.stmts@.len() as int;
    vstd::std_specs::vec::axiom_spec_len(&f.stmts);
    lemma_undocumented_seq_elems(f, d, n);
    lemma_uaf_seq_elems(f, d, n);
    lemma_ptr_arith_seq_elems(f, d, n);
    lemma_ffi_seq_elems(f, d, n);
    lemma_size_mul_seq_elems(f, d, n);
    lemma_misleading_seq_elems(f, d, n);
}

/// Every finding of the detector, over a whole unit, carries the Systems
/// domain and a declaration id that resolves in the unit.
pub proof fn lemma_sys_findings_resolve(u: CompilationUnit, upto: int)
    requires
        0 <= upto <= u.decls@.len(),
    ensures
        forall|k: int|
            0 <= k < sys_findings_upto(u, upto).len() ==> (#[trigger] sys_findings_upto(u, upto)[k]).domain
                is Systems && sys_findings_upto(u, upto)[k].decl < upto,
    decreases upto,
{
    if upto > 0 {
        lemma_sys_findings_resolve(u, upto - 1);
        match u.decls@[upto - 1] {
            Declaration::Function(f) => {
                lemma_sys_fn_findings_shape(f, upto - 1);
            },
            _ => {},
        }
    }
}

// --- the validated-dereference law -------------------------------------------

/// Membership for a firing offset of the undocumented-unsafe rule.
proof fn lemma_undocumented_seq_fires(f: FunctionDecl, d: int, j: int, upto: int)
    requires
        0 <= j < upto,
        undocumented_fires(f, j),
    ensures
        undocumented_seq(f, d, upto).contains(
            stmt_finding(
                RULE_UNDOCUMENTED_UNSAFE,
                Domain::Systems,
                Severity::Critical,
                Confidence::Likely,
                d,
                j,
            ),
        ),
    decreases upto,
{
    let target = stmt_finding(
        RULE_UNDOCUMENTED_UNSAFE,
        Domain::Systems,
        Severity::Critical,
        Confidence::Likely,
        d,
        j,
    );
    if j == upto - 1 {
        let s = undocumented_seq(f, d, upto);
        assert(s[s.len() - 1] == target);
    } else {
        lemma_undocumented_seq_fires(f, d, j, upto - 1);
        let prev = undocumented_seq(f, d, upto - 1);
        let k = choose|k: int| 0 <= k < prev.len() && prev[k] == target;
        assert(undocumented_seq(f, d, upto)[k] == target);
    }
}

/// A pointer dereference with a documented, entry-validated precondition,
/// over data whose owning scope has not ended, is never flagged by the
/// systems detector.
pub proof fn lemma_validated_deref_unflagged(f: FunctionDecl, d: int, j: int)
    requires
        0 <= j < f.stmts@.len(),
        f.stmts@[j].kind matches StmtKind::PtrDeref { documented, provenance, source_owner },
        f.stmts@[j].kind->PtrDeref_documented,
        f.stmts@[j].kind->PtrDeref_provenance is Validated,
        forall|i: int|
            0 <= i < j ==> ((#[trigger] f.stmts@[i]).kind matches StmtKind::ScopeEnd { owner }
                ==> f.stmts@[j].kind->PtrDeref_source_owner != Option::Some(owner)),
    ensures
        forall|k: int|
            0 <= k < sys_fn_findings(f, d).len() ==> (#[trigger] sys_fn_findings(f, d)[k]).stmt_offset
                != Option::Some(j as usize),
{
    vstd::std_specs::vec::axiom_spec_len(&f.stmts);
    let n = f.stmts@.len() as int;
    lemma_undocumented_seq_elems(f, d, n);
    lemma_uaf_seq_elems(f, d, n);
    lemma_ptr_arith_seq_elems(f, d, n);
    lemma_ffi_seq_elems(f, d, n);
    lemma_size_mul_seq_elems(f, d, n);
    lemma_misleading_seq_elems(f, d, n);
    assert(!undocumented_fires(f, j));
    assert(!uaf_fires(f, j));
    assert(!ptr_arith_fires(f, j));
    assert(!ffi_fires(f, j));
    assert(!size_mul_fires(f, j));
    assert(!misleading_fires(f, j));
    assert forall|k: int|
        0 <= k < sys_fn_findings(f, d).len() implies (#[trigger] sys_fn_findings(f, d)[k]).stmt_offset
        != Option::Some(j as usize) by {
        let r1 = undocumented_seq(f, d, n);
        let r2 = uaf_seq(f, d, n);
        let r3 = ptr_arith_seq(f, d, n);
        let r4 = ffi_seq(f, d, n);
        let r5 = size_mul_seq(f, d, n);
        let e = sys_fn_findings(f, d)[k];
        if k < r1.len() {
            assert(e == r1[k]);
        } else if k < r1.len() + r2.len() {
            assert(e == r2[k - r1.len()]);
        } else if k < r1.len() + r2.len() + r3.len() {
            assert(e == r3[k - r1.len() - r2.len()]);
        } else if k < r1.len() + r2.len() + r3.len() + r4.len() {
            assert(e == r4[k - r1.len() - r2.len() - r3.len()]);
        } else if k < r1.len() + r2.len() + r3.len() + r4.len() + r5.len() {
            assert(e == r5[k - r1.len() - r2.len() - r3.len() - r4.len()]);
        } else {
            assert(e == misleading_seq(f, d, n)[k - r1.len() - r2.len() - r3.len() - r4.len()
                - r5.len()]);
        }
    }
}

/// The same dereference absent the documentation or the entry validation
/// is always flagged Critical.
pub proof fn lemma_unvalidated_deref_critical(f: FunctionDecl, d: int, j: int)
    requires
        0 <= j < f.stmts@.len(),
        f.stmts@[j].kind matches StmtKind::PtrDeref { documented, provenance, source_owner },
        !(f.stmts@[j].kind->PtrDeref_documented && f.stmts@[j].kind->PtrDeref_provenance is Validated),
    ensures
        sys_fn_findings(f, d).contains(
            stmt_finding(
                RULE_UNDOCUMENTED_UNSAFE,
                Domain::Systems,
                Severity::Critical,
                Confidence::Likely,
                d,
                j,
            ),
        ),
{
    vstd::std_specs::vec::axiom_spec_len(&f.stmts);
    let n = f.stmts@.len() as int;
    assert(undocumented_fires(f, j));
    lemma_undocumented_seq_fires(f, d, j, n);
    let target = stmt_finding(
        RULE_UNDOCUMENTED_UNSAFE,
        Domain::Systems,
        Severity::Critical,
        Confidence::Likely,
        d,
        j,
    );
    let s = undocumented_seq(f, d, n);
    let k = choose|k: int| 0 <= k < s.len() && s[k] == target;
    assert(sys_fn_findings(f, d)[k] == target);
}

/// Index arithmetic: what the detector says of one declaration stands in
/// what it says of the unit.
proof fn lemma_sys_decl_in_upto(u: CompilationUnit, d: int, k: int, upto: int)
    requires
        0 <= d < upto,
        0 <= k < sys_decl_findings(u, d).len(),
    ensures
        sys_findings_upto(u, upto).contains(sys_decl_findings(u, d)[k]),
    decreases upto,
{
    if d == upto - 1 {
        let q = sys_findings_upto(u, upto - 1).len() + k;
        assert(sys_findings_upto(u, upto)[q] == sys_decl_findings(u, d)[k]);
    } else {
        lemma_sys_decl_in_upto(u, d, k, upto - 1);
        let prev = sys_findings_upto(u, upto - 1);
        let q = choose|q: int| 0 <= q < prev.len() && prev[q] == sys_decl_findings(u, d)[k];
        assert(sys_findings_upto(u, upto)[q] == sys_decl_findings(u, d)[k]);
    }
}

/// The unvalidated-dereference law, over a whole unit: a dereference
/// lacking its documented, entry-validated precondition always puts a
/// Critical finding at that statement into the unit's findings.
pub proof fn lemma_unvalidated_deref_in_unit(u: CompilationUnit, d: int, j: int)
    requires
        0 <= d < u.decls@.len(),
        u.decls@[d] matches Declaration::Function(f),
        0 <= j < u.decls@[d]->Function_0.stmts@.len(),
        u.decls@[d]->Function_0.stmts@[j].kind matches StmtKind::PtrDeref {
            documented,
            provenance,
            source_owner,
        },
        !(u.decls@[d]->Function_0.stmts@[j].kind->PtrDeref_documented
            && u.decls@[d]->Function_0.stmts@[j].kind->PtrDeref_provenance is Validated),
    ensures
        sys_findings(u).contains(
            stmt_finding(
                RULE_UNDOCUMENTED_UNSAFE,
                Domain::Systems,
                Severity::Critical,
                Confidence::Likely,
                d,
                j,
            ),
        ),
{
    let f = u.decls@[d]->Function_0;
    lemma_unvalidated_deref_critical(f, d, j);
    let target = stmt_finding(
        RULE_UNDOCUMENTED_UNSAFE,
        Domain::Systems,
        Severity::Critical,
        Confidence::Likely,
        d,
        j,
    );
    let k = choose|k: int|
        0 <= k < sys_fn_findings(f, d).len() && sys_fn_findings(f, d)[k] == target;
    assert(sys_decl_findings(u, d)[k] == target);
    lemma_sys_decl_in_upto(u, d, k, u.decls@.len() as int);
}

// --- the detector's triage signal ------------------------------------------

/// Weight a statement contributes to the systems triage signal.
pub open spec fn sys_stmt_sig(s: crate::model::Stmt) -> nat {
    match s.kind {
        StmtKind::PtrDeref { .. } => 1nat,
        StmtKind::PtrArith { .. } => 1nat,
        StmtKind::Reinterpret { .. } => 1nat,
        StmtKind::FfiCall { .. } => 1nat,
        StmtKind::SizeMul { .. } => 1nat,
        _ => 0nat,
    }
}

pub open spec fn sys_stmts_sig(f: FunctionDecl, upto: int) -> nat
    decreases upto,
{
    if upto <= 0 {
        0nat
    } else {
        sys_stmts_sig(f, upto - 1) + sys_stmt_sig(f.stmts@[upto - 1])
    }
}

/// The systems triage signal of one declaration: unsafe marking plus the
/// unsafe-relevant statements.
pub open spec fn sys_decl_sig(dcl: Declaration) -> nat {
    match dcl {
        Declaration::Function(f) => (if f.is_unsafe {
            1nat
        } else {
            0nat
        }) + sys_stmts_sig(f, f.stmts@.len() as int),
        _ => 0nat,
    }
}

pub open spec fn sys_sig_upto(u: CompilationUnit, upto: int) -> nat
    decreases upto,
{
    if upto <= 0 {
        0nat
    } else {
        sys_sig_upto(u, upto - 1) + sys_decl_sig(u.decls@[upto - 1])
    }
}

/// The unit's systems triage signal.
pub open spec fn sys_signal(u: CompilationUnit) -> nat {
    sys_sig_upto(u, u.decls@.len() as int)
}

proof fn lemma_sys_stmts_sig_pos(f: FunctionDecl, j: int, upto: int)
    requires
        0 <= j < upto,
        sys_stmt_sig(f.stmts@[j]) > 0,
    ensures
        sys_stmts_sig(f, upto) > 0,
    decreases upto,
{
    if j < upto - 1 {
        lemma_sys_stmts_sig_pos(f, j, upto - 1);
    }
}

proof fn lemma_sys_sig_upto_pos(u: CompilationUnit, d: int, upto: int)
    requires
        0 <= d < upto,
        sys_decl_sig(u.decls@[d]) > 0,
    ensures
        sys_sig_upto(u, upto) > 0,
    decreases upto,
{
    if d < upto - 1 {
        lemma_sys_sig_upto_pos(u, d, upto - 1);
    }
}

/// Every finding of one function rests on an unsafe-relevant statement.
proof fn lemma_sys_fn_finding_sig(f: FunctionDecl, d: int, k: int)
    requires
        0 <= k < sys_fn_findings(f, d).len(),
    ensures
        sys_decl_sig(Declaration::Function(f)) > 0,
{
    vstd::std_specs::vec::axiom_spec_len(&f.stmts);
    let n = f.stmts@.len() as int;
    lemma_undocumented_seq_elems(f, d, n);
    lemma_uaf_seq_elems(f, d, n);
    lemma_ptr_arith_seq_elems(f, d, n);
    lemma_ffi_seq_elems(f, d, n);
    lemma_size_mul_seq_elems(f, d, n);
    lemma_misleading_seq_elems(f, d, n);
    let r1 = undocumented_seq(f, d, n);
    let r2 = uaf_seq(f, d, n);
    let r3 = ptr_arith_seq(f, d, n);
    let r4 = ffi_seq(f, d, n);
    let r5 = size_mul_seq(f, d, n);
    let e = sys_fn_findings(f, d)[k];
    if k < r1.len() {
        assert(e == r1[k]);
        let j = e.stmt_offset->0;
        assert(undocumented_fires(f, j as int));
        lemma_sys_stmts_sig_pos(f, j as int, n);
    } else if k < r1.len() + r2.len() {
        assert(e == r2[k - r1.len()]);
        let j = e.stmt_offset->0;
        assert(uaf_fires(f, j as int));
        lemma_sys_stmts_sig_pos(f, j as int, n);
    } else if k < r1.len() + r2.len() + r3.len() {
        assert(e == r3[k - r1.len() - r2.len()]);
        let j = e.stmt_offset->0;
        assert(ptr_arith_fires(f, j as int));
        lemma_sys_stmts_sig_pos(f, j as int, n);
    } else if k < r1.len() + r2.len() + r3.len() + r4.len() {
        assert(e == r4[k - r1.len() - r2.len() - r3.len()]);
        let j = e.stmt_offset->0;
        assert(ffi_fires(f, j as int));
        lemma_sys_stmts_sig_pos(f, j as int, n);
    } else if k < r1.len() + r2.len() + r3.len() + r4.len() + r5.len() {
        assert(e == r5[k - r1.len() - r2.len() - r3.len() - r4.len()]);
        let j = e.stmt_offset->0;
        assert(size_mul_fires(f, j as int));
        lemma_sys_stmts_sig_pos(f, j as int, n);
    } else {
        assert(e == misleading_seq(f, d, n)[k - r1.len() - r2.len() - r3.len() - r4.len()
            - r5.len()]);
        let j = e.stmt_offset->0;
        assert(misleading_fires(f, j as int));
        lemma_sys_stmts_sig_pos(f, j as int, n);
    }
}

/// Router soundness, systems half: any finding at all (Critical ones
/// included) forces a positive systems signal.
pub proof fn lemma_sys_critical_needs_signal(u: CompilationUnit, upto: int, k: int)
    requires
        0 <= upto <= u.decls@.len(),
        0 <= k < sys_findings_upto(u, upto).len(),
    ensures
        sys_sig_upto(u, upto) > 0,
    decreases upto,
{
    if upto > 0 {
        let prev = sys_findings_upto(u, upto - 1);
        if k < prev.len() {
            lemma_sys_critical_needs_signal(u, upto - 1, k);
        } else {
            match u.decls@[upto - 1] {
                Declaration::Function(f) => {
                    assert(sys_findings_upto(u, upto)[k] == sys_fn_findings(f, upto - 1)[k
                        - prev.len()]);
                    lemma_sys_fn_finding_sig(f, upto - 1, k - prev.len());
                },
                _ => {},
            }
        }
    }
}

} // verus!
