//! The error-handling detector: context loss, overly generic public
//! error channels, silently discarded errors, blind re-raises,
//! unconditional aborts, and taxonomies with no recoverable/fatal
//! classification.

use vstd::prelude::*;
use crate::model::{CompilationUnit, Declaration, EnumDecl, ErrorChannel, FunctionDecl, StmtKind};
use crate::finding::{
    stmt_finding, decl_finding, Finding, Domain, Severity, Confidence, RULE_CONTEXT_LOSS,
    RULE_GENERIC_ERROR_CHANNEL, RULE_SILENT_DISCARD, RULE_BLIND_RERAISE, RULE_ABORT_ON_ERROR,
    RULE_NO_RECOVERY_CLASSIFICATION,
};

verus! {

/// An error converted to unstructured text: its identity and chain are
/// gone.
pub open spec fn context_loss_fires(f: FunctionDecl, j: int) -> bool {
    f.stmts@[j].kind is ErrorToText
}

/// A public function whose error channel masks distinct failure kinds.
pub open spec fn generic_channel_fires(f: FunctionDecl) -> bool {
    &&& f.is_public
    &&& (f.ret.error_channel is Textual || f.ret.error_channel is Opaque)
    &&& f.ret.distinct_failure_kinds >= 2
}

/// An error observed but neither logged, returned nor surfaced.
pub open spec fn silent_discard_fires(f: FunctionDecl, j: int) -> bool {
    f.stmts@[j].kind is ErrorDiscard
}

/// Discarding on a request path is graver than elsewhere.
pub open spec fn silent_discard_severity(f: FunctionDecl) -> Severity {
    if f.is_request_path {
        Severity::Critical
    } else {
        Severity::Warning
    }
}

/// A re-raise adding no location or context.
pub open spec fn reraise_fires(f: FunctionDecl, j: int) -> bool {
    f.stmts@[j].kind is ErrorReraise
}

/// An unconditional abort on error: fatal on a reachable runtime path,
/// merely noted in one-time startup or configuration code.
pub open spec fn abort_fires(f: FunctionDecl, j: int) -> bool {
    f.stmts@[j].kind is AbortOnError
}

pub open spec fn abort_severity(f: FunctionDecl) -> Severity {
    if f.is_startup {
        Severity::Info
    } else {
        Severity::Critical
    }
}

/// An error taxonomy that exposes no predicate or variant letting callers
/// decide retry against abort.
pub open spec fn no_classification_fires(e: EnumDecl) -> bool {
    e.is_error_type && !e.has_recoverability_predicate
}

pub open spec fn context_loss_seq(f: FunctionDecl, d: int, upto: int) -> Seq<Finding>
    decreases upto,
{
    if upto <= 0 {
        seq![]
    } else {
        context_loss_seq(f, d, upto - 1) + if context_loss_fires(f, upto - 1) {
            seq![
                stmt_finding(
                    RULE_CONTEXT_LOSS,
                    Domain::ErrorHandling,
                    Severity::Warning,
                    Confidence::Likely,
                    d,
                    upto - 1,
                ),
            ]
        } else {
            seq![]
        }
    }
}

pub open spec fn generic_channel_seq(f: FunctionDecl, d: int) -> Seq<Finding> {
    if generic_channel_fires(f) {
        seq![
            decl_finding(
                RULE_GENERIC_ERROR_CHANNEL,
                Domain::ErrorHandling,
                Severity::Warning,
                Confidence::Likely,
                d,
            ),
        ]
    } else {
        seq![]
    }
}

pub open spec fn silent_discard_seq(f: FunctionDecl, d: int, upto: int) -> Seq<Finding>
    decreases upto,
{
    if upto <= 0 {
        seq![]
    } else {
        silent_discard_seq(f, d, upto - 1) + if silent_discard_fires(f, upto - 1) {
            seq![
                stmt_finding(
                    RULE_SILENT_DISCARD,
                    Domain::ErrorHandling,
                    silent_discard_severity(f),
                    Confidence::Likely,
                    d,
                    upto - 1,
                ),
            ]
        } else {
            seq![]
        }
    }
}

pub open spec fn reraise_seq(f: FunctionDecl, d: int, upto: int) -> Seq<Finding>
    decreases upto,
{
    if upto <= 0 {
        seq![]
    } else {
        reraise_seq(f, d, upto - 1) + if reraise_fires(f, upto - 1) {
            seq![
                stmt_finding(
                    RULE_BLIND_RERAISE,
                    Domain::ErrorHandling,
                    Severity::Info,
                    Confidence::Likely,
                    d,
                    upto - 1,
                ),
            ]
        } else {
            seq![]
        }
    }
}

pub open spec fn abort_seq(f: FunctionDecl, d: int, upto: int) -> Seq<Finding>
    decreases upto,
{
    if upto <= 0 {
        seq![]
    } else {
        abort_seq(f, d, upto - 1) + if abort_fires(f, upto - 1) {
            seq![
                stmt_finding(
                    RULE_ABORT_ON_ERROR,
                    Domain::ErrorHandling,
                    abort_severity(f),
                    Confidence::Definite,
                    d,
                    upto - 1,
                ),
            ]
        } else {
            seq![]
        }
    }
}

/// Everything the detector says about one function, in rule order.
pub open spec fn err_fn_findings(f: FunctionDecl, d: int) -> Seq<Finding> {
    let n = f.stmts@.len() as int;
    context_loss_seq(f, d, n) + generic_channel_seq(f, d) + silent_discard_seq(f, d, n)
        + reraise_seq(f, d, n) + abort_seq(f, d, n)
}

pub open spec fn err_enum_findings(e: EnumDecl, d: int) -> Seq<Finding> {
    if no_classification_fires(e) {
        seq![
            decl_finding(
                RULE_NO_RECOVERY_CLASSIFICATION,
                Domain::ErrorHandling,
                Severity::Warning,
                Confidence::Likely,
                d,
            ),
        ]
    } else {
        seq![]
    }
}

pub open spec fn err_decl_findings(u: CompilationUnit, d: int) -> Seq<Finding> {
    match u.decls@[d] {
        Declaration::Function(f) => err_fn_findings(f, d),
        Declaration::Enum(e) => err_enum_findings(e, d),
        _ => seq![],
    }
}

pub open spec fn err_findings_upto(u: CompilationUnit, upto: int) -> Seq<Finding>
    decreases upto,
{
    if upto <= 0 {
        seq![]
    } else {
        err_findings_upto(u, upto - 1) + err_decl_findings(u, upto - 1)
    }
}

/// The error-handling detector's findings for a whole unit.
pub open spec fn err_findings(u: CompilationUnit) -> Seq<Finding> {
    err_findings_upto(u, u.decls@.len() as int)
}

// --- executable matchers ---------------------------------------------------

fn stmt_kind_code(f: &FunctionDecl, j: usize) -> (c: u32)
    requires
        j < f.stmts@.len(),
    ensures
        (c == 1) == context_loss_fires(*f, j as int),
        (c == 2) == silent_discard_fires(*f, j as int),
        (c == 3) == reraise_fires(*f, j as int),
        (c == 4) == abort_fires(*f, j as int),
{
    match f.stmts[j].kind {
        StmtKind::ErrorToText => 1,
        StmtKind::ErrorDiscard => 2,
        StmtKind::ErrorReraise => 3,
        StmtKind::AbortOnError => 4,
        _ => 0,
    }
}

fn generic_channel_at(f: &FunctionDecl) -> (b: bool)
    ensures
        b == generic_channel_fires(*f),
{
    let masked = match f.ret.error_channel {
        ErrorChannel::Textual => true,
        ErrorChannel::Opaque => true,
        _ => false,
    };
    f.is_public && masked && f.ret.distinct_failure_kinds >= 2
}

#[verifier::rlimit(60)]
fn scan_err_fn(f: &FunctionDecl, d: usize, out: &mut Vec<Finding>)
    ensures
        final(out)@ == old(out)@ + err_fn_findings(*f, d as int),
{
    let n = f.stmts.len();
    let discard_sev = if f.is_request_path {
        Severity::Critical
    } else {
        Severity::Warning
    };
    let abort_sev = if f.is_startup {
        Severity::Info
    } else {
        Severity::Critical
    };
    let mut j: usize = 0;
    while j < n
        invariant
            j <= n,
            n == f.stmts@.len(),
            out@ == old(out)@ + context_loss_seq(*f, d as int, j as int),
        decreases n - j,
    {
        if stmt_kind_code(f, j) == 1 {
            out.push(
                Finding {
                    rule_id: RULE_CONTEXT_LOSS,
                    domain: Domain::ErrorHandling,
                    severity: Severity::Warning,
                    confidence: Confidence::Likely,
                    decl: d,
                    stmt_offset: Option::Some(j),
                },
            );
        }
        proof {
            assert(out@ =~= old(out)@ + context_loss_seq(*f, d as int, j + 1));
        }
        j = j + 1;
    }
    if generic_channel_at(f) {
        out.push(
            Finding {
                rule_id: RULE_GENERIC_ERROR_CHANNEL,
                domain: Domain::ErrorHandling,
                severity: Severity::Warning,
                confidence: Confidence::Likely,
                decl: d,
                stmt_offset: Option::None,
            },
        );
    }
    let ghost pre2 = old(out)@ + context_loss_seq(*f, d as int, n as int) + generic_channel_seq(
        *f,
        d as int,
    );
    proof {
        assert(out@ =~= pre2);
    }
    let mut j: usize = 0;
    while j < n
        invariant
            j <= n,
            n == f.stmts@.len(),
            discard_sev == silent_discard_severity(*f),
            out@ == pre2 + silent_discard_seq(*f, d as int, j as int),
        decreases n - j,
    {
        if stmt_kind_code(f, j) == 2 {
            out.push(
                Finding {
                    rule_id: RULE_SILENT_DISCARD,
                    domain: Domain::ErrorHandling,
                    severity: discard_sev,
                    confidence: Confidence::Likely,
                    decl: d,
                    stmt_offset: Option::Some(j),
                },
            );
        }
        proof {
            assert(out@ =~= pre2 + silent_discard_seq(*f, d as int, j + 1));
        }
        j = j + 1;
    }
    let ghost pre3 = pre2 + silent_discard_seq(*f, d as int, n as int);
    let mut j: usize = 0;
    while j < n
        invariant
            j <= n,
            n == f.stmts@.len(),
            out@ == pre3 + reraise_seq(*f, d as int, j as int),
        decreases n - j,
    {
        if stmt_kind_code(f, j) == 3 {
            out.push(
                Finding {
                    rule_id: RULE_BLIND_RERAISE,
                    domain: Domain::ErrorHandling,
                    severity: Severity::Info,
                    confidence: Confidence::Likely,
                    decl: d,
                    stmt_offset: Option::Some(j),
                },
            );
        }
        proof {
            assert(out@ =~= pre3 + reraise_seq(*f, d as int, j + 1));
        }
        j = j + 1;
    }
    let ghost pre4 = pre3 + reraise_seq(*f, d as int, n as int);
    let mut j: usize = 0;
    while j < n
        invariant
            j <= n,
            n == f.stmts@.len(),
            abort_sev == abort_severity(*f),
            out@ == pre4 + abort_seq(*f, d as int, j as int),
        decreases n - j,
    {
        if stmt_kind_code(f, j) == 4 {
            out.push(
                Finding {
                    rule_id: RULE_ABORT_ON_ERROR,
                    domain: Domain::ErrorHandling,
                    severity: abort_sev,
                    confidence: Confidence::Definite,
                    decl: d,
                    stmt_offset: Option::Some(j),
                },
            );
        }
        proof {
            assert(out@ =~= pre4 + abort_seq(*f, d as int, j + 1));
        }
        j = j + 1;
    }
    proof {
        assert(out@ =~= old(out)@ + err_fn_findings(*f, d as int));
    }
}

/// Run the error-handling detector over a unit.
pub fn detect_errors(u: &CompilationUnit) -> (r: Vec<Finding>)
    requires
        u.wf(),
    ensures
        r@ == err_findings(*u),
{
    let n = u.decls.len();
    let mut out: Vec<Finding> = Vec::new();
    let mut d: usize = 0;
    while d < n
        invariant
            d <= n,
            n == u.decls@.len(),
            out@ == err_findings_upto(*u, d as int),
        decreases n - d,
    {
        match &u.decls[d] {
            Declaration::Function(f) => {
                scan_err_fn(f, d, &mut out);
            },
            Declaration::Enum(e) => {
                if e.is_error_type && !e.has_recoverability_predicate {
                    out.push(
                        Finding {
                            rule_id: RULE_NO_RECOVERY_CLASSIFICATION,
                            domain: Domain::ErrorHandling,
                            severity: Severity::Warning,
                            confidence: Confidence::Likely,
                            decl: d,
                            stmt_offset: Option::None,
                        },
                    );
                }
            },
            _ => {},
        }
        proof {
            assert(out@ =~= err_findings_upto(*u, d + 1));
        }
        d = d + 1;
    }
    out
}

// --- characterization and triage signal --------------------------------------

proof fn lemma_context_loss_seq_elems(f: FunctionDecl, d: int, upto: int)
    requires
        0 <= upto <= f.stmts@.len(),
    ensures
        forall|k: int|
            0 <= k < context_loss_seq(f, d, upto).len() ==> {
                let e = #[trigger] context_loss_seq(f, d, upto)[k];
                &&& e.rule_id == RULE_CONTEXT_LOSS
                &&& e.domain is ErrorHandling
                &&& e.severity is Warning
                &&& e.decl == d as usize
                &&& e.stmt_offset matches Option::Some(j) && 0 <= j < upto && context_loss_fires(
                    f,
                    j as int,
                )
            },
    decreases upto,
{
    vstd::std_specs::vec::axiom_spec_len(&f.stmts);
    if upto > 0 {
        lemma_context_loss_seq_elems(f, d, upto - 1);
    }
}

proof fn lemma_silent_discard_seq_elems(f: FunctionDecl, d: int, upto: int)
    requires
        0 <= upto <= f.stmts@.len(),
    ensures
        forall|k: int|
            0 <= k < silent_discard_seq(f, d, upto).len() ==> {
                let e = #[trigger] silent_discard_seq(f, d, upto)[k];
                &&& e.rule_id == RULE_SILENT_DISCARD
                &&& e.domain is ErrorHandling
                &&& e.severity == silent_discard_severity(f)
                &&& e.decl == d as usize
                &&& e.stmt_offset matches Option::Some(j) && 0 <= j < upto && silent_discard_fires(
                    f,
                    j as int,
                )
            },
    decreases upto,
{
    vstd::std_specs::vec::axiom_spec_len(&f.stmts);
    if upto > 0 {
        lemma_silent_discard_seq_elems(f, d, upto - 1);
    }
}

proof fn lemma_reraise_seq_elems(f: FunctionDecl, d: int, upto: int)
    requires
        0 <= upto <= f.stmts@.len(),
    ensures
        forall|k: int|
            0 <= k < reraise_seq(f, d, upto).len() ==> {
                let e = #[trigger] reraise_seq(f, d, upto)[k];
                &&& e.rule_id == RULE_BLIND_RERAISE
                &&& e.domain is ErrorHandling
                &&& e.severity is Info
                &&& e.decl == d as usize
                &&& e.stmt_offset matches Option::Some(j) && 0 <= j < upto && reraise_fires(
                    f,
                    j as int,
                )
            },
    decreases upto,
{
    vstd::std_specs::vec::axiom_spec_len(&f.stmts);
    if upto > 0 {
        lemma_reraise_seq_elems(f, d, upto - 1);
    }
}

proof fn lemma_abort_seq_elems(f: FunctionDecl, d: int, upto: int)
    requires
        0 <= upto <= f.stmts@.len(),
    ensures
        forall|k: int|
            0 <= k < abort_seq(f, d, upto).len() ==> {
                let e = #[trigger] abort_seq(f, d, upto)[k];
                &&& e.rule_id == RULE_ABORT_ON_ERROR
                &&& e.domain is ErrorHandling
                &&& e.severity == abort_severity(f)
                &&& e.decl == d as usize
                &&& e.stmt_offset matches Option::Some(j) && 0 <= j < upto && abort_fires(
                    f,
                    j as int,
                )
            },
    decreases upto,
{
    vstd::std_specs::vec::axiom_spec_len(&f.stmts);
    if upto > 0 {
        lemma_abort_seq_elems(f, d, upto - 1);
    }
}

/// Every finding the detector emits about a function carries the
/// ErrorHandling domain and that function's declaration id.
pub proof fn lemma_err_fn_findings_shape(f: FunctionDecl, d: int)
    ensures
        forall|k: int|
            0 <= k < err_fn_findings(f, d).len() ==> (#[trigger] err_fn_findings(f, d)[k]).domain
                is ErrorHandling && err_fn_findings(f, d)[k].decl == d as usize,
{
    let n = f.stmts@.len() as int;
    vstd::std_specs::vec::axiom_spec_len(&f.stmts);
    lemma_context_loss_seq_elems(f, d, n);
    lemma_silent_discard_seq_elems(f, d, n);
    lemma_reraise_seq_elems(f, d, n);
    lemma_abort_seq_elems(f, d, n);
}

/// Every finding of the detector, over a whole unit, carries the
/// ErrorHandling domain and a declaration id that resolves in the unit.
pub proof fn lemma_err_findings_resolve(u: CompilationUnit, upto: int)
    requires
        0 <= upto <= u.decls@.len(),
    ensures
        forall|k: int|
            0 <= k < err_findings_upto(u, upto).len() ==> (#[trigger] err_findings_upto(u, upto)[k]).domain
                is ErrorHandling && err_findings_upto(u, upto)[k].decl < upto,
    decreases upto,
{
    if upto > 0 {
        lemma_err_findings_resolve(u, upto - 1);
        match u.decls@[upto - 1] {
            Declaration::Function(f) => {
                lemma_err_fn_findings_shape(f, upto - 1);
            },
            _ => {},
        }
    }
}

/// Weight a statement contributes to the error-handling triage signal.
pub open spec fn err_stmt_sig(s: crate::model::Stmt) -> nat {
    match s.kind {
        StmtKind::ErrorToText => 1nat,
        StmtKind::ErrorDiscard => 1nat,
        StmtKind::ErrorReraise => 1nat,
        StmtKind::AbortOnError => 1nat,
        _ => 0nat,
    }
}

pub open spec fn err_stmts_sig(f: FunctionDecl, upto: int) -> nat
    decreases upto,
{
    if upto <= 0 {
        0nat
    } else {
        err_stmts_sig(f, upto - 1) + err_stmt_sig(f.stmts@[upto - 1])
    }
}

/// The error-handling triage signal of one declaration: error-relevant
/// statements, fallible channels, and error taxonomies.
pub open spec fn err_decl_sig(dcl: Declaration) -> nat {
    match dcl {
        Declaration::Function(f) => (if f.ret.error_channel is Infallible {
            0nat
        } else {
            1nat
        }) + err_stmts_sig(f, f.stmts@.len() as int),
        Declaration::Enum(e) => if e.is_error_type {
            1nat
        } else {
            0nat
        },
        _ => 0nat,
    }
}

pub open spec fn err_sig_upto(u: CompilationUnit, upto: int) -> nat
    decreases upto,
{
    if upto <= 0 {
        0nat
    } else {
        err_sig_upto(u, upto - 1) + err_decl_sig(u.decls@[upto - 1])
    }
}

/// The unit's error-handling triage signal.
pub open spec fn err_signal(u: CompilationUnit) -> nat {
    err_sig_upto(u, u.decls@.len() as int)
}

proof fn lemma_err_stmts_sig_pos(f: FunctionDecl, j: int, upto: int)
    requires
        0 <= j < upto,
        err_stmt_sig(f.stmts@[j]) > 0,
    ensures
        err_stmts_sig(f, upto) > 0,
    decreases upto,
{
    if j < upto - 1 {
        lemma_err_stmts_sig_pos(f, j, upto - 1);
    }
}

proof fn lemma_err_sig_upto_pos(u: CompilationUnit, d: int, upto: int)
    requires
        0 <= d < upto,
        err_decl_sig(u.decls@[d]) > 0,
    ensures
        err_sig_upto(u, upto) > 0,
    decreases upto,
{
    if d < upto - 1 {
        lemma_err_sig_upto_pos(u, d, upto - 1);
    }
}

/// A critical finding of one function forces a positive signal for it.
proof fn lemma_err_fn_critical_sig(f: FunctionDecl, d: int, k: int)
    requires
        0 <= k < err_fn_findings(f, d).len(),
        err_fn_findings(f, d)[k].severity is Critical,
    ensures
        err_decl_sig(Declaration::Function(f)) > 0,
{
    vstd::std_specs::vec::axiom_spec_len(&f.stmts);
    let n = f.stmts@.len() as int;
    lemma_context_loss_seq_elems(f, d, n);
    lemma_silent_discard_seq_elems(f, d, n);
    lemma_reraise_seq_elems(f, d, n);
    lemma_abort_seq_elems(f, d, n);
    let r1 = context_loss_seq(f, d, n);
    let r2 = generic_channel_seq(f, d);
    let r3 = silent_discard_seq(f, d, n);
    let r4 = reraise_seq(f, d, n);
    let e = err_fn_findings(f, d)[k];
    if k < r1.len() {
        assert(e == r1[k]);
        assert(false);
    } else if k < r1.len() + r2.len() {
        assert(e == r2[k - r1.len()]);
        assert(false);
    } else if k < r1.len() + r2.len() + r3.len() {
        assert(e == r3[k - r1.len() - r2.len()]);
        let j = e.stmt_offset->0;
        assert(silent_discard_fires(f, j as int));
        lemma_err_stmts_sig_pos(f, j as int, n);
    } else if k < r1.len() + r2.len() + r3.len() + r4.len() {
        assert(e == r4[k - r1.len() - r2.len() - r3.len()]);
        assert(false);
    } else {
        assert(e == abort_seq(f, d, n)[k - r1.len() - r2.len() - r3.len() - r4.len()]);
        let j = e.stmt_offset->0;
        assert(abort_fires(f, j as int));
        lemma_err_stmts_sig_pos(f, j as int, n);
    }
}

/// Router soundness, error-handling half: a Critical finding forces a
/// positive error-handling signal.
pub proof fn lemma_err_critical_needs_signal(u: CompilationUnit, upto: int, k: int)
    requires
        0 <= upto <= u.decls@.len(),
        0 <= k < err_findings_upto(u, upto).len(),
        err_findings_upto(u, upto)[k].severity is Critical,
    ensures
        err_sig_upto(u, upto) > 0,
    decreases upto,
{
    if upto > 0 {
        let prev = err_findings_upto(u, upto - 1);
        if k < prev.len() {
            lemma_err_critical_needs_signal(u, upto - 1, k);
        } else {
            match u.decls@[upto - 1] {
                Declaration::Function(f) => {
                    assert(err_findings_upto(u, upto)[k] == err_fn_findings(f, upto - 1)[k
                        - prev.len()]);
                    lemma_err_fn_critical_sig(f, upto - 1, k - prev.len());
                },
                Declaration::Enum(e) => {
                    assert(err_findings_upto(u, upto)[k] == err_enum_findings(e, upto - 1)[k
                        - prev.len()]);
                    assert(false);
                },
                _ => {},
            }
        }
    }
}

} // verus!
