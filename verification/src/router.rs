//! The triage router: one pass over the unit computes structural signals
//! per domain, and a policy selects which detectors to run. Small units
//! run every detector; on large units a detector is skipped only when its
//! triggering signal count is exactly zero. The router never omits a
//! domain whose detector would produce a Critical finding.

use vstd::prelude::*;
use crate::model::{CompilationUnit, Declaration};
use crate::config::AnalysisConfig;
use crate::finding::{Domain, Finding, domain_code};
use crate::arch;
use crate::concurrency;
use crate::borrowing;
use crate::error_rules;
use crate::systems;
use crate::type_rules;

verus! {

/// One ranked entry: an applicable domain with its triggering signal, the
/// number of declarations showing that domain's structural signals.
#[derive(Clone, Copy, PartialEq, Eq, Debug)]
pub struct DomainSignal {
    pub domain: Domain,
    pub hits: usize,
}

/// The per-declaration triage signal of each domain, as the detectors
/// define them.
pub open spec fn decl_sig_of(dom: Domain, dcl: Declaration) -> nat {
    match dom {
        Domain::Architecture => arch::arch_decl_sig(dcl),
        Domain::Concurrency => concurrency::conc_decl_sig(dcl),
        Domain::Borrowing => borrowing::borrow_decl_sig(dcl),
        Domain::ErrorHandling => error_rules::err_decl_sig(dcl),
        Domain::Systems => systems::sys_decl_sig(dcl),
        Domain::TypeSystem => type_rules::type_decl_sig(dcl),
    }
}

/// How many declarations show the domain's signals.
pub open spec fn hits_upto(u: CompilationUnit, dom: Domain, upto: int) -> nat
    decreases upto,
{
    if upto <= 0 {
        0nat
    } else {
        hits_upto(u, dom, upto - 1) + (if decl_sig_of(dom, u.decls@[upto - 1]) > 0 {
            1nat
        } else {
            0nat
        })
    }
}

pub open spec fn domain_hits(u: CompilationUnit, dom: Domain) -> nat {
    hits_upto(u, dom, u.decls@.len() as int)
}

/// The selection policy: run everything on small units; on large units
/// skip a detector only when its signal count is exactly zero.
pub open spec fn router_selects(u: CompilationUnit, cfg: AnalysisConfig, dom: Domain) -> bool {
    u.decls@.len() <= cfg.small_unit || domain_hits(u, dom) > 0
}

/// Ranking order: more hits first; equal hits keep domain order.
pub open spec fn ranked_before(a: DomainSignal, b: DomainSignal) -> bool {
    a.hits > b.hits
}

/// Stable insertion into a ranked list.
pub open spec fn rank_insert(s: Seq<DomainSignal>, x: DomainSignal) -> Seq<DomainSignal>
    decreases s.len(),
{
    if s.len() == 0 {
        seq![x]
    } else if ranked_before(x, s[0]) {
        seq![x] + s
    } else {
        seq![s[0]] + rank_insert(s.drop_first(), x)
    }
}

/// The six domains, in their fixed order.
pub open spec fn all_domains() -> Seq<Domain> {
    seq![
        Domain::Architecture,
        Domain::Concurrency,
        Domain::Borrowing,
        Domain::ErrorHandling,
        Domain::Systems,
        Domain::TypeSystem,
    ]
}

/// The ranked selection: each applicable domain with its signal, ranked
/// by signal, built by stable insertion over the fixed domain order.
pub open spec fn route_upto(u: CompilationUnit, cfg: AnalysisConfig, upto: int) -> Seq<DomainSignal>
    decreases upto,
{
    if upto <= 0 {
        seq![]
    } else {
        let prev = route_upto(u, cfg, upto - 1);
        let dom = all_domains()[upto - 1];
        if router_selects(u, cfg, dom) {
            rank_insert(
                prev,
                DomainSignal { domain: dom, hits: domain_hits(u, dom) as usize },
            )
        } else {
            prev
        }
    }
}

pub open spec fn route_spec(u: CompilationUnit, cfg: AnalysisConfig) -> Seq<DomainSignal> {
    route_upto(u, cfg, 6)
}

// --- executable signal computation -------------------------------------------

/// Is the per-declaration signal of this domain positive?
fn decl_sig_pos(dom: Domain, dcl: &Declaration) -> (b: bool)
    ensures
        b == (decl_sig_of(dom, *dcl) > 0),
{
    match dom {
        Domain::Architecture => match dcl {
            Declaration::Struct(s) => s.fields.len() > 0,
            Declaration::Trait(t) => true,
            Declaration::Impl(im) => true,
            Declaration::Function(f) => {
                let n = f.stmts.len();
                let mut j: usize = 0;
                while j < n
                    invariant
                        j <= n,
                        n == f.stmts@.len(),
                        arch::call_count(*f, j as int) == 0,
                    decreases n - j,
                {
                    let is_call = match f.stmts[j].kind {
                        crate::model::StmtKind::Call { callee } => true,
                        _ => false,
                    };
                    if is_call {
                        proof {
                            lemma_call_count_mono(*f, j + 1, n as int);
                        }
                        return true;
                    }
                    j = j + 1;
                }
                false
            },
            _ => false,
        },
        Domain::Concurrency => match dcl {
            Declaration::Function(f) => {
                if f.is_async {
                    return true;
                }
                let n = f.stmts.len();
                let mut j: usize = 0;
                while j < n
                    invariant
                        j <= n,
                        n == f.stmts@.len(),
                        concurrency::conc_stmts_sig(*f, j as int) == 0,
                    decreases n - j,
                {
                    let pos = match f.stmts[j].kind {
                        crate::model::StmtKind::LockAcquire { .. } => true,
                        crate::model::StmtKind::Suspend => true,
                        crate::model::StmtKind::Spawn { .. } => true,
                        crate::model::StmtKind::BlockingIo => true,
                        crate::model::StmtKind::SharedMutate { .. } => true,
                        crate::model::StmtKind::Io { .. } => true,
                        _ => false,
                    };
                    if pos {
                        proof {
                            lemma_conc_stmts_sig_mono(*f, j + 1, n as int);
                        }
                        return true;
                    }
                    j = j + 1;
                }
                false
            },
            _ => false,
        },
        Domain::Borrowing => match dcl {
            Declaration::Function(f) => f.lifetimes.len() > 0,
            Declaration::Struct(s) => {
                let n = s.fields.len();
                let mut j: usize = 0;
                while j < n
                    invariant
                        j <= n,
                        n == s.fields@.len(),
                        borrowing::borrow_fields_sig(*s, j as int) == 0,
                    decreases n - j,
                {
                    let pos = match s.fields[j].ty {
                        crate::model::TypeShape::Reference { .. } => true,
                        crate::model::TypeShape::RawPointer { .. } => true,
                        _ => false,
                    };
                    if pos {
                        proof {
                            lemma_borrow_fields_sig_mono(*s, j + 1, n as int);
                        }
                        return true;
                    }
                    j = j + 1;
                }
                false
            },
            _ => false,
        },
        Domain::ErrorHandling => match dcl {
            Declaration::Function(f) => {
                let fallible = match f.ret.error_channel {
                    crate::model::ErrorChannel::Infallible => false,
                    _ => true,
                };
                if fallible {
                    return true;
                }
                let n = f.stmts.len();
                let mut j: usize = 0;
                while j < n
                    invariant
                        j <= n,
                        n == f.stmts@.len(),
                        error_rules::err_stmts_sig(*f, j as int) == 0,
                    decreases n - j,
                {
                    let pos = match f.stmts[j].kind {
                        crate::model::StmtKind::ErrorToText => true,
                        crate::model::StmtKind::ErrorDiscard => true,
                        crate::model::StmtKind::ErrorReraise => true,
                        crate::model::StmtKind::AbortOnError => true,
                        _ => false,
                    };
                    if pos {
                        proof {
                            lemma_err_stmts_sig_mono(*f, j + 1, n as int);
                        }
                        return true;
                    }
                    j = j + 1;
                }
                false
            },
            Declaration::Enum(e) => e.is_error_type,
            _ => false,
        },
        Domain::Systems => match dcl {
            Declaration::Function(f) => {
                if f.is_unsafe {
                    return true;
                }
                let n = f.stmts.len();
                let mut j: usize = 0;
                while j < n
                    invariant
                        j <= n,
                        n == f.stmts@.len(),
                        systems::sys_stmts_sig(*f, j as int) == 0,
                    decreases n - j,
                {
                    let pos = match f.stmts[j].kind {
                        crate::model::StmtKind::PtrDeref { .. } => true,
                        crate::model::StmtKind::PtrArith { .. } => true,
                        crate::model::StmtKind::Reinterpret { .. } => true,
                        crate::model::StmtKind::FfiCall { .. } => true,
                        crate::model::StmtKind::SizeMul { .. } => true,
                        _ => false,
                    };
                    if pos {
                        proof {
                            lemma_sys_stmts_sig_mono(*f, j + 1, n as int);
                        }
                        return true;
                    }
                    j = j + 1;
                }
                false
            },
            _ => false,
        },
        Domain::TypeSystem => match dcl {
            Declaration::Function(f) => f.generics.len() > 0 || f.params.len() > 0,
            Declaration::Trait(t) => true,
            _ => false,
        },
    }
}

proof fn lemma_call_count_mono(f: crate::model::FunctionDecl, a: int, b: int)
    requires
        0 <= a <= b,
        arch::call_count(f, a) > 0,
    ensures
        arch::call_count(f, b) > 0,
    decreases b - a,
{
    if a < b {
        lemma_call_count_mono(f, a, b - 1);
    }
}

proof fn lemma_conc_stmts_sig_mono(f: crate::model::FunctionDecl, a: int, b: int)
    requires
        0 <= a <= b,
        concurrency::conc_stmts_sig(f, a) > 0,
    ensures
        concurrency::conc_stmts_sig(f, b) > 0,
    decreases b - a,
{
    if a < b {
        lemma_conc_stmts_sig_mono(f, a, b - 1);
    }
}

proof fn lemma_borrow_fields_sig_mono(s: crate::model::StructDecl, a: int, b: int)
    requires
        0 <= a <= b,
        borrowing::borrow_fields_sig(s, a) > 0,
    ensures
        borrowing::borrow_fields_sig(s, b) > 0,
    decreases b - a,
{
    if a < b {
        lemma_borrow_fields_sig_mono(s, a, b - 1);
    }
}

proof fn lemma_err_stmts_sig_mono(f: crate::model::FunctionDecl, a: int, b: int)
    requires
        0 <= a <= b,
        error_rules::err_stmts_sig(f, a) > 0,
    ensures
        error_rules::err_stmts_sig(f, b) > 0,
    decreases b - a,
{
    if a < b {
        lemma_err_stmts_sig_mono(f, a, b - 1);
    }
}

proof fn lemma_sys_stmts_sig_mono(f: crate::model::FunctionDecl, a: int, b: int)
    requires
        0 <= a <= b,
        systems::sys_stmts_sig(f, a) > 0,
    ensures
        systems::sys_stmts_sig(f, b) > 0,
    decreases b - a,
{
    if a < b {
        lemma_sys_stmts_sig_mono(f, a, b - 1);
    }
}

/// Count the declarations showing the domain's signals.
pub fn count_hits(u: &CompilationUnit, dom: Domain) -> (h: usize)
    ensures
        h == domain_hits(*u, dom),
{
    let n = u.decls.len();
    let mut h: usize = 0;
    let mut d: usize = 0;
    while d < n
        invariant
            d <= n,
            n == u.decls@.len(),
            h == hits_upto(*u, dom, d as int),
            h <= d,
        decreases n - d,
    {
        if decl_sig_pos(dom, &u.decls[d]) {
            h = h + 1;
        }
        d = d + 1;
    }
    h
}

/// Insert a signal into a ranked vector, stably.
fn rank_insert_vec(v: &mut Vec<DomainSignal>, x: DomainSignal)
    ensures
        final(v)@ == rank_insert(old(v)@, x),
{
    let n = v.len();
    let mut p: usize = 0;
    while p < n
        invariant
            p <= n,
            n == v@.len(),
            forall|q: int| 0 <= q < p ==> !ranked_before(x, #[trigger] v@[q]),
        decreases n - p,
    {
        if x.hits > v[p].hits {
            break ;
        }
        p = p + 1;
    }
    proof {
        lemma_rank_insert_at(v@, x, p as int);
    }
    v.insert(p, x);
}

/// The recursive insertion lands exactly at the first ranked-before
/// position.
proof fn lemma_rank_insert_at(s: Seq<DomainSignal>, x: DomainSignal, p: int)
    requires
        0 <= p <= s.len(),
        forall|q: int| 0 <= q < p ==> !ranked_before(x, #[trigger] s[q]),
        p < s.len() ==> ranked_before(x, s[p]),
    ensures
        rank_insert(s, x) == s.insert(p, x),
    decreases s.len(),
{
    if s.len() == 0 {
        assert(rank_insert(s, x) =~= s.insert(0, x));
    } else if ranked_before(x, s[0]) {
        assert(p == 0);
        assert(rank_insert(s, x) =~= s.insert(0, x));
    } else {
        lemma_rank_insert_at(s.drop_first(), x, p - 1);
        assert(rank_insert(s, x) =~= s.insert(p, x));
    }
}

/// Compute the ranked list of applicable domains with their triggering
/// signals.
pub fn route(u: &CompilationUnit, cfg: &AnalysisConfig) -> (r: Vec<DomainSignal>)
    ensures
        r@ == route_spec(*u, *cfg),
{
    let n = u.decls.len();
    let small = n as u64 <= cfg.small_unit as u64;
    let mut r: Vec<DomainSignal> = Vec::new();
    let doms: [Domain; 6] = [
        Domain::Architecture,
        Domain::Concurrency,
        Domain::Borrowing,
        Domain::ErrorHandling,
        Domain::Systems,
        Domain::TypeSystem,
    ];
    let mut i: usize = 0;
    while i < 6
        invariant
            i <= 6,
            n == u.decls@.len(),
            small == (u.decls@.len() <= cfg.small_unit),
            doms@ =~= all_domains(),
            r@ == route_upto(*u, *cfg, i as int),
        decreases 6 - i,
    {
        let dom = doms[i];
        let hits = count_hits(u, dom);
        if small || hits > 0 {
            rank_insert_vec(&mut r, DomainSignal { domain: dom, hits });
        }
        proof {
            assert(domain_hits(*u, dom) == hits as nat);
            assert(r@ =~= route_upto(*u, *cfg, i + 1));
        }
        i = i + 1;
    }
    r
}

/// Whether a domain stands in the routed list.
pub open spec fn route_contains(s: Seq<DomainSignal>, dom: Domain) -> bool {
    exists|k: int| 0 <= k < s.len() && (#[trigger] s[k]).domain == dom
}

proof fn lemma_rank_insert_keeps(s: Seq<DomainSignal>, x: DomainSignal, dom: Domain)
    ensures
        route_contains(rank_insert(s, x), dom) == (route_contains(s, dom) || x.domain == dom),
    decreases s.len(),
{
    if s.len() == 0 {
        if x.domain == dom {
            assert(rank_insert(s, x)[0].domain == dom);
        }
    } else if ranked_before(x, s[0]) {
        assert forall|k: int| 0 <= k < s.len() implies (seq![x] + s)[k + 1] == s[k] by {}
        if x.domain == dom {
            assert((seq![x] + s)[0].domain == dom);
        }
        if route_contains(s, dom) {
            let k = choose|k: int| 0 <= k < s.len() && (#[trigger] s[k]).domain == dom;
            assert((seq![x] + s)[k + 1].domain == dom);
        }
        if route_contains(seq![x] + s, dom) {
            let k = choose|k: int|
                0 <= k < (seq![x] + s).len() && (#[trigger] (seq![x] + s)[k]).domain == dom;
            if k > 0 {
                assert(s[k - 1].domain == dom);
            }
        }
    } else {
        lemma_rank_insert_keeps(s.drop_first(), x, dom);
        let tail = rank_insert(s.drop_first(), x);
        let whole = seq![s[0]] + tail;
        assert(rank_insert(s, x) == whole);
        if route_contains(whole, dom) {
            let k = choose|k: int| 0 <= k < whole.len() && (#[trigger] whole[k]).domain == dom;
            if k == 0 {
                assert(s[0].domain == dom);
            } else {
                assert(tail[k - 1].domain == dom);
            }
        }
        if s[0].domain == dom {
            assert(whole[0].domain == dom);
        }
        if route_contains(s.drop_first(), dom) || x.domain == dom {
            let k = choose|k: int| 0 <= k < tail.len() && (#[trigger] tail[k]).domain == dom;
            assert(whole[k + 1].domain == dom);
        }
        if route_contains(s, dom) {
            let k = choose|k: int| 0 <= k < s.len() && (#[trigger] s[k]).domain == dom;
            if k > 0 {
                assert(s.drop_first()[k - 1].domain == dom);
            }
        }
    }
}

/// A selected domain stands in the routed list, and only selected domains
/// do.
pub proof fn lemma_route_selects(u: CompilationUnit, cfg: AnalysisConfig, dom: Domain, upto: int)
    requires
        0 <= domain_code(dom) < upto <= 6,
    ensures
        route_contains(route_upto(u, cfg, upto), dom) == router_selects(u, cfg, dom),
    decreases upto,
{
    let prev = route_upto(u, cfg, upto - 1);
    let cur = all_domains()[upto - 1];
    if domain_code(dom) == upto - 1 {
        assert(cur == dom);
        lemma_route_not_there(u, cfg, dom, upto - 1);
        if router_selects(u, cfg, dom) {
            lemma_rank_insert_keeps(
                prev,
                DomainSignal { domain: dom, hits: domain_hits(u, dom) as usize },
                dom,
            );
        }
    } else {
        lemma_route_selects(u, cfg, dom, upto - 1);
        if router_selects(u, cfg, cur) {
            lemma_rank_insert_keeps(
                prev,
                DomainSignal { domain: cur, hits: domain_hits(u, cur) as usize },
                dom,
            );
            assert(cur != dom);
        }
    }
}

/// Before its turn, a domain is not in the list.
proof fn lemma_route_not_there(u: CompilationUnit, cfg: AnalysisConfig, dom: Domain, upto: int)
    requires
        0 <= upto <= 6,
        domain_code(dom) >= upto,
    ensures
        !route_contains(route_upto(u, cfg, upto), dom),
    decreases upto,
{
    if upto > 0 {
        lemma_route_not_there(u, cfg, dom, upto - 1);
        let prev = route_upto(u, cfg, upto - 1);
        let cur = all_domains()[upto - 1];
        if router_selects(u, cfg, cur) {
            lemma_rank_insert_keeps(
                prev,
                DomainSignal { domain: cur, hits: domain_hits(u, cur) as usize },
                dom,
            );
        }
    }
}

// --- router soundness: no Critical finding is ever missed --------------------

proof fn lemma_hits_pos_of_sig(u: CompilationUnit, dom: Domain, d: int, upto: int)
    requires
        0 <= d < upto,
        decl_sig_of(dom, u.decls@[d]) > 0,
    ensures
        hits_upto(u, dom, upto) > 0,
    decreases upto,
{
    if d < upto - 1 {
        lemma_hits_pos_of_sig(u, dom, d, upto - 1);
    }
}

proof fn lemma_sig_sum_witness_arch(u: CompilationUnit, upto: int)
    requires
        0 <= upto,
        arch::arch_sig_upto(u, upto) > 0,
    ensures
        exists|d: int| 0 <= d < upto && decl_sig_of(Domain::Architecture, #[trigger] u.decls@[d]) > 0,
    decreases upto,
{
    if upto > 0 {
        if arch::arch_decl_sig(u.decls@[upto - 1]) > 0 {
            assert(decl_sig_of(Domain::Architecture, u.decls@[upto - 1]) > 0);
        } else {
            lemma_sig_sum_witness_arch(u, upto - 1);
        }
    }
}

proof fn lemma_sig_sum_witness_conc(u: CompilationUnit, upto: int)
    requires
        0 <= upto,
        concurrency::conc_sig_upto(u, upto) > 0,
    ensures
        exists|d: int| 0 <= d < upto && decl_sig_of(Domain::Concurrency, #[trigger] u.decls@[d]) > 0,
    decreases upto,
{
    if upto > 0 {
        if concurrency::conc_decl_sig(u.decls@[upto - 1]) > 0 {
            assert(decl_sig_of(Domain::Concurrency, u.decls@[upto - 1]) > 0);
        } else {
            lemma_sig_sum_witness_conc(u, upto - 1);
        }
    }
}

proof fn lemma_sig_sum_witness_borrow(u: CompilationUnit, upto: int)
    requires
        0 <= upto,
        borrowing::borrow_sig_upto(u, upto) > 0,
    ensures
        exists|d: int| 0 <= d < upto && decl_sig_of(Domain::Borrowing, #[trigger] u.decls@[d]) > 0,
    decreases upto,
{
    if upto > 0 {
        if borrowing::borrow_decl_sig(u.decls@[upto - 1]) > 0 {
            assert(decl_sig_of(Domain::Borrowing, u.decls@[upto - 1]) > 0);
        } else {
            lemma_sig_sum_witness_borrow(u, upto - 1);
        }
    }
}

proof fn lemma_sig_sum_witness_err(u: CompilationUnit, upto: int)
    requires
        0 <= upto,
        error_rules::err_sig_upto(u, upto) > 0,
    ensures
        exists|d: int| 0 <= d < upto && decl_sig_of(Domain::ErrorHandling, #[trigger] u.decls@[d])
            > 0,
    decreases upto,
{
    if upto > 0 {
        if error_rules::err_decl_sig(u.decls@[upto - 1]) > 0 {
            assert(decl_sig_of(Domain::ErrorHandling, u.decls@[upto - 1]) > 0);
        } else {
            lemma_sig_sum_witness_err(u, upto - 1);
        }
    }
}

proof fn lemma_sig_sum_witness_sys(u: CompilationUnit, upto: int)
    requires
        0 <= upto,
        systems::sys_sig_upto(u, upto) > 0,
    ensures
        exists|d: int| 0 <= d < upto && decl_sig_of(Domain::Systems, #[trigger] u.decls@[d]) > 0,
    decreases upto,
{
    if upto > 0 {
        if systems::sys_decl_sig(u.decls@[upto - 1]) > 0 {
            assert(decl_sig_of(Domain::Systems, u.decls@[upto - 1]) > 0);
        } else {
            lemma_sig_sum_witness_sys(u, upto - 1);
        }
    }
}

/// The findings the named domain's detector would emit.
pub open spec fn detector_findings(dom: Domain, u: CompilationUnit, cfg: AnalysisConfig) -> Seq<
    Finding,
> {
    match dom {
        Domain::Architecture => arch::arch_findings(u, cfg),
        Domain::Concurrency => concurrency::conc_findings(u),
        Domain::Borrowing => borrowing::borrow_findings(u, cfg),
        Domain::ErrorHandling => error_rules::err_findings(u),
        Domain::Systems => systems::sys_findings(u),
        Domain::TypeSystem => type_rules::type_findings(u, cfg),
    }
}

pub open spec fn has_critical(s: Seq<Finding>) -> bool {
    exists|k: int| 0 <= k < s.len() && (#[trigger] s[k]).severity is Critical
}

/// Router soundness: the selected domain set is a superset of the domains
/// whose detector would produce at least one Critical finding.
pub proof fn lemma_router_covers_criticals(u: CompilationUnit, cfg: AnalysisConfig, dom: Domain)
    requires
        u.wf(),
        cfg.thresholds_wf(),
        has_critical(detector_findings(dom, u, cfg)),
    ensures
        router_selects(u, cfg, dom),
        route_contains(route_spec(u, cfg), dom),
{
    let n = u.decls@.len() as int;
    let k = choose|k: int|
        0 <= k < detector_findings(dom, u, cfg).len() && (#[trigger] detector_findings(
            dom,
            u,
            cfg,
        )[k]).severity is Critical;
    match dom {
        Domain::Architecture => {
            arch::lemma_arch_critical_needs_signal(u, cfg, k);
            lemma_sig_sum_witness_arch(u, n);
        },
        Domain::Concurrency => {
            concurrency::lemma_conc_critical_needs_signal(u, n, k);
            lemma_sig_sum_witness_conc(u, n);
        },
        Domain::Borrowing => {
            borrowing::lemma_borrow_critical_needs_signal(u, cfg, k);
            lemma_sig_sum_witness_borrow(u, n);
        },
        Domain::ErrorHandling => {
            error_rules::lemma_err_critical_needs_signal(u, n, k);
            lemma_sig_sum_witness_err(u, n);
        },
        Domain::Systems => {
            systems::lemma_sys_critical_needs_signal(u, n, k);
            lemma_sig_sum_witness_sys(u, n);
        },
        Domain::TypeSystem => {
            type_rules::lemma_type_findings_never_critical(u, cfg, n);
            assert(false);
        },
    }
    if !(u.decls@.len() <= cfg.small_unit) {
        let d = choose|d: int| 0 <= d < n && decl_sig_of(dom, #[trigger] u.decls@[d]) > 0;
        lemma_hits_pos_of_sig(u, dom, d, n);
    }
    lemma_route_selects(u, cfg, dom, 6);
}

} // verus!
