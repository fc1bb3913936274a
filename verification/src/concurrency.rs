//! The concurrency/async detector: races, locks held across suspension
//! points, unbounded spawning, blocking calls in cooperatively scheduled
//! functions, lost task results, inconsistent lock ordering and unbounded
//! waits, all read off the coarse statement sequence.

use vstd::prelude::*;
use crate::model::{CompilationUnit, Declaration, FunctionDecl, StmtKind};
use crate::finding::{
    stmt_finding, decl_finding, Finding, Domain, Severity, Confidence, RULE_DATA_RACE,
    RULE_LOCK_ACROSS_SUSPEND, RULE_UNBOUNDED_SPAWN, RULE_BLOCKING_IN_ASYNC, RULE_UNJOINED_TASK,
    RULE_LOCK_ORDER_CYCLE, RULE_IO_NO_DEADLINE,
};
use crate::graph;

verus! {

// --- statement classification -----------------------------------------

/// A statement that synchronizes independently scheduled tasks.
pub open spec fn is_sync_stmt(k: StmtKind) -> bool {
    k is Sync || k matches StmtKind::LockAcquire { .. }
}

pub open spec fn mutates_state(k: StmtKind, s: u32) -> bool {
    k matches StmtKind::SharedMutate { state } && state == s
}

pub open spec fn acquires_lock(k: StmtKind, l: u32) -> bool {
    k matches StmtKind::LockAcquire { lock } && lock == l
}

pub open spec fn releases_lock(k: StmtKind, l: u32) -> bool {
    k matches StmtKind::LockRelease { lock } && lock == l
}

// --- rule 20: data race ------------------------------------------------

/// No synchronization statement strictly between offsets `i` and `j`.
pub open spec fn no_sync_between(f: FunctionDecl, i: int, j: int) -> bool {
    forall|t: int| i < t < j ==> !is_sync_stmt((#[trigger] f.stmts@[t]).kind)
}

/// Shared state mutated at `j` was already mutated by a different task,
/// with no synchronization in between.
pub open spec fn race_fires(f: FunctionDecl, j: int) -> bool {
    &&& f.stmts@[j].kind matches StmtKind::SharedMutate { state }
    &&& exists|i: int|
        0 <= i < j && mutates_state((#[trigger] f.stmts@[i]).kind, state) && f.stmts@[i].task
            != f.stmts@[j].task && no_sync_between(f, i, j)
}

// --- rule 21: lock held across a suspension point -----------------------

/// The lock acquired at `i` is still held at `j`: no release of it in
/// between.
pub open spec fn no_release_between(f: FunctionDecl, l: u32, i: int, j: int) -> bool {
    forall|t: int| i < t < j ==> !releases_lock((#[trigger] f.stmts@[t]).kind, l)
}

/// The suspension point at `j` is reached while a lock acquired in the
/// same lexical scope is still held.
pub open spec fn lock_suspend_fires(f: FunctionDecl, j: int) -> bool {
    &&& f.stmts@[j].kind is Suspend
    &&& exists|i: int, l: u32|
        0 <= i < j && #[trigger] acquires_lock(f.stmts@[i].kind, l) && f.stmts@[i].scope
            == f.stmts@[j].scope && no_release_between(f, l, i, j)
}

// --- rule 22: unbounded spawning ----------------------------------------

pub open spec fn has_capacity_bound(f: FunctionDecl) -> bool {
    exists|t: int| 0 <= t < f.stmts@.len() && (#[trigger] f.stmts@[t]).kind is CapacityBound
}

/// A spawn inside a loop, with no bound, semaphore or channel capacity
/// anywhere in scope.
pub open spec fn spawn_fires(f: FunctionDecl, j: int) -> bool {
    &&& f.stmts@[j].kind matches StmtKind::Spawn { task, in_loop } && in_loop
    &&& !has_capacity_bound(f)
}

// --- rule 23: blocking call in a cooperatively scheduled function --------

pub open spec fn blocking_fires(f: FunctionDecl, j: int) -> bool {
    f.is_async && f.stmts@[j].kind is BlockingIo
}

// --- rule 24: spawned task never awaited or joined ------------------------

pub open spec fn joins_task(k: StmtKind, t: u32) -> bool {
    k matches StmtKind::Join { task } && task == t
}

pub open spec fn unjoined_fires(f: FunctionDecl, j: int) -> bool {
    &&& f.stmts@[j].kind matches StmtKind::Spawn { task, in_loop }
    &&& forall|t: int| 0 <= t < f.stmts@.len() ==> !joins_task((#[trigger] f.stmts@[t]).kind, task)
}

// --- rule 25: inconsistent lock acquisition order --------------------------

/// Some task acquires `a`, then `b` while `a` is still held.
pub open spec fn lock_order_pair(f: FunctionDecl, a: int, b: int, i: int, j: int) -> bool {
    &&& 0 <= i < j < f.stmts@.len()
    &&& f.stmts@[i].kind matches StmtKind::LockAcquire { lock: la }
    &&& la as int == a
    &&& f.stmts@[j].kind matches StmtKind::LockAcquire { lock: lb }
    &&& lb as int == b
    &&& f.stmts@[i].task == f.stmts@[j].task
    &&& no_release_between(f, la, i, j)
}

pub open spec fn lock_edge(f: FunctionDecl, a: int, b: int) -> bool {
    exists|i: int, j: int| #[trigger] lock_order_pair(f, a, b, i, j)
}

/// The lock-order edge relation as a function value, for the shared
/// cycle machinery.
pub open spec fn lock_edge_fn(f: FunctionDecl) -> spec_fn(int, int) -> bool {
    |x: int, y: int| lock_edge(f, x, y)
}

/// Lock id `a` lies on a cycle of the acquisition-order graph.
pub open spec fn lock_on_cycle(f: FunctionDecl, a: int) -> bool {
    graph::cycle_pred(f.stmts@.len() as int, lock_edge_fn(f), a)
}

/// The acquisition-order graph over the function's lock ids contains a
/// cycle. Lock ids are normalized below the statement count.
pub open spec fn lock_cycle_fires(f: FunctionDecl) -> bool {
    exists|a: int| 0 <= a < f.stmts@.len() && #[trigger] lock_on_cycle(f, a)
}

// --- rule 26: i/o with no bound or deadline ---------------------------------

pub open spec fn io_fires(f: FunctionDecl, j: int) -> bool {
    f.stmts@[j].kind matches StmtKind::Io { has_deadline } && !has_deadline
}

// --- the findings the detector emits ------------------------------------

pub open spec fn race_seq(f: FunctionDecl, d: int, upto: int) -> Seq<Finding>
    decreases upto,
{
    if upto <= 0 {
        seq![]
    } else {
        race_seq(f, d, upto - 1) + if race_fires(f, upto - 1) {
            seq![
                stmt_finding(
                    RULE_DATA_RACE,
                    Domain::Concurrency,
                    Severity::Critical,
                    Confidence::Likely,
                    d,
                    upto - 1,
                ),
            ]
        } else {
            seq![]
        }
    }
}

pub open spec fn lock_suspend_seq(f: FunctionDecl, d: int, upto: int) -> Seq<Finding>
    decreases upto,
{
    if upto <= 0 {
        seq![]
    } else {
        lock_suspend_seq(f, d, upto - 1) + if lock_suspend_fires(f, upto - 1) {
            seq![
                stmt_finding(
                    RULE_LOCK_ACROSS_SUSPEND,
                    Domain::Concurrency,
                    Severity::Critical,
                    Confidence::Definite,
                    d,
                    upto - 1,
                ),
            ]
        } else {
            seq![]
        }
    }
}

pub open spec fn spawn_seq(f: FunctionDecl, d: int, upto: int) -> Seq<Finding>
    decreases upto,
{
    if upto <= 0 {
        seq![]
    } else {
        spawn_seq(f, d, upto - 1) + if spawn_fires(f, upto - 1) {
            seq![
                stmt_finding(
                    RULE_UNBOUNDED_SPAWN,
                    Domain::Concurrency,
                    Severity::Warning,
                    Confidence::Likely,
                    d,
                    upto - 1,
                ),
            ]
        } else {
            seq![]
        }
    }
}

pub open spec fn blocking_seq(f: FunctionDecl, d: int, upto: int) -> Seq<Finding>
    decreases upto,
{
    if upto <= 0 {
        seq![]
    } else {
        blocking_seq(f, d, upto - 1) + if blocking_fires(f, upto - 1) {
            seq![
                stmt_finding(
                    RULE_BLOCKING_IN_ASYNC,
                    Domain::Concurrency,
                    Severity::Critical,
                    Confidence::Definite,
                    d,
                    upto - 1,
                ),
            ]
        } else {
            seq![]
        }
    }
}

pub open spec fn unjoined_seq(f: FunctionDecl, d: int, upto: int) -> Seq<Finding>
    decreases upto,
{
    if upto <= 0 {
        seq![]
    } else {
        unjoined_seq(f, d, upto - 1) + if unjoined_fires(f, upto - 1) {
            seq![
                stmt_finding(
                    RULE_UNJOINED_TASK,
                    Domain::Concurrency,
                    Severity::Warning,
                    Confidence::Likely,
                    d,
                    upto - 1,
                ),
            ]
        } else {
            seq![]
        }
    }
}

pub open spec fn lock_cycle_seq(f: FunctionDecl, d: int) -> Seq<Finding> {
    if lock_cycle_fires(f) {
        seq![
            decl_finding(
                RULE_LOCK_ORDER_CYCLE,
                Domain::Concurrency,
                Severity::Critical,
                Confidence::Likely,
                d,
            ),
        ]
    } else {
        seq![]
    }
}

pub open spec fn io_seq(f: FunctionDecl, d: int, upto: int) -> Seq<Finding>
    decreases upto,
{
    if upto <= 0 {
        seq![]
    } else {
        io_seq(f, d, upto - 1) + if io_fires(f, upto - 1) {
            seq![
                stmt_finding(
                    RULE_IO_NO_DEADLINE,
                    Domain::Concurrency,
                    Severity::Warning,
                    Confidence::Likely,
                    d,
                    upto - 1,
                ),
            ]
        } else {
            seq![]
        }
    }
}

/// Everything the detector says about one function, in rule order.
pub open spec fn conc_fn_findings(f: FunctionDecl, d: int) -> Seq<Finding> {
    let n = f.stmts@.len() as int;
    race_seq(f, d, n) + lock_suspend_seq(f, d, n) + spawn_seq(f, d, n) + blocking_seq(f, d, n)
        + unjoined_seq(f, d, n) + lock_cycle_seq(f, d) + io_seq(f, d, n)
}

pub open spec fn conc_decl_findings(u: CompilationUnit, d: int) -> Seq<Finding> {
    match u.decls@[d] {
        Declaration::Function(f) => conc_fn_findings(f, d),
        _ => seq![],
    }
}

pub open spec fn conc_findings_upto(u: CompilationUnit, upto: int) -> Seq<Finding>
    decreases upto,
{
    if upto <= 0 {
        seq![]
    } else {
        conc_findings_upto(u, upto - 1) + conc_decl_findings(u, upto - 1)
    }
}

/// The concurrency detector's findings for a whole unit.
pub open spec fn conc_findings(u: CompilationUnit) -> Seq<Finding> {
    conc_findings_upto(u, u.decls@.len() as int)
}

// --- executable rule matchers -------------------------------------------

fn no_sync_between_at(f: &FunctionDecl, i: usize, j: usize) -> (b: bool)
    requires
        i < j <= f.stmts@.len(),
    ensures
        b == no_sync_between(*f, i as int, j as int),
{
    let mut t: usize = i + 1;
    while t < j
        invariant
            i < t <= j,
            forall|q: int| i < q < t ==> !is_sync_stmt((#[trigger] f.stmts@[q]).kind),
        decreases j - t,
    {
        let sync = match f.stmts[t].kind {
            StmtKind::Sync => true,
            StmtKind::LockAcquire { .. } => true,
            _ => false,
        };
        if sync {
            return false;
        }
        t = t + 1;
    }
    true
}

fn race_fires_at(f: &FunctionDecl, j: usize) -> (b: bool)
    requires
        j < f.stmts@.len(),
    ensures
        b == race_fires(*f, j as int),
{
    let state = match f.stmts[j].kind {
        StmtKind::SharedMutate { state } => state,
        _ => {
            return false;
        },
    };
    let mut i: usize = 0;
    while i < j
        invariant
            i <= j,
            j < f.stmts@.len(),
            f.stmts@[j as int].kind matches StmtKind::SharedMutate { state: s } && s == state,
            forall|q: int|
                0 <= q < i ==> !(mutates_state((#[trigger] f.stmts@[q]).kind, state)
                    && f.stmts@[q].task != f.stmts@[j as int].task && no_sync_between(
                    *f,
                    q,
                    j as int,
                )),
        decreases j - i,
    {
        let hit = match f.stmts[i].kind {
            StmtKind::SharedMutate { state: s2 } => s2 == state,
            _ => false,
        };
        if hit && f.stmts[i].task != f.stmts[j].task && no_sync_between_at(f, i, j) {
            return true;
        }
        i = i + 1;
    }
    false
}

fn no_release_between_at(f: &FunctionDecl, l: u32, i: usize, j: usize) -> (b: bool)
    requires
        i < j <= f.stmts@.len(),
    ensures
        b == no_release_between(*f, l, i as int, j as int),
{
    let mut t: usize = i + 1;
    while t < j
        invariant
            i < t <= j,
            forall|q: int| i < q < t ==> !releases_lock((#[trigger] f.stmts@[q]).kind, l),
        decreases j - t,
    {
        let rel = match f.stmts[t].kind {
            StmtKind::LockRelease { lock } => lock == l,
            _ => false,
        };
        if rel {
            return false;
        }
        t = t + 1;
    }
    true
}

fn lock_suspend_fires_at(f: &FunctionDecl, j: usize) -> (b: bool)
    requires
        j < f.stmts@.len(),
    ensures
        b == lock_suspend_fires(*f, j as int),
{
    let suspend = match f.stmts[j].kind {
        StmtKind::Suspend => true,
        _ => false,
    };
    if !suspend {
        return false;
    }
    let mut i: usize = 0;
    while i < j
        invariant
            i <= j,
            j < f.stmts@.len(),
            f.stmts@[j as int].kind is Suspend,
            forall|q: int, l: u32|
                0 <= q < i ==> !(#[trigger] acquires_lock(f.stmts@[q].kind, l) && f.stmts@[q].scope
                    == f.stmts@[j as int].scope && no_release_between(*f, l, q, j as int)),
        decreases j - i,
    {
        let acq: Option<u32> = match f.stmts[i].kind {
            StmtKind::LockAcquire { lock } => Option::Some(lock),
            _ => Option::None,
        };
        match acq {
            Option::Some(l) => {
                proof {
                    assert(acquires_lock(f.stmts@[i as int].kind, l));
                    assert(forall|l2: u32|
                        acquires_lock(f.stmts@[i as int].kind, l2) ==> l2 == l);
                }
                if f.stmts[i].scope == f.stmts[j].scope && no_release_between_at(f, l, i, j) {
                    return true;
                }
            },
            Option::None => {},
        }
        i = i + 1;
    }
    false
}

fn spawn_fires_at(f: &FunctionDecl, j: usize, bound: bool) -> (b: bool)
    requires
        j < f.stmts@.len(),
        bound == has_capacity_bound(*f),
    ensures
        b == spawn_fires(*f, j as int),
{
    match f.stmts[j].kind {
        StmtKind::Spawn { task, in_loop } => in_loop && !bound,
        _ => false,
    }
}

fn has_capacity_bound_ex(f: &FunctionDecl) -> (b: bool)
    ensures
        b == has_capacity_bound(*f),
{
    let n = f.stmts.len();
    let mut t: usize = 0;
    while t < n
        invariant
            t <= n,
            n == f.stmts@.len(),
            forall|q: int| 0 <= q < t ==> !((#[trigger] f.stmts@[q]).kind is CapacityBound),
        decreases n - t,
    {
        let is_bound = match f.stmts[t].kind {
            StmtKind::CapacityBound => true,
            _ => false,
        };
        if is_bound {
            return true;
        }
        t = t + 1;
    }
    false
}

fn unjoined_fires_at(f: &FunctionDecl, j: usize) -> (b: bool)
    requires
        j < f.stmts@.len(),
    ensures
        b == unjoined_fires(*f, j as int),
{
    let task = match f.stmts[j].kind {
        StmtKind::Spawn { task, in_loop } => task,
        _ => {
            return false;
        },
    };
    let n = f.stmts.len();
    let mut t: usize = 0;
    while t < n
        invariant
            t <= n,
            n == f.stmts@.len(),
            j < n,
            f.stmts@[j as int].kind matches StmtKind::Spawn { task: t2, in_loop } && t2 == task,
            forall|q: int| 0 <= q < t ==> !joins_task((#[trigger] f.stmts@[q]).kind, task),
        decreases n - t,
    {
        let joins = match f.stmts[t].kind {
            StmtKind::Join { task: t3 } => t3 == task,
            _ => false,
        };
        if joins {
            return false;
        }
        t = t + 1;
    }
    true
}

fn io_fires_at(f: &FunctionDecl, j: usize) -> (b: bool)
    requires
        j < f.stmts@.len(),
    ensures
        b == io_fires(*f, j as int),
{
    match f.stmts[j].kind {
        StmtKind::Io { has_deadline } => !has_deadline,
        _ => false,
    }
}

/// Does some task acquire `a` at `i` and `b` later, holding `a`?
/// `la` is the u32 lock tag equal to `a`.
fn lock_edge_from(f: &FunctionDecl, a: usize, b: usize, la: u32, i: usize) -> (r: bool)
    requires
        i < f.stmts@.len(),
        f.stmts@[i as int].kind matches StmtKind::LockAcquire { lock } && lock == la,
        la as int == a as int,
    ensures
        r == exists|j: int| #[trigger] lock_order_pair(*f, a as int, b as int, i as int, j),
{
    let n = f.stmts.len();
    let mut j: usize = i + 1;
    while j < n
        invariant
            i < j <= n,
            n == f.stmts@.len(),
            forall|q: int| i < q < j ==> !lock_order_pair(*f, a as int, b as int, i as int, q),
        decreases n - j,
    {
        let acq_b = match f.stmts[j].kind {
            StmtKind::LockAcquire { lock } => lock as usize == b,
            _ => false,
        };
        if acq_b && f.stmts[i].task == f.stmts[j].task && no_release_between_at(f, la, i, j) {
            proof {
                assert(lock_order_pair(*f, a as int, b as int, i as int, j as int));
            }
            return true;
        }
        proof {
            assert(!lock_order_pair(*f, a as int, b as int, i as int, j as int));
        }
        j = j + 1;
    }
    proof {
        assert(forall|q: int|
            #[trigger] lock_order_pair(*f, a as int, b as int, i as int, q) ==> i < q < n);
    }
    false
}

fn lock_edge_at(f: &FunctionDecl, a: usize, b: usize) -> (r: bool)
    ensures
        r == lock_edge(*f, a as int, b as int),
{
    let n = f.stmts.len();
    let mut i: usize = 0;
    while i < n
        invariant
            i <= n,
            n == f.stmts@.len(),
            forall|p: int, q: int| 0 <= p < i ==> !lock_order_pair(*f, a as int, b as int, p, q),
        decreases n - i,
    {
        let acq_a: Option<u32> = match f.stmts[i].kind {
            StmtKind::LockAcquire { lock } => {
                if lock as usize == a {
                    Option::Some(lock)
                } else {
                    Option::None
                }
            },
            _ => Option::None,
        };
        match acq_a {
            Option::Some(la) => {
                if lock_edge_from(f, a, b, la, i) {
                    return true;
                }
            },
            Option::None => {},
        }
        proof {
            assert(forall|q: int| !lock_order_pair(*f, a as int, b as int, i as int, q));
        }
        i = i + 1;
    }
    proof {
        assert(forall|p: int, q: int|
            #[trigger] lock_order_pair(*f, a as int, b as int, p, q) ==> 0 <= p < n);
    }
    false
}

fn lock_cycle_fires_ex(f: &FunctionDecl) -> (r: bool)
    ensures
        r == lock_cycle_fires(*f),
{
    let n = f.stmts.len();
    let mut m: Vec<Vec<bool>> = Vec::new();
    let mut a: usize = 0;
    while a < n
        invariant
            a <= n,
            n == f.stmts@.len(),
            m@.len() == a,
            forall|x: int| 0 <= x < a ==> (#[trigger] m@[x])@.len() == n,
            forall|x: int, y: int|
                0 <= x < a && 0 <= y < n ==> (#[trigger] m@[x]@[y]) == lock_edge(*f, x, y),
        decreases n - a,
    {
        let mut row: Vec<bool> = Vec::new();
        let mut b: usize = 0;
        while b < n
            invariant
                a < n,
                b <= n,
                n == f.stmts@.len(),
                row@.len() == b,
                forall|y: int| 0 <= y < b ==> (#[trigger] row@[y]) == lock_edge(*f, a as int, y),
            decreases n - b,
        {
            row.push(lock_edge_at(f, a, b));
            b = b + 1;
        }
        m.push(row);
        a = a + 1;
    }
    let cycles = graph::cycle_nodes(&m);
    let mut i: usize = 0;
    proof {
        assert forall|x: int| 0 <= x < n implies #[trigger] graph::on_cycle(m@, x)
            == lock_on_cycle(*f, x) by {
            assert forall|p: int, q: int|
                0 <= p < m@.len() && 0 <= q < m@.len() implies #[trigger] m@[p]@[q]
                == lock_edge_fn(*f)(p, q) by {
                assert(lock_edge_fn(*f)(p, q) == lock_edge(*f, p, q));
            }
            graph::lemma_reaches_matrix_pred(m@, lock_edge_fn(*f), x, x, n as nat);
        }
    }
    while i < n
        invariant
            i <= n,
            n == f.stmts@.len(),
            cycles@.len() == n,
            forall|x: int| 0 <= x < n ==> (#[trigger] cycles@[x]) == graph::on_cycle(m@, x),
            forall|x: int| 0 <= x < n ==> #[trigger] graph::on_cycle(m@, x) == lock_on_cycle(*f, x),
            forall|x: int| 0 <= x < i ==> !lock_on_cycle(*f, x),
        decreases n - i,
    {
        if cycles[i] {
            return true;
        }
        i = i + 1;
    }
    false
}

// --- the detector --------------------------------------------------------

/// Generic shape of each statement-level scan: walk the statements and
/// append one finding per offset where the rule fires.
fn scan_race(f: &FunctionDecl, d: usize, out: &mut Vec<Finding>)
    ensures
        final(out)@ == old(out)@ + race_seq(*f, d as int, f.stmts@.len() as int),
{
    let n = f.stmts.len();
    let mut j: usize = 0;
    while j < n
        invariant
            j <= n,
            n == f.stmts@.len(),
            out@ == old(out)@ + race_seq(*f, d as int, j as int),
        decreases n - j,
    {
        if race_fires_at(f, j) {
            out.push(
                Finding {
                    rule_id: RULE_DATA_RACE,
                    domain: Domain::Concurrency,
                    severity: Severity::Critical,
                    confidence: Confidence::Likely,
                    decl: d,
                    stmt_offset: Option::Some(j),
                },
            );
        }
        proof {
            assert(out@ =~= old(out)@ + race_seq(*f, d as int, j + 1));
        }
        j = j + 1;
    }
}

fn scan_lock_suspend(f: &FunctionDecl, d: usize, out: &mut Vec<Finding>)
    ensures
        final(out)@ == old(out)@ + lock_suspend_seq(*f, d as int, f.stmts@.len() as int),
{
    let n = f.stmts.len();
    let mut j: usize = 0;
    while j < n
        invariant
            j <= n,
            n == f.stmts@.len(),
            out@ == old(out)@ + lock_suspend_seq(*f, d as int, j as int),
        decreases n - j,
    {
        if lock_suspend_fires_at(f, j) {
            out.push(
                Finding {
                    rule_id: RULE_LOCK_ACROSS_SUSPEND,
                    domain: Domain::Concurrency,
                    severity: Severity::Critical,
                    confidence: Confidence::Definite,
                    decl: d,
                    stmt_offset: Option::Some(j),
                },
            );
        }
        proof {
            assert(out@ =~= old(out)@ + lock_suspend_seq(*f, d as int, j + 1));
        }
        j = j + 1;
    }
}

fn scan_spawn(f: &FunctionDecl, d: usize, out: &mut Vec<Finding>)
    ensures
        final(out)@ == old(out)@ + spawn_seq(*f, d as int, f.stmts@.len() as int),
{
    let n = f.stmts.len();
    let bound = has_capacity_bound_ex(f);
    let mut j: usize = 0;
    while j < n
        invariant
            j <= n,
            n == f.stmts@.len(),
            bound == has_capacity_bound(*f),
            out@ == old(out)@ + spawn_seq(*f, d as int, j as int),
        decreases n - j,
    {
        if spawn_fires_at(f, j, bound) {
            out.push(
                Finding {
                    rule_id: RULE_UNBOUNDED_SPAWN,
                    domain: Domain::Concurrency,
                    severity: Severity::Warning,
                    confidence: Confidence::Likely,
                    decl: d,
                    stmt_offset: Option::Some(j),
                },
            );
        }
        proof {
            assert(out@ =~= old(out)@ + spawn_seq(*f, d as int, j + 1));
        }
        j = j + 1;
    }
}

fn scan_blocking(f: &FunctionDecl, d: usize, out: &mut Vec<Finding>)
    ensures
        final(out)@ == old(out)@ + blocking_seq(*f, d as int, f.stmts@.len() as int),
{
    let n = f.stmts.len();
    let mut j: usize = 0;
    while j < n
        invariant
            j <= n,
            n == f.stmts@.len(),
            out@ == old(out)@ + blocking_seq(*f, d as int, j as int),
        decreases n - j,
    {
        if f.is_async && io_blocking_at(f, j) {
            out.push(
                Finding {
                    rule_id: RULE_BLOCKING_IN_ASYNC,
                    domain: Domain::Concurrency,
                    severity: Severity::Critical,
                    confidence: Confidence::Definite,
                    decl: d,
                    stmt_offset: Option::Some(j),
                },
            );
        }
        proof {
            assert(out@ =~= old(out)@ + blocking_seq(*f, d as int, j + 1));
        }
        j = j + 1;
    }
}

fn scan_unjoined(f: &FunctionDecl, d: usize, out: &mut Vec<Finding>)
    ensures
        final(out)@ == old(out)@ + unjoined_seq(*f, d as int, f.stmts@.len() as int),
{
    let n = f.stmts.len();
    let mut j: usize = 0;
    while j < n
        invariant
            j <= n,
            n == f.stmts@.len(),
            out@ == old(out)@ + unjoined_seq(*f, d as int, j as int),
        decreases n - j,
    {
        if unjoined_fires_at(f, j) {
            out.push(
                Finding {
                    rule_id: RULE_UNJOINED_TASK,
                    domain: Domain::Concurrency,
                    severity: Severity::Warning,
                    confidence: Confidence::Likely,
                    decl: d,
                    stmt_offset: Option::Some(j),
                },
            );
        }
        proof {
            assert(out@ =~= old(out)@ + unjoined_seq(*f, d as int, j + 1));
        }
        j = j + 1;
    }
}

fn scan_io(f: &FunctionDecl, d: usize, out: &mut Vec<Finding>)
    ensures
        final(out)@ == old(out)@ + io_seq(*f, d as int, f.stmts@.len() as int),
{
    let n = f.stmts.len();
    let mut j: usize = 0;
    while j < n
        invariant
            j <= n,
            n == f.stmts@.len(),
            out@ == old(out)@ + io_seq(*f, d as int, j as int),
        decreases n - j,
    {
        if io_fires_at(f, j) {
            out.push(
                Finding {
                    rule_id: RULE_IO_NO_DEADLINE,
                    domain: Domain::Concurrency,
                    severity: Severity::Warning,
                    confidence: Confidence::Likely,
                    decl: d,
                    stmt_offset: Option::Some(j),
                },
            );
        }
        proof {
            assert(out@ =~= old(out)@ + io_seq(*f, d as int, j + 1));
        }
        j = j + 1;
    }
}

/// Append everything the detector says about one function, rule by rule.
fn scan_fn_stmts(f: &FunctionDecl, d: usize, out: &mut Vec<Finding>)
    ensures
        final(out)@ == old(out)@ + conc_fn_findings(*f, d as int),
{
    scan_race(f, d, out);
    scan_lock_suspend(f, d, out);
    scan_spawn(f, d, out);
    scan_blocking(f, d, out);
    scan_unjoined(f, d, out);
    if lock_cycle_fires_ex(f) {
        out.push(
            Finding {
                rule_id: RULE_LOCK_ORDER_CYCLE,
                domain: Domain::Concurrency,
                severity: Severity::Critical,
                confidence: Confidence::Likely,
                decl: d,
                stmt_offset: Option::None,
            },
        );
    }
    scan_io(f, d, out);
    proof {
        assert(final(out)@ =~= old(out)@ + conc_fn_findings(*f, d as int));
    }
}

fn io_blocking_at(f: &FunctionDecl, j: usize) -> (b: bool)
    requires
        j < f.stmts@.len(),
    ensures
        b == (f.stmts@[j as int].kind is BlockingIo),
{
    match f.stmts[j].kind {
        StmtKind::BlockingIo => true,
        _ => false,
    }
}

/// Run the concurrency detector over a unit. Every finding carries the
/// Concurrency domain, and its declaration id resolves inside the unit.
pub fn detect_concurrency(u: &CompilationUnit) -> (r: Vec<Finding>)
    requires
        u.wf(),
    ensures
        r@ == conc_findings(*u),
{
    let n = u.decls.len();
    let mut out: Vec<Finding> = Vec::new();
    let mut d: usize = 0;
    while d < n
        invariant
            d <= n,
            n == u.decls@.len(),
            out@ == conc_findings_upto(*u, d as int),
        decreases n - d,
    {
        match &u.decls[d] {
            Declaration::Function(f) => {
                scan_fn_stmts(f, d, &mut out);
            },
            _ => {},
        }
        proof {
            assert(out@ =~= conc_findings_upto(*u, d + 1));
        }
        d = d + 1;
    }
    out
}

// --- characterization of what the detector emits ---------------------------

/// Every element of a statement-rule sequence is the rule's own finding,
/// placed at an offset where the rule fires.
proof fn lemma_race_seq_elems(f: FunctionDecl, d: int, upto: int)
    requires
        0 <= upto <= f.stmts@.len(),
    ensures
        forall|k: int|
            0 <= k < race_seq(f, d, upto).len() ==> {
                let e = #[trigger] race_seq(f, d, upto)[k];
                &&& e.rule_id == RULE_DATA_RACE
                &&& e.domain is Concurrency
                &&& e.severity is Critical
                &&& e.confidence is Likely
                &&& e.decl == d as usize
                &&& e.stmt_offset matches Option::Some(j) && 0 <= j < upto && race_fires(f, j as int)
                    && j == j as int as usize
            },
    decreases upto,
{
    vstd::std_specs::vec::axiom_spec_len(&f.stmts);
    if upto > 0 {
        lemma_race_seq_elems(f, d, upto - 1);
    }
}

proof fn lemma_lock_suspend_seq_elems(f: FunctionDecl, d: int, upto: int)
    requires
        0 <= upto <= f.stmts@.len(),
    ensures
        forall|k: int|
            0 <= k < lock_suspend_seq(f, d, upto).len() ==> {
                let e = #[trigger] lock_suspend_seq(f, d, upto)[k];
                &&& e.rule_id == RULE_LOCK_ACROSS_SUSPEND
                &&& e.domain is Concurrency
                &&& e.severity is Critical
                &&& e.confidence is Definite
                &&& e.decl == d as usize
                &&& e.stmt_offset matches Option::Some(j) && 0 <= j < upto && lock_suspend_fires(f, j as int)
                    && j == j as int as usize
            },
    decreases upto,
{
    vstd::std_specs::vec::axiom_spec_len(&f.stmts);
    if upto > 0 {
        lemma_lock_suspend_seq_elems(f, d, upto - 1);
    }
}

proof fn lemma_spawn_seq_elems(f: FunctionDecl, d: int, upto: int)
    requires
        0 <= upto <= f.stmts@.len(),
    ensures
        forall|k: int|
            0 <= k < spawn_seq(f, d, upto).len() ==> {
                let e = #[trigger] spawn_seq(f, d, upto)[k];
                &&& e.rule_id == RULE_UNBOUNDED_SPAWN
                &&& e.domain is Concurrency
                &&& e.severity is Warning
                &&& e.confidence is Likely
                &&& e.decl == d as usize
                &&& e.stmt_offset matches Option::Some(j) && 0 <= j < upto && spawn_fires(f, j as int)
                    && j == j as int as usize
            },
    decreases upto,
{
    vstd::std_specs::vec::axiom_spec_len(&f.stmts);
    if upto > 0 {
        lemma_spawn_seq_elems(f, d, upto - 1);
    }
}

proof fn lemma_blocking_seq_elems(f: FunctionDecl, d: int, upto: int)
    requires
        0 <= upto <= f.stmts@.len(),
    ensures
        forall|k: int|
            0 <= k < blocking_seq(f, d, upto).len() ==> {
                let e = #[trigger] blocking_seq(f, d, upto)[k];
                &&& e.rule_id == RULE_BLOCKING_IN_ASYNC
                &&& e.domain is Concurrency
                &&& e.severity is Critical
                &&& e.confidence is Definite
                &&& e.decl == d as usize
                &&& e.stmt_offset matches Option::Some(j) && 0 <= j < upto && blocking_fires(f, j as int)
                    && j == j as int as usize
            },
    decreases upto,
{
    vstd::std_specs::vec::axiom_spec_len(&f.stmts);
    if upto > 0 {
        lemma_blocking_seq_elems(f, d, upto - 1);
    }
}

proof fn lemma_unjoined_seq_elems(f: FunctionDecl, d: int, upto: int)
    requires
        0 <= upto <= f.stmts@.len(),
    ensures
        forall|k: int|
            0 <= k < unjoined_seq(f, d, upto).len() ==> {
                let e = #[trigger] unjoined_seq(f, d, upto)[k];
                &&& e.rule_id == RULE_UNJOINED_TASK
                &&& e.domain is Concurrency
                &&& e.severity is Warning
                &&& e.confidence is Likely
                &&& e.decl == d as usize
                &&& e.stmt_offset matches Option::Some(j) && 0 <= j < upto && unjoined_fires(f, j as int)
                    && j == j as int as usize
            },
    decreases upto,
{
    vstd::std_specs::vec::axiom_spec_len(&f.stmts);
    if upto > 0 {
        lemma_unjoined_seq_elems(f, d, upto - 1);
    }
}

proof fn lemma_io_seq_elems(f: FunctionDecl, d: int, upto: int)
    requires
        0 <= upto <= f.stmts@.len(),
    ensures
        forall|k: int|
            0 <= k < io_seq(f, d, upto).len() ==> {
                let e = #[trigger] io_seq(f, d, upto)[k];
                &&& e.rule_id == RULE_IO_NO_DEADLINE
                &&& e.domain is Concurrency
                &&& e.severity is Warning
                &&& e.confidence is Likely
                &&& e.decl == d as usize
                &&& e.stmt_offset matches Option::Some(j) && 0 <= j < upto && io_fires(f, j as int)
                    && j == j as int as usize
            },
    decreases upto,
{
    vstd::std_specs::vec::axiom_spec_len(&f.stmts);
    if upto > 0 {
        lemma_io_seq_elems(f, d, upto - 1);
    }
}

/// Every finding the detector emits about a function carries the
/// Concurrency domain and that function's declaration id.
pub proof fn lemma_conc_fn_findings_shape(f: FunctionDecl, d: int)
    ensures
        forall|k: int|
            0 <= k < conc_fn_findings(f, d).len() ==> (#[trigger] conc_fn_findings(f, d)[k]).domain
                is Concurrency && conc_fn_findings(f, d)[k].decl == d as usize,
{
    let n = f.stmts@.len() as int;
    lemma_race_seq_elems(f, d, n);
    lemma_lock_suspend_seq_elems(f, d, n);
    lemma_spawn_seq_elems(f, d, n);
    lemma_blocking_seq_elems(f, d, n);
    lemma_unjoined_seq_elems(f, d, n);
    lemma_io_seq_elems(f, d, n);
}

/// Every finding of the detector, over a whole unit, carries the
/// Concurrency domain and a declaration id that resolves in the unit.
pub proof fn lemma_conc_findings_resolve(u: CompilationUnit, upto: int)
    requires
        0 <= upto <= u.decls@.len(),
    ensures
        forall|k: int|
            0 <= k < conc_findings_upto(u, upto).len() ==> (#[trigger] conc_findings_upto(u, upto)[k]).domain
                is Concurrency && conc_findings_upto(u, upto)[k].decl < upto,
    decreases upto,
{
    if upto > 0 {
        lemma_conc_findings_resolve(u, upto - 1);
        match u.decls@[upto - 1] {
            Declaration::Function(f) => {
                lemma_conc_fn_findings_shape(f, upto - 1);
            },
            _ => {},
        }
    }
}

// --- the lock-across-suspend law -------------------------------------------

/// Membership for a firing offset.
proof fn lemma_lock_suspend_seq_fires(f: FunctionDecl, d: int, j: int, upto: int)
    requires
        0 <= j < upto,
        lock_suspend_fires(f, j),
    ensures
        lock_suspend_seq(f, d, upto).contains(
            stmt_finding(
                RULE_LOCK_ACROSS_SUSPEND,
                Domain::Concurrency,
                Severity::Critical,
                Confidence::Definite,
                d,
                j,
            ),
        ),
    decreases upto,
{
    let target = stmt_finding(
        RULE_LOCK_ACROSS_SUSPEND,
        Domain::Concurrency,
        Severity::Critical,
        Confidence::Definite,
        d,
        j,
    );
    if j == upto - 1 {
        let s = lock_suspend_seq(f, d, upto);
        assert(s[s.len() - 1] == target);
    } else {
        lemma_lock_suspend_seq_fires(f, d, j, upto - 1);
        let prev = lock_suspend_seq(f, d, upto - 1);
        let k = choose|k: int| 0 <= k < prev.len() && prev[k] == target;
        assert(lock_suspend_seq(f, d, upto)[k] == target);
    }
}

/// A lock acquisition immediately followed, in the same lexical scope, by
/// a suspension point with no intervening release always yields a
/// Critical concurrency finding at that suspension point.
pub proof fn lemma_lock_then_suspend_is_critical(f: FunctionDecl, d: int, i: int)
    requires
        0 <= i,
        i + 1 < f.stmts@.len(),
        f.stmts@[i].kind matches StmtKind::LockAcquire { .. },
        f.stmts@[i + 1].kind is Suspend,
        f.stmts@[i].scope == f.stmts@[i + 1].scope,
    ensures
        conc_fn_findings(f, d).contains(
            stmt_finding(
                RULE_LOCK_ACROSS_SUSPEND,
                Domain::Concurrency,
                Severity::Critical,
                Confidence::Definite,
                d,
                i + 1,
            ),
        ),
{
    let l = f.stmts@[i].kind->LockAcquire_lock;
    assert(acquires_lock(f.stmts@[i].kind, l));
    assert(no_release_between(f, l, i, i + 1));
    assert(lock_suspend_fires(f, i + 1));
    let n = f.stmts@.len() as int;
    lemma_lock_suspend_seq_fires(f, d, i + 1, n);
    let target = stmt_finding(
        RULE_LOCK_ACROSS_SUSPEND,
        Domain::Concurrency,
        Severity::Critical,
        Confidence::Definite,
        d,
        i + 1,
    );
    let s = lock_suspend_seq(f, d, n);
    let k = choose|k: int| 0 <= k < s.len() && s[k] == target;
    assert(conc_fn_findings(f, d)[race_seq(f, d, n).len() + k] == target);
}

/// The symmetric ordering, release before the suspension point, yields no
/// lock-across-suspend finding at that point: whenever every lock
/// acquired before a suspension point in its scope is released again
/// before it, the detector stays silent there.
pub proof fn lemma_release_before_suspend_unflagged(f: FunctionDecl, d: int, j: int)
    requires
        0 <= j < f.stmts@.len(),
        forall|i: int, l: u32|
            0 <= i < j && #[trigger] acquires_lock(f.stmts@[i].kind, l) && f.stmts@[i].scope
                == f.stmts@[j].scope ==> !no_release_between(f, l, i, j),
    ensures
        forall|k: int|
            0 <= k < conc_fn_findings(f, d).len() && (#[trigger] conc_fn_findings(f, d)[k]).rule_id
                == RULE_LOCK_ACROSS_SUSPEND ==> conc_fn_findings(f, d)[k].stmt_offset
                != Option::Some(j as usize),
{
    vstd::std_specs::vec::axiom_spec_len(&f.stmts);
    assert(!lock_suspend_fires(f, j));
    let n = f.stmts@.len() as int;
    lemma_race_seq_elems(f, d, n);
    lemma_lock_suspend_seq_elems(f, d, n);
    lemma_spawn_seq_elems(f, d, n);
    lemma_blocking_seq_elems(f, d, n);
    lemma_unjoined_seq_elems(f, d, n);
    lemma_io_seq_elems(f, d, n);
    assert forall|k: int|
        0 <= k < conc_fn_findings(f, d).len() && (#[trigger] conc_fn_findings(f, d)[k]).rule_id
            == RULE_LOCK_ACROSS_SUSPEND implies conc_fn_findings(f, d)[k].stmt_offset
        != Option::Some(j as usize) by {
        let r1 = race_seq(f, d, n);
        let r2 = lock_suspend_seq(f, d, n);
        let r3 = spawn_seq(f, d, n);
        let r4 = blocking_seq(f, d, n);
        let r5 = unjoined_seq(f, d, n);
        let r6 = lock_cycle_seq(f, d);
        let e = conc_fn_findings(f, d)[k];
        if k < r1.len() {
            assert(e == r1[k]);
        } else if k < r1.len() + r2.len() {
            assert(e == r2[k - r1.len()]);
            let jj = e.stmt_offset->0;
            assert(lock_suspend_fires(f, jj as int));
            assert(jj != j as usize);
        } else if k < r1.len() + r2.len() + r3.len() {
            assert(e == r3[k - r1.len() - r2.len()]);
        } else if k < r1.len() + r2.len() + r3.len() + r4.len() {
            assert(e == r4[k - r1.len() - r2.len() - r3.len()]);
        } else if k < r1.len() + r2.len() + r3.len() + r4.len() + r5.len() {
            assert(e == r5[k - r1.len() - r2.len() - r3.len() - r4.len()]);
        } else if k < r1.len() + r2.len() + r3.len() + r4.len() + r5.len() + r6.len() {
            assert(e == r6[k - r1.len() - r2.len() - r3.len() - r4.len() - r5.len()]);
        } else {
            assert(e == io_seq(f, d, n)[k - r1.len() - r2.len() - r3.len() - r4.len() - r5.len()
                - r6.len()]);
        }
    }
}

/// Index arithmetic: what the detector says of one declaration stands in
/// what it says of the unit.
proof fn lemma_conc_decl_in_upto(u: CompilationUnit, d: int, k: int, upto: int)
    requires
        0 <= d < upto,
        0 <= k < conc_decl_findings(u, d).len(),
    ensures
        conc_findings_upto(u, upto).contains(conc_decl_findings(u, d)[k]),
    decreases upto,
{
    if d == upto - 1 {
        let q = conc_findings_upto(u, upto - 1).len() + k;
        assert(conc_findings_upto(u, upto)[q] == conc_decl_findings(u, d)[k]);
    } else {
        lemma_conc_decl_in_upto(u, d, k, upto - 1);
        let prev = conc_findings_upto(u, upto - 1);
        let q = choose|q: int| 0 <= q < prev.len() && prev[q] == conc_decl_findings(u, d)[k];
        assert(conc_findings_upto(u, upto)[q] == conc_decl_findings(u, d)[k]);
    }
}

/// The lock-across-suspend law, over a whole unit: wherever a function of
/// the unit acquires a lock and suspends right after it in the same
/// scope, the detector's findings for the unit hold a Critical finding at
/// that suspension point.
pub proof fn lemma_lock_then_suspend_in_unit(u: CompilationUnit, d: int, i: int)
    requires
        0 <= d < u.decls@.len(),
        u.decls@[d] matches Declaration::Function(f),
        0 <= i,
        i + 1 < u.decls@[d]->Function_0.stmts@.len(),
        u.decls@[d]->Function_0.stmts@[i].kind matches StmtKind::LockAcquire { .. },
        u.decls@[d]->Function_0.stmts@[i + 1].kind is Suspend,
        u.decls@[d]->Function_0.stmts@[i].scope == u.decls@[d]->Function_0.stmts@[i + 1].scope,
    ensures
        conc_findings(u).contains(
            stmt_finding(
                RULE_LOCK_ACROSS_SUSPEND,
                Domain::Concurrency,
                Severity::Critical,
                Confidence::Definite,
                d,
                i + 1,
            ),
        ),
{
    let f = u.decls@[d]->Function_0;
    lemma_lock_then_suspend_is_critical(f, d, i);
    let target = stmt_finding(
        RULE_LOCK_ACROSS_SUSPEND,
        Domain::Concurrency,
        Severity::Critical,
        Confidence::Definite,
        d,
        i + 1,
    );
    let k = choose|k: int|
        0 <= k < conc_fn_findings(f, d).len() && conc_fn_findings(f, d)[k] == target;
    assert(conc_decl_findings(u, d)[k] == target);
    lemma_conc_decl_in_upto(u, d, k, u.decls@.len() as int);
}

// --- the detector's triage signal ------------------------------------------

/// Weight a statement contributes to the concurrency triage signal.
pub open spec fn conc_stmt_sig(s: crate::model::Stmt) -> nat {
    match s.kind {
        StmtKind::LockAcquire { .. } => 1nat,
        StmtKind::Suspend => 1nat,
        StmtKind::Spawn { .. } => 1nat,
        StmtKind::BlockingIo => 1nat,
        StmtKind::SharedMutate { .. } => 1nat,
        StmtKind::Io { .. } => 1nat,
        _ => 0nat,
    }
}

pub open spec fn conc_stmts_sig(f: FunctionDecl, upto: int) -> nat
    decreases upto,
{
    if upto <= 0 {
        0nat
    } else {
        conc_stmts_sig(f, upto - 1) + conc_stmt_sig(f.stmts@[upto - 1])
    }
}

/// The concurrency triage signal of one declaration: asyncness plus the
/// concurrency-relevant statements.
pub open spec fn conc_decl_sig(dcl: Declaration) -> nat {
    match dcl {
        Declaration::Function(f) => (if f.is_async {
            1nat
        } else {
            0nat
        }) + conc_stmts_sig(f, f.stmts@.len() as int),
        _ => 0nat,
    }
}

pub open spec fn conc_sig_upto(u: CompilationUnit, upto: int) -> nat
    decreases upto,
{
    if upto <= 0 {
        0nat
    } else {
        conc_sig_upto(u, upto - 1) + conc_decl_sig(u.decls@[upto - 1])
    }
}

/// The unit's concurrency triage signal.
pub open spec fn conc_signal(u: CompilationUnit) -> nat {
    conc_sig_upto(u, u.decls@.len() as int)
}

proof fn lemma_conc_stmts_sig_pos(f: FunctionDecl, j: int, upto: int)
    requires
        0 <= j < upto,
        conc_stmt_sig(f.stmts@[j]) > 0,
    ensures
        conc_stmts_sig(f, upto) > 0,
    decreases upto,
{
    if j < upto - 1 {
        lemma_conc_stmts_sig_pos(f, j, upto - 1);
    }
}

proof fn lemma_conc_sig_upto_pos(u: CompilationUnit, d: int, upto: int)
    requires
        0 <= d < upto,
        conc_decl_sig(u.decls@[d]) > 0,
    ensures
        conc_sig_upto(u, upto) > 0,
    decreases upto,
{
    if d < upto - 1 {
        lemma_conc_sig_upto_pos(u, d, upto - 1);
    }
}

/// A critical finding of one function forces a positive signal for it.
proof fn lemma_conc_fn_critical_sig(f: FunctionDecl, d: int, k: int)
    requires
        0 <= k < conc_fn_findings(f, d).len(),
        conc_fn_findings(f, d)[k].severity is Critical,
    ensures
        conc_decl_sig(Declaration::Function(f)) > 0,
{
    let n = f.stmts@.len() as int;
    lemma_race_seq_elems(f, d, n);
    lemma_lock_suspend_seq_elems(f, d, n);
    lemma_spawn_seq_elems(f, d, n);
    lemma_blocking_seq_elems(f, d, n);
    lemma_unjoined_seq_elems(f, d, n);
    lemma_io_seq_elems(f, d, n);
    let r1 = race_seq(f, d, n);
    let r2 = lock_suspend_seq(f, d, n);
    let r3 = spawn_seq(f, d, n);
    let r4 = blocking_seq(f, d, n);
    let r5 = unjoined_seq(f, d, n);
    let r6 = lock_cycle_seq(f, d);
    if k < r1.len() {
        let e = r1[k];
        assert(conc_fn_findings(f, d)[k] == e);
        let j = e.stmt_offset->0;
        assert(race_fires(f, j as int));
        lemma_conc_stmts_sig_pos(f, j as int, n);
    } else if k < r1.len() + r2.len() {
        let e = r2[k - r1.len()];
        assert(conc_fn_findings(f, d)[k] == e);
        let j = e.stmt_offset->0;
        assert(lock_suspend_fires(f, j as int));
        lemma_conc_stmts_sig_pos(f, j as int, n);
    } else if k < r1.len() + r2.len() + r3.len() {
        assert(conc_fn_findings(f, d)[k] == r3[k - r1.len() - r2.len()]);
        assert(false);
    } else if k < r1.len() + r2.len() + r3.len() + r4.len() {
        let kk = k - r1.len() - r2.len() - r3.len();
        let e = r4[kk];
        assert(conc_fn_findings(f, d)[k] == e);
        let j = e.stmt_offset->0;
        assert(blocking_fires(f, j as int));
        assert(f.is_async);
    } else if k < r1.len() + r2.len() + r3.len() + r4.len() + r5.len() {
        assert(conc_fn_findings(f, d)[k] == r5[k - r1.len() - r2.len() - r3.len() - r4.len()]);
        assert(false);
    } else if k < r1.len() + r2.len() + r3.len() + r4.len() + r5.len() + r6.len() {
        assert(lock_cycle_fires(f));
        let a = choose|a: int| 0 <= a < f.stmts@.len() && #[trigger] lock_on_cycle(f, a);
        graph::lemma_cycle_pred_has_edge(f.stmts@.len() as int, lock_edge_fn(f), a);
        let b = choose|b: int| #[trigger] lock_edge_fn(f)(a, b);
        assert(lock_edge(f, a, b));
        let (i, j) = choose|i: int, j: int| #[trigger] lock_order_pair(f, a, b, i, j);
        assert(conc_stmt_sig(f.stmts@[i]) > 0);
        lemma_conc_stmts_sig_pos(f, i, n);
    } else {
        let kk = k - r1.len() - r2.len() - r3.len() - r4.len() - r5.len() - r6.len();
        assert(conc_fn_findings(f, d)[k] == io_seq(f, d, n)[kk]);
        assert(false);
    }
}

/// Router soundness, concurrency half: if the detector would emit any
/// Critical finding for a unit, the unit's concurrency signal is not
/// zero.
pub proof fn lemma_conc_critical_needs_signal(u: CompilationUnit, upto: int, k: int)
    requires
        0 <= upto <= u.decls@.len(),
        0 <= k < conc_findings_upto(u, upto).len(),
        conc_findings_upto(u, upto)[k].severity is Critical,
    ensures
        conc_sig_upto(u, upto) > 0,
    decreases upto,
{
    if upto > 0 {
        let prev = conc_findings_upto(u, upto - 1);
        if k < prev.len() {
            lemma_conc_critical_needs_signal(u, upto - 1, k);
        } else {
            match u.decls@[upto - 1] {
                Declaration::Function(f) => {
                    assert(conc_findings_upto(u, upto)[k] == conc_fn_findings(f, upto - 1)[k
                        - prev.len()]);
                    lemma_conc_fn_critical_sig(f, upto - 1, k - prev.len());
                },
                _ => {},
            }
        }
    }
}


} // verus!
