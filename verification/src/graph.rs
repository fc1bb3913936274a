//! Cycle detection over small directed graphs, given as adjacency
//! matrices. Both the composition-cycle rule and the lock-order rule
//! reduce to: does some node reach itself?
//!
//! Reachability is defined by bounded unrolling. A path of length at most
//! `n` (the node count) suffices to witness any cycle, since every cycle
//! contains a simple cycle.

use vstd::prelude::*;

verus! {

/// A square boolean adjacency matrix over `n` nodes.
pub open spec fn matrix_wf(m: Seq<Vec<bool>>, n: int) -> bool {
    &&& m.len() == n
    &&& forall|i: int| 0 <= i < n ==> (#[trigger] m[i])@.len() == n
}

/// There is a path from `i` to `j` of at most `k + 1` edges.
pub open spec fn reaches_within(m: Seq<Vec<bool>>, i: int, j: int, k: nat) -> bool
    decreases k,
{
    m[i]@[j] || (k > 0 && exists|mid: int|
        0 <= mid < m.len() && m[i]@[mid] && reaches_within(m, mid, j, (k - 1) as nat))
}

/// Node `i` lies on a directed cycle.
pub open spec fn on_cycle(m: Seq<Vec<bool>>, i: int) -> bool {
    reaches_within(m, i, i, m.len())
}

/// Reachability over an abstract edge relation on the nodes `0..n`:
/// there is a path from `i` to `j` of at most `k + 1` edges.
pub open spec fn reaches_pred(n: int, e: spec_fn(int, int) -> bool, i: int, j: int, k: nat) -> bool
    decreases k,
{
    e(i, j) || (k > 0 && exists|mid: int|
        0 <= mid < n && #[trigger] e(i, mid) && reaches_pred(n, e, mid, j, (k - 1) as nat))
}

/// Node `i` lies on a cycle of the edge relation.
pub open spec fn cycle_pred(n: int, e: spec_fn(int, int) -> bool, i: int) -> bool {
    reaches_pred(n, e, i, i, n as nat)
}

/// A matrix that agrees with the edge relation pointwise computes the
/// same reachability.
pub proof fn lemma_reaches_matrix_pred(
    m: Seq<Vec<bool>>,
    e: spec_fn(int, int) -> bool,
    i: int,
    j: int,
    k: nat,
)
    requires
        matrix_wf(m, m.len() as int),
        forall|a: int, b: int| 0 <= a < m.len() && 0 <= b < m.len() ==> #[trigger] m[a]@[b] == e(
            a,
            b,
        ),
        0 <= i < m.len(),
        0 <= j < m.len(),
    ensures
        reaches_within(m, i, j, k) == reaches_pred(m.len() as int, e, i, j, k),
    decreases k,
{
    let n = m.len() as int;
    if k > 0 {
        if reaches_within(m, i, j, k) && !m[i]@[j] {
            let mid = choose|mid: int|
                0 <= mid < m.len() && m[i]@[mid] && reaches_within(m, mid, j, (k - 1) as nat);
            lemma_reaches_matrix_pred(m, e, mid, j, (k - 1) as nat);
            assert(e(i, mid) && reaches_pred(n, e, mid, j, (k - 1) as nat));
        }
        if reaches_pred(n, e, i, j, k) && !e(i, j) {
            let mid = choose|mid: int|
                0 <= mid < n && #[trigger] e(i, mid) && reaches_pred(n, e, mid, j, (k - 1) as nat);
            lemma_reaches_matrix_pred(m, e, mid, j, (k - 1) as nat);
            assert(m[i]@[mid] && reaches_within(m, mid, j, (k - 1) as nat));
        }
    }
}

/// A node on a cycle of the edge relation has an outgoing edge.
pub proof fn lemma_cycle_pred_has_edge(n: int, e: spec_fn(int, int) -> bool, i: int)
    requires
        cycle_pred(n, e, i),
    ensures
        exists|b: int| #[trigger] e(i, b),
{
    if e(i, i) {
        assert(e(i, i));
    } else {
        let mid = choose|mid: int|
            0 <= mid < n && #[trigger] e(i, mid) && reaches_pred(n, e, mid, i, (n as nat - 1) as nat);
        assert(e(i, mid));
    }
}

/// Compute, for every pair, whether `reaches_within(m, i, j, n)` holds.
pub fn reach_matrix(m: &Vec<Vec<bool>>) -> (r: Vec<Vec<bool>>)
    requires
        matrix_wf(m@, m@.len() as int),
    ensures
        r@.len() == m@.len(),
        forall|i: int| 0 <= i < r@.len() ==> (#[trigger] r@[i])@.len() == m@.len(),
        forall|i: int, j: int|
            0 <= i < m@.len() && 0 <= j < m@.len() ==> (#[trigger] r@[i]@[j]) == reaches_within(
                m@,
                i,
                j,
                m@.len() as nat,
            ),
{
    let n = m.len();
    // step 0: paths of one edge.
    let mut cur: Vec<Vec<bool>> = Vec::new();
    let mut i: usize = 0;
    while i < n
        invariant
            i <= n,
            cur@.len() == i,
            forall|a: int| 0 <= a < i ==> (#[trigger] cur@[a])@.len() == n,
            forall|a: int, b: int|
                0 <= a < i && 0 <= b < n ==> (#[trigger] cur@[a]@[b]) == reaches_within(
                    m@,
                    a,
                    b,
                    0,
                ),
        decreases n - i,
    {
        let mut row: Vec<bool> = Vec::new();
        let mut j: usize = 0;
        while j < n
            invariant
                i < n,
                j <= n,
                row@.len() == j,
                forall|b: int|
                    0 <= b < j ==> (#[trigger] row@[b]) == reaches_within(m@, i as int, b, 0),
        decreases n - j,
        {
            row.push(m[i][j]);
            j = j + 1;
        }
        cur.push(row);
        i = i + 1;
    }
    // each step adds one edge of lookahead.
    let mut k: usize = 0;
    while k < n
        invariant
            k <= n,
            cur@.len() == n,
            forall|a: int| 0 <= a < n ==> (#[trigger] cur@[a])@.len() == n,
            forall|a: int, b: int|
                0 <= a < n && 0 <= b < n ==> (#[trigger] cur@[a]@[b]) == reaches_within(
                    m@,
                    a,
                    b,
                    k as nat,
                ),
        decreases n - k,
    {
        let mut next: Vec<Vec<bool>> = Vec::new();
        let mut i: usize = 0;
        while i < n
            invariant
                k < n,
                i <= n,
                next@.len() == i,
                forall|a: int| 0 <= a < i ==> (#[trigger] next@[a])@.len() == n,
                forall|a: int, b: int|
                    0 <= a < i && 0 <= b < n ==> (#[trigger] next@[a]@[b]) == reaches_within(
                        m@,
                        a,
                        b,
                        (k + 1) as nat,
                    ),
        decreases n - i,
        {
            let mut row: Vec<bool> = Vec::new();
            let mut j: usize = 0;
            while j < n
                invariant
                    k < n,
                    i < n,
                    j <= n,
                    row@.len() == j,
                    forall|b: int|
                        0 <= b < j ==> (#[trigger] row@[b]) == reaches_within(
                            m@,
                            i as int,
                            b,
                            (k + 1) as nat,
                        ),
            decreases n - j,
            {
                let base = m[i][j];
                let mut found = false;
                let mut mid: usize = 0;
                while mid < n
                    invariant
                        k < n,
                        i < n,
                        j < n,
                        mid <= n,
                        found == exists|c: int|
                            0 <= c < mid && m@[i as int]@[c] && reaches_within(
                                m@,
                                c,
                                j as int,
                                k as nat,
                            ),
                    decreases n - mid,
                {
                    if m[i][mid] && cur[mid][j] {
                        found = true;
                    }
                    mid = mid + 1;
                }
                proof {
                    let kk = (k + 1) as nat;
                    assert((kk - 1) as nat == k as nat);
                    if found {
                        let c = choose|c: int|
                            0 <= c < n && m@[i as int]@[c] && reaches_within(
                                m@,
                                c,
                                j as int,
                                k as nat,
                            );
                        assert(reaches_within(m@, c, j as int, (kk - 1) as nat));
                        assert(reaches_within(m@, i as int, j as int, kk));
                    }
                    if reaches_within(m@, i as int, j as int, kk) && !base && !found {
                        let c = choose|c: int|
                            0 <= c < m@.len() && m@[i as int]@[c] && reaches_within(
                                m@,
                                c,
                                j as int,
                                (kk - 1) as nat,
                            );
                        assert(reaches_within(m@, c, j as int, k as nat));
                        assert(false);
                    }
                }
                row.push(base || found);
                j = j + 1;
            }
            next.push(row);
            i = i + 1;
        }
        cur = next;
        k = k + 1;
    }
    cur
}

/// Which nodes lie on a cycle.
pub fn cycle_nodes(m: &Vec<Vec<bool>>) -> (r: Vec<bool>)
    requires
        matrix_wf(m@, m@.len() as int),
    ensures
        r@.len() == m@.len(),
        forall|i: int| 0 <= i < m@.len() ==> (#[trigger] r@[i]) == on_cycle(m@, i),
{
    let reach = reach_matrix(m);
    let n = m.len();
    let mut r: Vec<bool> = Vec::new();
    let mut i: usize = 0;
    while i < n
        invariant
            i <= n,
            r@.len() == i,
            forall|a: int| 0 <= a < i ==> (#[trigger] r@[a]) == on_cycle(m@, a),
        decreases n - i,
    {
        r.push(reach[i][i]);
        i = i + 1;
    }
    r
}

} // verus!
