//! The finding aggregator: merges the detectors' reports into one ranked,
//! ordered result. Duplicate (rule, location) reports are merged with
//! their provenance retained; nothing is silently dropped; the output is
//! ordered by declaration source order, then rule id, then statement
//! offset.

use vstd::prelude::*;
use crate::finding::{
    Finding, MergedFinding, domain_bit, domain_bit_of, severity_max, severity_max_of,
    confidence_max, confidence_max_of, key_le, same_key, finding_key_matches,
};

verus! {

/// A single report, as a merged finding of one domain.
pub open spec fn to_merged(f: Finding) -> MergedFinding {
    MergedFinding {
        rule_id: f.rule_id,
        decl: f.decl,
        stmt_offset: f.stmt_offset,
        domains: domain_bit(f.domain),
        severity: f.severity,
        confidence: f.confidence,
    }
}

/// Fold one more report into an existing merged finding with the same
/// rule and location: provenance is retained as the union of domains, and
/// the gravest severity and strongest confidence win.
pub open spec fn merge_two(m: MergedFinding, f: Finding) -> MergedFinding {
    MergedFinding {
        rule_id: m.rule_id,
        decl: m.decl,
        stmt_offset: m.stmt_offset,
        domains: m.domains | domain_bit(f.domain),
        severity: severity_max(m.severity, f.severity),
        confidence: confidence_max(m.confidence, f.confidence),
    }
}

/// Strict reporting order between distinct keys.
pub open spec fn key_lt(a: MergedFinding, b: MergedFinding) -> bool {
    key_le(a, b) && !same_key(a, b)
}

/// Insert one report into an ordered merged list: merged into its
/// duplicate if the key is already present, at its ordered place
/// otherwise.
pub open spec fn merge_into(s: Seq<MergedFinding>, f: Finding) -> Seq<MergedFinding>
    decreases s.len(),
{
    if s.len() == 0 {
        seq![to_merged(f)]
    } else if same_key(s[0], to_merged(f)) {
        seq![merge_two(s[0], f)] + s.drop_first()
    } else if key_lt(to_merged(f), s[0]) {
        seq![to_merged(f)] + s
    } else {
        seq![s[0]] + merge_into(s.drop_first(), f)
    }
}

pub open spec fn aggregate_upto(fs: Seq<Finding>, upto: int) -> Seq<MergedFinding>
    decreases upto,
{
    if upto <= 0 {
        seq![]
    } else {
        merge_into(aggregate_upto(fs, upto - 1), fs[upto - 1])
    }
}

/// The aggregator, as a function of the detectors' combined reports.
pub open spec fn aggregate_spec(fs: Seq<Finding>) -> Seq<MergedFinding> {
    aggregate_upto(fs, fs.len() as int)
}

// --- executable aggregation --------------------------------------------------

fn to_merged_ex(f: &Finding) -> (m: MergedFinding)
    ensures
        m == to_merged(*f),
{
    MergedFinding {
        rule_id: f.rule_id,
        decl: f.decl,
        stmt_offset: f.stmt_offset,
        domains: domain_bit_of(f.domain),
        severity: f.severity,
        confidence: f.confidence,
    }
}

fn same_key_ex(a: &MergedFinding, b: &MergedFinding) -> (r: bool)
    ensures
        r == same_key(*a, *b),
{
    let off_eq = match (a.stmt_offset, b.stmt_offset) {
        (Option::None, Option::None) => true,
        (Option::Some(x), Option::Some(y)) => x == y,
        _ => false,
    };
    a.decl == b.decl && a.rule_id == b.rule_id && off_eq
}

fn key_lt_ex(a: &MergedFinding, b: &MergedFinding) -> (r: bool)
    ensures
        r == key_lt(*a, *b),
{
    if a.decl != b.decl {
        return a.decl < b.decl;
    }
    if a.rule_id != b.rule_id {
        return a.rule_id < b.rule_id;
    }
    match (a.stmt_offset, b.stmt_offset) {
        (Option::None, Option::None) => false,
        (Option::None, Option::Some(y)) => true,
        (Option::Some(x), Option::None) => false,
        (Option::Some(x), Option::Some(y)) => x < y,
    }
}

/// The recursive insertion lands exactly at the first position whose key
/// is not below the report's.
proof fn lemma_merge_into_at(s: Seq<MergedFinding>, f: Finding, p: int)
    requires
        0 <= p <= s.len(),
        forall|q: int| 0 <= q < p ==> key_lt(#[trigger] s[q], to_merged(f)),
        p < s.len() ==> !key_lt(s[p], to_merged(f)),
    ensures
        merge_into(s, f) == (if p < s.len() && same_key(s[p], to_merged(f)) {
            s.update(p, merge_two(s[p], f))
        } else {
            s.insert(p, to_merged(f))
        }),
    decreases s.len(),
{
    if s.len() == 0 {
        assert(merge_into(s, f) =~= s.insert(0, to_merged(f)));
    } else if same_key(s[0], to_merged(f)) {
        assert(p == 0);
        assert(merge_into(s, f) =~= s.update(0, merge_two(s[0], f)));
    } else if key_lt(to_merged(f), s[0]) {
        assert(p == 0);
        assert(merge_into(s, f) =~= s.insert(0, to_merged(f)));
    } else {
        assert(key_lt(s[0], to_merged(f)));
        assert(p >= 1);
        lemma_merge_into_at(s.drop_first(), f, p - 1);
        if p < s.len() && same_key(s[p], to_merged(f)) {
            assert(merge_into(s, f) =~= s.update(p, merge_two(s[p], f)));
        } else {
            assert(merge_into(s, f) =~= s.insert(p, to_merged(f)));
        }
    }
}

/// Fold one report into the ordered accumulator.
fn merge_into_vec(v: &mut Vec<MergedFinding>, f: &Finding)
    ensures
        final(v)@ == merge_into(old(v)@, *f),
{
    let fm = to_merged_ex(f);
    let n = v.len();
    let mut p: usize = 0;
    while p < n
        invariant
            p <= n,
            n == v@.len(),
            fm == to_merged(*f),
            forall|q: int| 0 <= q < p ==> key_lt(#[trigger] v@[q], to_merged(*f)),
        decreases n - p,
    {
        if !key_lt_ex(&v[p], &fm) {
            break ;
        }
        p = p + 1;
    }
    proof {
        lemma_merge_into_at(v@, *f, p as int);
    }
    if p < n && same_key_ex(&v[p], &fm) {
        let merged = MergedFinding {
            rule_id: v[p].rule_id,
            decl: v[p].decl,
            stmt_offset: v[p].stmt_offset,
            domains: v[p].domains | domain_bit_of(f.domain),
            severity: severity_max_of(v[p].severity, f.severity),
            confidence: confidence_max_of(v[p].confidence, f.confidence),
        };
        v.set(p, merged);
    } else {
        v.insert(p, fm);
    }
}

/// Merge and order the detectors' combined reports.
pub fn aggregate(findings: &Vec<Finding>) -> (r: Vec<MergedFinding>)
    ensures
        r@ == aggregate_spec(findings@),
{
    let n = findings.len();
    let mut out: Vec<MergedFinding> = Vec::new();
    let mut i: usize = 0;
    while i < n
        invariant
            i <= n,
            n == findings@.len(),
            out@ == aggregate_upto(findings@, i as int),
        decreases n - i,
    {
        merge_into_vec(&mut out, &findings[i]);
        i = i + 1;
    }
    out
}

// --- the aggregator's laws ----------------------------------------------------

/// Reporting order: strictly ascending keys, so each (rule, location)
/// appears at most once.
pub open spec fn strictly_ordered(s: Seq<MergedFinding>) -> bool {
    forall|i: int, j: int| 0 <= i < j < s.len() ==> key_lt(#[trigger] s[i], #[trigger] s[j])
}

proof fn lemma_merge_into_ordered(s: Seq<MergedFinding>, f: Finding)
    requires
        strictly_ordered(s),
    ensures
        strictly_ordered(merge_into(s, f)),
        forall|k: int|
            0 <= k < merge_into(s, f).len() ==> same_key(#[trigger] merge_into(s, f)[k], to_merged(f))
                || (exists|q: int| 0 <= q < s.len() && same_key(#[trigger] s[q], merge_into(s, f)[k])),
    decreases s.len(),
{
    let m = merge_into(s, f);
    if s.len() == 0 {
        assert(same_key(m[0], to_merged(f)));
    } else if same_key(s[0], to_merged(f)) {
        assert forall|k: int|
            0 <= k < m.len() implies same_key(#[trigger] m[k], to_merged(f)) || (exists|q: int|
            0 <= q < s.len() && same_key(#[trigger] s[q], m[k])) by {
            if k > 0 {
                assert(m[k] == s[k]);
                assert(same_key(s[k], m[k]));
            }
        }
        assert forall|i: int, j: int| 0 <= i < j < m.len() implies key_lt(
            #[trigger] m[i],
            #[trigger] m[j],
        ) by {
            if i == 0 {
                assert(m[j] == s[j]);
                assert(key_lt(s[0], s[j]));
            } else {
                assert(m[i] == s[i] && m[j] == s[j]);
            }
        }
    } else if key_lt(to_merged(f), s[0]) {
        assert forall|k: int|
            0 <= k < m.len() implies same_key(#[trigger] m[k], to_merged(f)) || (exists|q: int|
            0 <= q < s.len() && same_key(#[trigger] s[q], m[k])) by {
            if k > 0 {
                assert(m[k] == s[k - 1]);
                assert(same_key(s[k - 1], m[k]));
            }
        }
        assert forall|i: int, j: int| 0 <= i < j < m.len() implies key_lt(
            #[trigger] m[i],
            #[trigger] m[j],
        ) by {
            if i == 0 {
                assert(m[j] == s[j - 1]);
                if j - 1 > 0 {
                    assert(key_lt(s[0], s[j - 1]));
                }
            } else {
                assert(m[i] == s[i - 1] && m[j] == s[j - 1]);
            }
        }
    } else {
        assert(key_lt(s[0], to_merged(f)));
        assert(strictly_ordered(s.drop_first())) by {
            assert forall|i: int, j: int| 0 <= i < j < s.drop_first().len() implies key_lt(
                #[trigger] s.drop_first()[i],
                #[trigger] s.drop_first()[j],
            ) by {
                assert(s.drop_first()[i] == s[i + 1] && s.drop_first()[j] == s[j + 1]);
            }
        }
        lemma_merge_into_ordered(s.drop_first(), f);
        let tail = merge_into(s.drop_first(), f);
        assert(m == seq![s[0]] + tail);
        assert forall|i: int, j: int| 0 <= i < j < m.len() implies key_lt(
            #[trigger] m[i],
            #[trigger] m[j],
        ) by {
            if i == 0 {
                assert(m[j] == tail[j - 1]);
                assert(same_key(tail[j - 1], to_merged(f)) || (exists|q: int|
                    0 <= q < s.drop_first().len() && same_key(
                        #[trigger] s.drop_first()[q],
                        tail[j - 1],
                    )));
                if same_key(tail[j - 1], to_merged(f)) {
                    assert(key_lt(s[0], m[j]));
                } else {
                    let q = choose|q: int|
                        0 <= q < s.drop_first().len() && same_key(
                            #[trigger] s.drop_first()[q],
                            tail[j - 1],
                        );
                    assert(s.drop_first()[q] == s[q + 1]);
                    assert(key_lt(s[0], s[q + 1]));
                    assert(key_lt(s[0], m[j]));
                }
            } else {
                assert(m[i] == tail[i - 1] && m[j] == tail[j - 1]);
            }
        }
        assert forall|k: int|
            0 <= k < m.len() implies same_key(#[trigger] m[k], to_merged(f)) || (exists|q: int|
            0 <= q < s.len() && same_key(#[trigger] s[q], m[k])) by {
            if k == 0 {
                assert(same_key(s[0], m[0]));
            } else {
                assert(m[k] == tail[k - 1]);
                if !same_key(tail[k - 1], to_merged(f)) {
                    let q = choose|q: int|
                        0 <= q < s.drop_first().len() && same_key(
                            #[trigger] s.drop_first()[q],
                            tail[k - 1],
                        );
                    assert(s[q + 1] == s.drop_first()[q]);
                    assert(same_key(s[q + 1], m[k]));
                }
            }
        }
    }
}

/// The aggregator's output is strictly ordered, and every key it reports
/// comes from some input report.
pub proof fn lemma_aggregate_ordered(fs: Seq<Finding>, upto: int)
    requires
        0 <= upto <= fs.len(),
    ensures
        strictly_ordered(aggregate_upto(fs, upto)),
        forall|k: int|
            0 <= k < aggregate_upto(fs, upto).len() ==> exists|i: int|
                0 <= i < upto && finding_key_matches(
                    #[trigger] fs[i],
                    #[trigger] aggregate_upto(fs, upto)[k],
                ),
    decreases upto,
{
    if upto > 0 {
        lemma_aggregate_ordered(fs, upto - 1);
        let prev = aggregate_upto(fs, upto - 1);
        lemma_merge_into_ordered(prev, fs[upto - 1]);
        let m = aggregate_upto(fs, upto);
        assert forall|k: int|
            0 <= k < m.len() implies exists|i: int|
            0 <= i < upto && finding_key_matches(#[trigger] fs[i], #[trigger] m[k]) by {
            if same_key(m[k], to_merged(fs[upto - 1])) {
                assert(finding_key_matches(fs[upto - 1], m[k]));
            } else {
                let q = choose|q: int| 0 <= q < prev.len() && same_key(#[trigger] prev[q], m[k]);
                let i = choose|i: int|
                    0 <= i < upto - 1 && finding_key_matches(#[trigger] fs[i], prev[q]);
                assert(finding_key_matches(fs[i], m[k]));
            }
        }
    }
}

/// The aggregator never silently drops a report: every input key appears
/// in the output.
proof fn lemma_merge_into_keeps(s: Seq<MergedFinding>, f: Finding, m: MergedFinding)
    requires
        exists|q: int| 0 <= q < s.len() && same_key(#[trigger] s[q], m),
    ensures
        exists|q: int| 0 <= q < merge_into(s, f).len() && same_key(
            #[trigger] merge_into(s, f)[q],
            m,
        ),
    decreases s.len(),
{
    let r = merge_into(s, f);
    let q0 = choose|q: int| 0 <= q < s.len() && same_key(#[trigger] s[q], m);
    if s.len() == 0 {
    } else if same_key(s[0], to_merged(f)) {
        if q0 == 0 {
            assert(same_key(r[0], m));
        } else {
            assert(r[q0] == s[q0]);
            assert(same_key(r[q0], m));
        }
    } else if key_lt(to_merged(f), s[0]) {
        assert(r[q0 + 1] == s[q0]);
        assert(same_key(r[q0 + 1], m));
    } else {
        if q0 == 0 {
            assert(same_key(r[0], m));
        } else {
            assert(s.drop_first()[q0 - 1] == s[q0]);
            lemma_merge_into_keeps(s.drop_first(), f, m);
            let tail = merge_into(s.drop_first(), f);
            let q1 = choose|q: int| 0 <= q < tail.len() && same_key(#[trigger] tail[q], m);
            assert(r[q1 + 1] == tail[q1]);
            assert(same_key(r[q1 + 1], m));
        }
    }
}

proof fn lemma_merge_into_has_own(s: Seq<MergedFinding>, f: Finding)
    ensures
        exists|q: int| 0 <= q < merge_into(s, f).len() && same_key(
            #[trigger] merge_into(s, f)[q],
            to_merged(f),
        ),
    decreases s.len(),
{
    let r = merge_into(s, f);
    if s.len() == 0 {
        assert(same_key(r[0], to_merged(f)));
    } else if same_key(s[0], to_merged(f)) {
        assert(same_key(r[0], to_merged(f)));
    } else if key_lt(to_merged(f), s[0]) {
        assert(r[0] == to_merged(f));
        assert(same_key(r[0], to_merged(f)));
    } else {
        lemma_merge_into_has_own(s.drop_first(), f);
        let tail = merge_into(s.drop_first(), f);
        let q1 = choose|q: int|
            0 <= q < tail.len() && same_key(#[trigger] tail[q], to_merged(f));
        assert(r[q1 + 1] == tail[q1]);
        assert(same_key(r[q1 + 1], to_merged(f)));
    }
}

/// Nothing is silently dropped: every report's key stands in the merged
/// output.
pub proof fn lemma_aggregate_complete(fs: Seq<Finding>, i: int, upto: int)
    requires
        0 <= i < upto <= fs.len(),
    ensures
        exists|k: int|
            0 <= k < aggregate_upto(fs, upto).len() && finding_key_matches(
                fs[i],
                #[trigger] aggregate_upto(fs, upto)[k],
            ),
    decreases upto,
{
    let prev = aggregate_upto(fs, upto - 1);
    let m = aggregate_upto(fs, upto);
    if i == upto - 1 {
        lemma_merge_into_has_own(prev, fs[i]);
        let q = choose|q: int| 0 <= q < m.len() && same_key(#[trigger] m[q], to_merged(fs[i]));
        assert(finding_key_matches(fs[i], m[q]));
    } else {
        lemma_aggregate_complete(fs, i, upto - 1);
        let k0 = choose|k: int|
            0 <= k < prev.len() && finding_key_matches(fs[i], #[trigger] prev[k]);
        lemma_merge_into_keeps(prev, fs[upto - 1], prev[k0]);
        let q = choose|q: int| 0 <= q < m.len() && same_key(#[trigger] m[q], prev[k0]);
        assert(finding_key_matches(fs[i], m[q]));
    }
}

} // verus!
