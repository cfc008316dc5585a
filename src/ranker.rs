//! Ordering of usage records: by usage, highest first, ties by ascending
//! pid, and bounded views of the front of that order.
use vstd::prelude::*;
use crate::processes::Process;

verus! {

broadcast use vstd::seq_lib::to_multiset_insert;

/// `a` comes strictly before `b` in the ranking.
pub open spec fn before(a: Process, b: Process) -> bool {
    a.cpu_usage > b.cpu_usage || (a.cpu_usage == b.cpu_usage && a.pid < b.pid)
}

/// No record of `s` comes strictly before one that precedes it.
pub open spec fn is_ranked(s: Seq<Process>) -> bool {
    forall|i: int, j: int| 0 <= i < j < s.len() ==> !before(#[trigger] s[j], #[trigger] s[i])
}

/// Where `x` goes in `s`: before the first record that it comes before.
pub open spec fn slot(s: Seq<Process>, x: Process) -> int
    decreases s.len(),
{
    if s.len() == 0 {
        0
    } else {
        let k = slot(s.drop_last(), x);
        if k < s.len() - 1 {
            k
        } else if before(x, s.last()) {
            s.len() - 1
        } else {
            s.len() as int
        }
    }
}

/// `s` with `x` added behind every record that it does not come before.
pub open spec fn insert_ranked(s: Seq<Process>, x: Process) -> Seq<Process> {
    s.insert(slot(s, x), x)
}

/// The ranking of `s`: its records inserted one by one, first to last.
pub open spec fn ranked(s: Seq<Process>) -> Seq<Process>
    decreases s.len(),
{
    if s.len() == 0 {
        s
    } else {
        insert_ranked(ranked(s.drop_last()), s.last())
    }
}

/// The first `n` records of `s`, or all of them if there are fewer.
pub open spec fn first_n(s: Seq<Process>, n: nat) -> Seq<Process> {
    if n < s.len() { s.take(n as int) } else { s }
}

proof fn lemma_slot(s: Seq<Process>, x: Process)
    ensures
        0 <= slot(s, x) <= s.len(),
        forall|m: int| 0 <= m < slot(s, x) ==> !before(x, #[trigger] s[m]),
        slot(s, x) < s.len() ==> before(x, s[slot(s, x)]),
    decreases s.len(),
{
    if s.len() > 0 {
        lemma_slot(s.drop_last(), x);
        assert forall|m: int| 0 <= m < s.len() - 1 implies s.drop_last()[m] == s[m] by {}
    }
}

proof fn lemma_insert_keeps_ranked(s: Seq<Process>, x: Process)
    requires
        is_ranked(s),
    ensures
        is_ranked(insert_ranked(s, x)),
{
    lemma_slot(s, x);
    let k = slot(s, x);
    let t = insert_ranked(s, x);
    assert forall|i: int, j: int| 0 <= i < j < t.len() implies !before(#[trigger] t[j], #[trigger] t[i]) by {
        if j < k {
            assert(t[i] == s[i] && t[j] == s[j]);
        } else if j == k {
            assert(t[i] == s[i] && t[j] == x);
        } else if i < k {
            assert(t[i] == s[i] && t[j] == s[j - 1]);
        } else if i == k {
            assert(t[i] == x && t[j] == s[j - 1]);
            assert(before(x, s[k]));
            if k < j - 1 {
                assert(!before(s[j - 1], s[k]));
            }
        } else {
            assert(t[i] == s[i - 1] && t[j] == s[j - 1]);
        }
    }
}

/// A ranking is ordered: usage never rises along it, and records of equal
/// usage stand in ascending pid order.
pub proof fn lemma_ranked_is_ordered(s: Seq<Process>)
    ensures
        is_ranked(ranked(s)),
        forall|i: int, j: int| 0 <= i < j < ranked(s).len() ==>
            (#[trigger] ranked(s)[i]).cpu_usage > (#[trigger] ranked(s)[j]).cpu_usage
            || (ranked(s)[i].cpu_usage == ranked(s)[j].cpu_usage && ranked(s)[i].pid <= ranked(s)[j].pid),
    decreases s.len(),
{
    if s.len() > 0 {
        lemma_ranked_is_ordered(s.drop_last());
        lemma_insert_keeps_ranked(ranked(s.drop_last()), s.last());
    }
    let r = ranked(s);
    assert forall|i: int, j: int| 0 <= i < j < r.len() implies
        (#[trigger] r[i]).cpu_usage > (#[trigger] r[j]).cpu_usage
        || (r[i].cpu_usage == r[j].cpu_usage && r[i].pid <= r[j].pid) by {
        assert(!before(r[j], r[i]));
    }
}

/// Ranking keeps every record, each as often as it occurs.
pub proof fn lemma_ranked_same_records(s: Seq<Process>)
    ensures
        ranked(s).to_multiset() == s.to_multiset(),
    decreases s.len(),
{
    if s.len() > 0 {
        lemma_ranked_same_records(s.drop_last());
        lemma_slot(ranked(s.drop_last()), s.last());
        vstd::seq_lib::to_multiset_build(s.drop_last(), s.last());
        assert(s.drop_last().push(s.last()) =~= s);
    }
}

/// A sequence that is already ranked is its own ranking.
pub proof fn lemma_ranked_fixes_ordered(s: Seq<Process>)
    requires
        is_ranked(s),
    ensures
        ranked(s) == s,
    decreases s.len(),
{
    if s.len() > 0 {
        let d = s.drop_last();
        assert(is_ranked(d));
        lemma_ranked_fixes_ordered(d);
        lemma_slot(d, s.last());
        let k = slot(d, s.last());
        if k < d.len() {
            assert(before(s.last(), d[k]));
            assert(!before(s[s.len() - 1], s[k]));
        }
        assert(d.insert(d.len() as int, s.last()) =~= s);
    }
}

/// Ranking twice gives the same as ranking once.
pub proof fn lemma_rank_idempotent(s: Seq<Process>)
    ensures
        ranked(ranked(s)) == ranked(s),
{
    lemma_ranked_is_ordered(s);
    lemma_ranked_fixes_ordered(ranked(s));
}

/// `top` never yields more than `n` records, nor more than it was given.
pub proof fn lemma_top_bounded(s: Seq<Process>, n: nat)
    ensures
        first_n(s, n).len() <= n,
        first_n(s, n).len() <= s.len(),
        first_n(s, n).len() == if n < s.len() { n } else { s.len() },
{
}

/// Orders the records by usage, highest first, ties by ascending pid;
/// records that tie on both keep their order.
pub fn rank(records: Vec<Process>) -> (r: Vec<Process>)
    ensures
        r@ == ranked(records@),
{
    let ghost orig = records@;
    let total = records.len();
    let mut rest = records;
    let mut out: Vec<Process> = Vec::new();
    let mut n: usize = 0;
    while rest.len() > 0
        invariant
            n <= orig.len(),
            total == orig.len(),
            rest@ == orig.skip(n as int),
            out@ == ranked(orig.take(n as int)),
        decreases rest.len(),
    {
        let x = rest.remove(0);
        assert(x == orig[n as int]);
        let mut k: usize = 0;
        while k < out.len() && !(x.cpu_usage > out[k].cpu_usage || (x.cpu_usage == out[k].cpu_usage
            && x.pid < out[k].pid))
            invariant
                k <= out@.len(),
                forall|m: int| 0 <= m < k ==> !before(x, #[trigger] out@[m]),
            decreases out.len() - k,
        {
            k = k + 1;
        }
        proof {
            lemma_slot(out@, x);
            let s = slot(out@, x);
            if s < k {
                assert(!before(x, out@[s]));
            }
            if k < s {
                assert(before(x, out@[k as int]));
            }
            assert(orig.take(n + 1).drop_last() =~= orig.take(n as int));
        }
        out.insert(k, x);
        n = n + 1;
        assert(rest@ =~= orig.skip(n as int));
    }
    assert(orig.take(n as int) =~= orig);
    out
}

/// The first `n` records, or all of them if there are fewer.
pub fn top(records: &[Process], n: usize) -> (r: &[Process])
    ensures
        r@ == first_n(records@, n as nat),
{
    let k = if n < records.len() { n } else { records.len() };
    let r = vstd::slice::slice_subrange(records, 0, k);
    assert(r@ =~= first_n(records@, n as nat));
    r
}

} // verus!
