//! Per-process usage records and the engine that refreshes them once per
//! cycle.
use vstd::prelude::*;
use crate::estimator::{previous_of, usage, UsageEstimator};
use crate::record::{name_of, parse_sample, stat_counters, utf8_lossy, RawRecord, ReadError};
use crate::ranker::{first_n, rank, ranked, top};

verus! {

/// One process as the dashboard shows it.
pub struct Process {
    pub pid: u32,
    pub name: String,
    /// Run state code (running, sleeping, zombie, ...), advisory only.
    pub status: String,
    /// Usage in hundredths of a percent of one core (10000 is one core
    /// fully busy).
    pub cpu_usage: u64,
}

impl Process {
    /// A process with no usage observed yet.
    pub fn new(pid: u32, name: String, status: String) -> (r: Process)
        ensures
            r.pid == pid,
            r.name == name,
            r.status == status,
            r.cpu_usage == 0,
    {
        Process { pid, name, status, cpu_usage: 0 }
    }
}

/// The list of processes could not be obtained at all.
#[derive(Debug, Clone, Copy, PartialEq, Eq, Structural)]
pub struct EnumerationError;

/// Whether a read yields a sample: it is a record whose status record is
/// well formed.
pub open spec fn yields_sample(read: Result<RawRecord, ReadError>) -> bool {
    match read {
        Ok(rec) => stat_counters(rec.stat@) is Some,
        Err(_) => false,
    }
}

/// The previous counters after one read: a sample overwrites the entry of
/// its pid; a read that yields no sample changes nothing.
pub open spec fn after_read(m: Map<u32, (u64, u64)>, read: Result<RawRecord, ReadError>) -> Map<u32, (u64, u64)> {
    match read {
        Ok(rec) => match stat_counters(rec.stat@) {
            Some((_, ticks)) => m.insert(rec.pid, (ticks as u64, rec.sampled_at)),
            None => m,
        },
        Err(_) => m,
    }
}

/// The previous counters after a sequence of reads, first to last.
pub open spec fn after_reads(m: Map<u32, (u64, u64)>, reads: Seq<Result<RawRecord, ReadError>>) -> Map<u32, (u64, u64)>
    decreases reads.len(),
{
    if reads.len() == 0 {
        m
    } else {
        after_read(after_reads(m, reads.drop_last()), reads.last())
    }
}

/// The pids of the reads that yield a sample.
pub open spec fn sampled_pids(reads: Seq<Result<RawRecord, ReadError>>) -> Set<u32>
    decreases reads.len(),
{
    if reads.len() == 0 {
        Set::empty()
    } else if yields_sample(reads.last()) {
        sampled_pids(reads.drop_last()).insert(reads.last()->Ok_0.pid)
    } else {
        sampled_pids(reads.drop_last())
    }
}

/// `p` is the record that `rec` yields against the previous counters `m`.
pub open spec fn record_of(m: Map<u32, (u64, u64)>, rec: RawRecord, p: Process, tick_rate: nat, ceiling: nat) -> bool {
    match stat_counters(rec.stat@) {
        Some((state, ticks)) => {
            &&& p.pid == rec.pid
            &&& p.name@ == name_of(rec.comm@)
            &&& p.status@ == utf8_lossy(state)
            &&& p.cpu_usage == usage(previous_of(m, rec.pid), ticks as u64, rec.sampled_at, tick_rate, ceiling)
        },
        None => false,
    }
}

/// `recs` are the records that `reads` yield, in read order, starting
/// from the previous counters `m`: one for each read that yields a sample,
/// its usage taken against the counters left by the reads before it.
pub open spec fn cycle_records(
    m: Map<u32, (u64, u64)>,
    reads: Seq<Result<RawRecord, ReadError>>,
    recs: Seq<Process>,
    tick_rate: nat,
    ceiling: nat,
) -> bool
    decreases reads.len(),
{
    if reads.len() == 0 {
        recs.len() == 0
    } else if yields_sample(reads.last()) {
        &&& recs.len() > 0
        &&& cycle_records(m, reads.drop_last(), recs.drop_last(), tick_rate, ceiling)
        &&& record_of(after_reads(m, reads.drop_last()), reads.last()->Ok_0, recs.last(), tick_rate, ceiling)
    } else {
        cycle_records(m, reads.drop_last(), recs, tick_rate, ceiling)
    }
}

/// A read that yields no sample, wherever it stands in a cycle, changes
/// neither the records of the other processes nor the previous counters.
pub proof fn lemma_skipped_read_changes_nothing(
    m: Map<u32, (u64, u64)>,
    reads: Seq<Result<RawRecord, ReadError>>,
    i: int,
    e: ReadError,
    recs: Seq<Process>,
    tick_rate: nat,
    ceiling: nat,
)
    requires
        0 <= i <= reads.len(),
    ensures
        after_reads(m, reads.insert(i, Err(e))) == after_reads(m, reads),
        sampled_pids(reads.insert(i, Err(e))) == sampled_pids(reads),
        cycle_records(m, reads.insert(i, Err(e)), recs, tick_rate, ceiling)
            == cycle_records(m, reads, recs, tick_rate, ceiling),
    decreases reads.len(), recs.len(),
{
    let with = reads.insert(i, Err(e));
    if i == reads.len() {
        assert(with.drop_last() =~= reads);
    } else {
        assert(with.drop_last() =~= reads.drop_last().insert(i, Err(e)));
        assert(with.last() == reads.last());
        lemma_skipped_read_changes_nothing(m, reads.drop_last(), i, e, recs, tick_rate, ceiling);
        if recs.len() > 0 {
            lemma_skipped_read_changes_nothing(m, reads.drop_last(), i, e, recs.drop_last(), tick_rate, ceiling);
        }
    }
}

/// The sampling engine: the last published snapshot and the estimator that
/// carries previous counters from one cycle to the next.
pub struct ProcessManager {
    processes: Vec<Process>,
    estimator: UsageEstimator,
}

impl ProcessManager {
    /// The published snapshot, ranked.
    pub closed spec fn snapshot(&self) -> Seq<Process> {
        self.processes@
    }

    /// The estimator's previous counters.
    pub closed spec fn previous(&self) -> Map<u32, (u64, u64)> {
        self.estimator@
    }

    pub closed spec fn tick_rate(&self) -> nat {
        self.estimator.tick_rate()
    }

    pub closed spec fn ceiling(&self) -> nat {
        self.estimator.ceiling()
    }

    pub closed spec fn wf(&self) -> bool {
        self.estimator.wf()
    }

    /// An engine with an empty snapshot, around the given estimator.
    pub fn new(estimator: UsageEstimator) -> (r: ProcessManager)
        requires
            estimator.wf(),
        ensures
            r.wf(),
            r.snapshot() == Seq::<Process>::empty(),
            r.previous() == estimator@,
            r.tick_rate() == estimator.tick_rate(),
            r.ceiling() == estimator.ceiling(),
    {
        ProcessManager { processes: Vec::new(), estimator }
    }

    /// The record for one process read, if its status record is well
    /// formed; the read's counters become the pid's previous counters.
    pub fn read_process_info(&mut self, rec: &RawRecord) -> (r: Option<Process>)
        requires
            old(self).wf(),
        ensures
            final(self).wf(),
            final(self).snapshot() == old(self).snapshot(),
            final(self).tick_rate() == old(self).tick_rate(),
            final(self).ceiling() == old(self).ceiling(),
            final(self).previous() == after_read(old(self).previous(), Ok(*rec)),
            r is Some <==> stat_counters(rec.stat@) is Some,
            r matches Some(p) ==> record_of(old(self).previous(), *rec, p, old(self).tick_rate(), old(self).ceiling()),
    {
        match parse_sample(rec) {
            Ok(sample) => {
                let cpu = self.estimator.update(&sample);
                Some(Process { pid: sample.pid, name: sample.name, status: sample.state, cpu_usage: cpu })
            },
            Err(_) => None,
        }
    }

    /// Runs one cycle over what was read. When the process list could not
    /// be obtained, the snapshot and the counters stay as they were and the
    /// failure is handed back. Otherwise every read that yields a sample
    /// gives a record, the others are skipped, and the ranked records become
    /// the new snapshot; previous counters are then kept only for the pids
    /// sampled in this cycle, so that they never outnumber the live
    /// processes.
    pub fn refresh_processes(&mut self, scan: Result<Vec<Result<RawRecord, ReadError>>, EnumerationError>) -> (r: Result<(), EnumerationError>)
        requires
            old(self).wf(),
        ensures
            final(self).wf(),
            final(self).tick_rate() == old(self).tick_rate(),
            final(self).ceiling() == old(self).ceiling(),
            r is Ok <==> scan is Ok,
            scan is Err ==> final(self).snapshot() == old(self).snapshot()
                && final(self).previous() == old(self).previous(),
            scan matches Ok(reads) ==> {
                &&& final(self).previous() == after_reads(old(self).previous(), reads@).restrict(sampled_pids(reads@))
                &&& exists|recs: Seq<Process>|
                    cycle_records(old(self).previous(), reads@, recs, old(self).tick_rate(), old(self).ceiling())
                    && final(self).snapshot() == ranked(recs)
            },
    {
        let reads = match scan {
            Ok(reads) => reads,
            Err(e) => return Err(e),
        };
        let ghost m0 = self.estimator@;
        let mut recs: Vec<Process> = Vec::new();
        let mut pids: Vec<u32> = Vec::new();
        let mut i: usize = 0;
        while i < reads.len()
            invariant
                i <= reads@.len(),
                self.wf(),
                self.tick_rate() == old(self).tick_rate(),
                self.ceiling() == old(self).ceiling(),
                self.previous() == after_reads(m0, reads@.take(i as int)),
                cycle_records(m0, reads@.take(i as int), recs@, self.tick_rate(), self.ceiling()),
                forall|p: u32| #[trigger] pids@.contains(p) <==> sampled_pids(reads@.take(i as int)).contains(p),
            decreases reads.len() - i,
        {
            let ghost before = recs@;
            let ghost pids_before = pids@;
            let ghost pre = reads@.take(i as int);
            let ghost next = reads@.take(i + 1);
            assert(next.drop_last() =~= pre);
            assert(next.last() == reads@[i as int]);
            match &reads[i] {
                Ok(rec) => {
                    match self.read_process_info(rec) {
                        Some(p) => {
                            let pid = p.pid;
                            recs.push(p);
                            pids.push(pid);
                            assert(recs@.drop_last() =~= before);
                            assert forall|q: u32| #[trigger] pids@.contains(q) <==> (pids_before.contains(q) || q == pid) by {
                                if pids_before.contains(q) {
                                    let k = choose|k: int| 0 <= k < pids_before.len() && pids_before[k] == q;
                                    assert(pids@[k] == q);
                                }
                                if q == pid {
                                    assert(pids@[pids_before.len() as int] == q);
                                }
                                if pids@.contains(q) {
                                    let k = choose|k: int| 0 <= k < pids@.len() && pids@[k] == q;
                                    if k < pids_before.len() {
                                        assert(pids_before[k] == q);
                                    }
                                }
                            }
                        },
                        None => {},
                    }
                },
                Err(_) => {},
            }
            i = i + 1;
        }
        assert(reads@.take(i as int) =~= reads@);
        self.estimator.keep_only(&pids);
        assert(Set::new(|p: u32| pids@.contains(p)) =~= sampled_pids(reads@));
        self.processes = rank(recs);
        Ok(())
    }

    /// The first `count` processes of the snapshot, or all of them if there
    /// are fewer.
    pub fn get_top_processes(&self, count: usize) -> (r: &[Process])
        ensures
            r@ == first_n(self.snapshot(), count as nat),
    {
        top(self.processes.as_slice(), count)
    }

    /// How many processes the snapshot holds.
    pub fn get_process_count(&self) -> (r: usize)
        ensures
            r == self.snapshot().len(),
    {
        self.processes.len()
    }
}

} // verus!
