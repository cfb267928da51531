//! The recent readings of each process (CPU or memory), oldest first, for
//! the charts of a process's details. Each refresh adds one reading per
//! running process, keeps at most a fixed number per process, and forgets
//! the processes that are gone.
use vstd::prelude::*;

verus! {

/// The readings of one process, oldest first.
pub struct Series {
    pub pid: u32,
    pub values: Vec<u64>,
}

/// The readings of each process, at most `limit` per process.
pub struct History {
    series: Vec<Series>,
    limit: usize,
}

/// The readings by pid; a later series of the same pid would hide an
/// earlier one, but a well-formed history has one series per pid.
pub open spec fn series_map(s: Seq<Series>) -> Map<u32, Seq<u64>>
    decreases s.len(),
{
    if s.len() == 0 {
        Map::empty()
    } else {
        series_map(s.drop_last()).insert(s.last().pid, s.last().values@)
    }
}

/// No two series are of the same pid.
pub open spec fn pids_distinct(s: Seq<Series>) -> bool {
    forall|i: int, j: int| 0 <= i < j < s.len() ==> s[i].pid != s[j].pid
}

/// No process has more than `limit` readings.
pub open spec fn bounded(m: Map<u32, Seq<u64>>, limit: nat) -> bool {
    forall|p: u32| m.contains_key(p) ==> #[trigger] m[p].len() <= limit
}

/// The readings after adding `v`: the oldest is dropped when there would be
/// more than `limit`.
pub open spec fn push_capped(h: Seq<u64>, v: u64, limit: nat) -> Seq<u64> {
    if h.push(v).len() > limit {
        h.push(v).drop_first()
    } else {
        h.push(v)
    }
}

/// The readings of `pid`, none when it has none.
pub open spec fn readings_of(m: Map<u32, Seq<u64>>, pid: u32) -> Seq<u64> {
    if m.contains_key(pid) {
        m[pid]
    } else {
        seq![]
    }
}

/// The readings after adding each `(pid, reading)` sample in turn.
pub open spec fn add_samples(m: Map<u32, Seq<u64>>, s: Seq<(u32, u64)>, limit: nat) -> Map<
    u32,
    Seq<u64>,
>
    decreases s.len(),
{
    if s.len() == 0 {
        m
    } else {
        let before = add_samples(m, s.drop_last(), limit);
        let (pid, v) = s.last();
        before.insert(pid, push_capped(readings_of(before, pid), v, limit))
    }
}

/// Some sample is of `pid`.
pub open spec fn sampled(s: Seq<(u32, u64)>, pid: u32) -> bool {
    exists|i: int| 0 <= i < s.len() && #[trigger] s[i].0 == pid
}

/// A refresh: the samples are added, and only the sampled processes are kept.
pub open spec fn recorded(m: Map<u32, Seq<u64>>, s: Seq<(u32, u64)>, limit: nat) -> Map<
    u32,
    Seq<u64>,
> {
    add_samples(m, s, limit).restrict(Set::new(|pid: u32| sampled(s, pid)))
}

impl View for History {
    type V = Map<u32, Seq<u64>>;

    closed spec fn view(&self) -> Map<u32, Seq<u64>> {
        series_map(self.series@)
    }
}

proof fn lemma_series_lookup(s: Seq<Series>)
    requires
        pids_distinct(s),
    ensures
        forall|i: int|
            0 <= i < s.len() ==> series_map(s).contains_key(#[trigger] s[i].pid) && series_map(
                s,
            )[s[i].pid] == s[i].values@,
        forall|p: u32|
            series_map(s).contains_key(p) ==> exists|i: int| 0 <= i < s.len() && #[trigger] s[i].pid == p,
    decreases s.len(),
{
    if s.len() > 0 {
        let d = s.drop_last();
        lemma_series_lookup(d);
        assert forall|i: int| 0 <= i < s.len() implies series_map(s).contains_key(
            #[trigger] s[i].pid,
        ) && series_map(s)[s[i].pid] == s[i].values@ by {
            if i < s.len() - 1 {
                assert(d[i] == s[i]);
            }
        }
        assert forall|p: u32| series_map(s).contains_key(p) implies exists|i: int|
            0 <= i < s.len() && #[trigger] s[i].pid == p by {
            if p == s.last().pid {
                assert(s[s.len() - 1].pid == p);
            } else {
                assert(series_map(d).contains_key(p));
                let i = choose|i: int| 0 <= i < d.len() && #[trigger] d[i].pid == p;
                assert(d[i] == s[i]);
                assert(s[i].pid == p);
            }
        }
    }
}

proof fn lemma_series_update(s: Seq<Series>, i: int, x: Series)
    requires
        pids_distinct(s),
        0 <= i < s.len(),
        x.pid == s[i].pid,
    ensures
        series_map(s.update(i, x)) == series_map(s).insert(x.pid, x.values@),
    decreases s.len(),
{
    let d = s.drop_last();
    if i == s.len() - 1 {
        assert(s.update(i, x).drop_last() == d);
        assert(series_map(s.update(i, x)) =~= series_map(s).insert(x.pid, x.values@));
    } else {
        assert(s.update(i, x).drop_last() == d.update(i, x));
        lemma_series_update(d, i, x);
        assert(s.last().pid != x.pid);
        assert(series_map(s.update(i, x)) =~= series_map(s).insert(x.pid, x.values@));
    }
}

fn copy_values(v: &Vec<u64>) -> (c: Vec<u64>)
    ensures
        c@ == v@,
{
    let mut c: Vec<u64> = Vec::new();
    let mut i: usize = 0;
    while i < v.len()
        invariant
            i <= v@.len(),
            c@ == v@.take(i as int),
        decreases v@.len() - i,
    {
        c.push(v[i]);
        assert(c@ =~= v@.take(i + 1));
        i = i + 1;
    }
    assert(v@.take(v@.len() as int) == v@);
    c
}

fn pushed_capped(values: &Vec<u64>, v: u64, limit: usize) -> (r: Vec<u64>)
    ensures
        r@ == push_capped(values@, v, limit as nat),
{
    let mut r = copy_values(values);
    r.push(v);
    if r.len() > limit {
        r.remove(0);
        assert(r@ =~= push_capped(values@, v, limit as nat));
    }
    r
}

impl History {
    /// One series per pid, none longer than the limit.
    pub closed spec fn wf(&self) -> bool {
        &&& pids_distinct(self.series@)
        &&& bounded(self@, self.limit as nat)
    }

    /// The most readings kept per process.
    pub closed spec fn spec_limit(&self) -> nat {
        self.limit as nat
    }

    /// No readings yet, keeping at most `limit` per process.
    pub fn new(limit: usize) -> (h: History)
        ensures
            h.wf(),
            h@ == Map::<u32, Seq<u64>>::empty(),
            h.spec_limit() == limit,
    {
        let h = History { series: Vec::new(), limit };
        assert(h@ =~= Map::<u32, Seq<u64>>::empty());
        h
    }

    /// The readings of `pid`, oldest first; none for an unknown process.
    pub fn readings(&self, pid: u32) -> (r: Vec<u64>)
        requires
            self.wf(),
        ensures
            r@ == readings_of(self@, pid),
    {
        proof {
            lemma_series_lookup(self.series@);
        }
        let mut i: usize = 0;
        while i < self.series.len()
            invariant
                i <= self.series@.len(),
                pids_distinct(self.series@),
                forall|k: int| 0 <= k < i ==> #[trigger] self.series@[k].pid != pid,
            decreases self.series@.len() - i,
        {
            if self.series[i].pid == pid {
                proof {
                    lemma_series_lookup(self.series@);
                }
                return copy_values(&self.series[i].values);
            }
            i = i + 1;
        }
        Vec::new()
    }

    fn position(&self, pid: u32) -> (r: Option<usize>)
        requires
            self.wf(),
        ensures
            match r {
                Some(i) => i < self.series@.len() && self.series@[i as int].pid == pid,
                None => !self@.contains_key(pid),
            },
    {
        proof {
            lemma_series_lookup(self.series@);
        }
        let mut i: usize = 0;
        while i < self.series.len()
            invariant
                i <= self.series@.len(),
                forall|k: int| 0 <= k < i ==> #[trigger] self.series@[k].pid != pid,
            decreases self.series@.len() - i,
        {
            if self.series[i].pid == pid {
                return Some(i);
            }
            i = i + 1;
        }
        None
    }

    fn add_sample(&mut self, pid: u32, v: u64)
        requires
            old(self).wf(),
        ensures
            final(self).wf(),
            final(self).limit == old(self).limit,
            final(self)@ == old(self)@.insert(
                pid,
                push_capped(readings_of(old(self)@, pid), v, old(self).limit as nat),
            ),
    {
        proof {
            lemma_series_lookup(self.series@);
        }
        let ghost before = self.series@;
        match self.position(pid) {
            Some(i) => {
                let values = pushed_capped(&self.series[i].values, v, self.limit);
                let x = Series { pid, values };
                proof {
                    lemma_series_update(before, i as int, x);
                }
                self.series.set(i, x);
                assert(self.series@ == before.update(i as int, x));
            },
            None => {
                let values = pushed_capped(&Vec::new(), v, self.limit);
                assert(readings_of(self@, pid) == Seq::<u64>::empty());
                let x = Series { pid, values };
                self.series.push(x);
                assert(self.series@.drop_last() == before);
                assert forall|i: int, j: int|
                    0 <= i < j < self.series@.len() implies self.series@[i].pid
                    != self.series@[j].pid by {
                    if j == self.series@.len() - 1 {
                        assert(series_map(before).contains_key(before[i].pid));
                    }
                }
            },
        }
        assert forall|p: u32| #[trigger] self@.contains_key(p) implies self@[p].len()
            <= self.limit by {
            if p != pid {
                assert(old(self)@.contains_key(p));
            }
        }
    }

    fn keep_sampled(&mut self, samples: &Vec<(u32, u64)>)
        requires
            old(self).wf(),
        ensures
            final(self).wf(),
            final(self).limit == old(self).limit,
            final(self)@ == old(self)@.restrict(Set::new(|pid: u32| sampled(samples@, pid))),
    {
        let ghost keep = Set::new(|pid: u32| sampled(samples@, pid));
        let ghost all = self.series@;
        proof {
            lemma_series_lookup(all);
        }
        let mut kept: Vec<Series> = Vec::new();
        let mut old_series: Vec<Series> = Vec::new();
        std::mem::swap(&mut old_series, &mut self.series);
        assert(old_series@ == all);
        let mut i: usize = 0;
        assert(series_map(all.take(0)) =~= Map::<u32, Seq<u64>>::empty());
        assert(series_map(kept@) =~= series_map(all.take(0)).restrict(keep));
        while i < old_series.len()
            invariant
                i <= all.len(),
                old_series@.len() == all.len(),
                forall|k: int| i <= k < all.len() ==> #[trigger] old_series@[k] == all[k],
                pids_distinct(all),
                pids_distinct(kept@),
                keep == Set::new(|pid: u32| sampled(samples@, pid)),
                series_map(kept@) == series_map(all.take(i as int)).restrict(keep),
                forall|k: int|
                    0 <= k < kept@.len() ==> exists|j: int|
                        0 <= j < i && #[trigger] kept@[k].pid == all[j].pid,
            decreases all.len() - i,
        {
            let mut s = Series { pid: 0, values: Vec::new() };
            std::mem::swap(&mut s, &mut old_series[i]);
            assert(s == all[i as int]);
            assert(all.take(i + 1).drop_last() == all.take(i as int));
            assert(all.take(i + 1).last() == all[i as int]);
            let ghost prev = kept@;
            if is_sampled(samples, s.pid) {
                let ghost sp = s.pid;
                let ghost sv = s.values@;
                kept.push(s);
                assert(kept@.drop_last() == prev);
                assert(series_map(kept@) =~= series_map(all.take(i + 1)).restrict(keep));
                assert forall|a: int, b: int|
                    0 <= a < b < kept@.len() implies kept@[a].pid != kept@[b].pid by {
                    if b == kept@.len() - 1 {
                        let j = choose|j: int| 0 <= j < i && #[trigger] prev[a].pid == all[j].pid;
                        assert(all[j].pid != all[i as int].pid);
                    }
                }
                assert forall|k: int| 0 <= k < kept@.len() implies exists|j: int|
                    0 <= j < i + 1 && #[trigger] kept@[k].pid == all[j].pid by {
                    if k == kept@.len() - 1 {
                        assert(kept@[k].pid == all[i as int].pid);
                    } else {
                        assert(kept@[k] == prev[k]);
                        let j = choose|j: int| 0 <= j < i && #[trigger] prev[k].pid == all[j].pid;
                        assert(kept@[k].pid == all[j].pid);
                    }
                }
            } else {
                assert(!keep.contains(all[i as int].pid));
                assert(series_map(kept@) =~= series_map(all.take(i + 1)).restrict(keep));
            }
            i = i + 1;
        }
        assert(all.take(all.len() as int) == all);
        self.series = kept;
        assert forall|p: u32| #[trigger] self@.contains_key(p) implies self@[p].len()
            <= self.limit by {
            assert(old(self)@.contains_key(p));
        }
    }

    /// One refresh: each sample `(pid, reading)` is added to its process's
    /// readings (dropping the oldest beyond the limit), and the processes
    /// without a sample are forgotten.
    pub fn record(&mut self, samples: &Vec<(u32, u64)>)
        requires
            old(self).wf(),
        ensures
            final(self).wf(),
            bounded(final(self)@, final(self).spec_limit()),
            final(self).spec_limit() == old(self).spec_limit(),
            final(self)@ == recorded(old(self)@, samples@, old(self).spec_limit()),
    {
        let ghost start = self@;
        let mut i: usize = 0;
        while i < samples.len()
            invariant
                i <= samples@.len(),
                self.wf(),
                self.limit == old(self).limit,
                start == old(self)@,
                self@ == add_samples(start, samples@.take(i as int), self.limit as nat),
            decreases samples@.len() - i,
        {
            let (pid, v) = samples[i];
            assert(samples@.take(i + 1).drop_last() == samples@.take(i as int));
            assert(samples@.take(i + 1).last() == samples@[i as int]);
            self.add_sample(pid, v);
            i = i + 1;
        }
        assert(samples@.take(samples@.len() as int) == samples@);
        self.keep_sampled(samples);
    }
}

fn is_sampled(samples: &Vec<(u32, u64)>, pid: u32) -> (b: bool)
    ensures
        b == sampled(samples@, pid),
{
    let mut i: usize = 0;
    while i < samples.len()
        invariant
            i <= samples@.len(),
            forall|k: int| 0 <= k < i ==> #[trigger] samples@[k].0 != pid,
        decreases samples@.len() - i,
    {
        if samples[i].0 == pid {
            return true;
        }
        i = i + 1;
    }
    false
}

/// A memory size in bytes as the charts count it, in whole MiB.
pub fn megabytes(bytes: u64) -> (m: u64)
    ensures
        m == bytes / 1024 / 1024,
{
    bytes / 1024 / 1024
}

/// A refresh never leaves a process with more readings than the limit.
pub proof fn lemma_record_bounded(m: Map<u32, Seq<u64>>, s: Seq<(u32, u64)>, limit: nat)
    requires
        bounded(m, limit),
    ensures
        bounded(recorded(m, s, limit), limit),
{
    lemma_add_bounded(m, s, limit);
}

proof fn lemma_add_bounded(m: Map<u32, Seq<u64>>, s: Seq<(u32, u64)>, limit: nat)
    requires
        bounded(m, limit),
    ensures
        bounded(add_samples(m, s, limit), limit),
    decreases s.len(),
{
    if s.len() > 0 {
        lemma_add_bounded(m, s.drop_last(), limit);
        let before = add_samples(m, s.drop_last(), limit);
        let (pid, v) = s.last();
        assert(readings_of(before, pid).len() <= limit);
    }
}

/// After a refresh a process has readings exactly when it was sampled, and
/// its newest reading is its last sample's.
pub proof fn lemma_record_latest(m: Map<u32, Seq<u64>>, s: Seq<(u32, u64)>, limit: nat, pid: u32)
    requires
        limit > 0,
    ensures
        recorded(m, s, limit).contains_key(pid) == sampled(s, pid),
        sampled(s, pid) ==> recorded(m, s, limit)[pid].last() == s[last_sample(s, pid)].1,
{
    lemma_add_latest(m, s, limit, pid);
}

/// The position of the last sample of `pid`.
pub open spec fn last_sample(s: Seq<(u32, u64)>, pid: u32) -> int
    decreases s.len(),
{
    if s.len() == 0 {
        -1
    } else if s.last().0 == pid {
        s.len() - 1
    } else {
        last_sample(s.drop_last(), pid)
    }
}

proof fn lemma_add_latest(m: Map<u32, Seq<u64>>, s: Seq<(u32, u64)>, limit: nat, pid: u32)
    requires
        limit > 0,
    ensures
        sampled(s, pid) ==> add_samples(m, s, limit).contains_key(pid) && 0 <= last_sample(s, pid)
            < s.len() && s[last_sample(s, pid)].0 == pid && add_samples(m, s, limit)[pid].last()
            == s[last_sample(s, pid)].1,
    decreases s.len(),
{
    if s.len() > 0 {
        let d = s.drop_last();
        lemma_add_latest(m, d, limit, pid);
        if s.last().0 != pid && sampled(s, pid) {
            let i = choose|i: int| 0 <= i < s.len() && #[trigger] s[i].0 == pid;
            assert(d[i].0 == pid);
        }
    }
}


// ---------------------------------------------------------------------------
// The readings of every process
// ---------------------------------------------------------------------------

/// One process at one refresh: its CPU reading (a whole percentage) and its
/// resident memory in bytes.
pub struct ProcessSample {
    pub pid: u32,
    pub cpu: u64,
    pub memory: u64,
}

/// The CPU readings a refresh adds.
pub open spec fn cpu_samples(s: Seq<ProcessSample>) -> Seq<(u32, u64)> {
    s.map_values(|x: ProcessSample| (x.pid, x.cpu))
}

/// The memory readings a refresh adds, in whole MiB.
pub open spec fn memory_samples(s: Seq<ProcessSample>) -> Seq<(u32, u64)> {
    s.map_values(|x: ProcessSample| (x.pid, (x.memory / 1024 / 1024) as u64))
}

/// The number of readings kept per process.
pub open spec fn readings_kept() -> nat {
    100
}

/// The CPU and memory readings of every process, at most a hundred each.
pub struct ProcessReadings {
    cpu: History,
    memory: History,
}

impl ProcessReadings {
    /// The CPU readings by pid.
    pub closed spec fn cpu_view(&self) -> Map<u32, Seq<u64>> {
        self.cpu@
    }

    /// The memory readings (MiB) by pid.
    pub closed spec fn memory_view(&self) -> Map<u32, Seq<u64>> {
        self.memory@
    }

    /// Both histories are well formed and keep a hundred readings.
    pub closed spec fn wf(&self) -> bool {
        &&& self.cpu.wf()
        &&& self.memory.wf()
        &&& self.cpu.spec_limit() == readings_kept()
        &&& self.memory.spec_limit() == readings_kept()
    }

    /// No readings yet.
    pub fn new() -> (r: ProcessReadings)
        ensures
            r.wf(),
            bounded(r.cpu_view(), readings_kept()),
            bounded(r.memory_view(), readings_kept()),
            r.cpu_view() == Map::<u32, Seq<u64>>::empty(),
            r.memory_view() == Map::<u32, Seq<u64>>::empty(),
    {
        ProcessReadings { cpu: History::new(100), memory: History::new(100) }
    }

    /// One refresh: each listed process gets its readings added, the oldest
    /// beyond a hundred dropped, and the processes not listed are forgotten.
    pub fn record(&mut self, samples: &Vec<ProcessSample>)
        requires
            old(self).wf(),
        ensures
            final(self).wf(),
            bounded(final(self).cpu_view(), readings_kept()),
            bounded(final(self).memory_view(), readings_kept()),
            final(self).cpu_view() == recorded(
                old(self).cpu_view(),
                cpu_samples(samples@),
                readings_kept(),
            ),
            final(self).memory_view() == recorded(
                old(self).memory_view(),
                memory_samples(samples@),
                readings_kept(),
            ),
    {
        let mut cpu: Vec<(u32, u64)> = Vec::new();
        let mut mem: Vec<(u32, u64)> = Vec::new();
        let mut i: usize = 0;
        while i < samples.len()
            invariant
                i <= samples@.len(),
                cpu@ == cpu_samples(samples@).take(i as int),
                mem@ == memory_samples(samples@).take(i as int),
            decreases samples@.len() - i,
        {
            let x = &samples[i];
            cpu.push((x.pid, x.cpu));
            mem.push((x.pid, megabytes(x.memory)));
            assert(cpu@ =~= cpu_samples(samples@).take(i + 1));
            assert(mem@ =~= memory_samples(samples@).take(i + 1));
            i = i + 1;
        }
        assert(cpu_samples(samples@).take(samples@.len() as int) =~= cpu_samples(samples@));
        assert(memory_samples(samples@).take(samples@.len() as int) =~= memory_samples(samples@));
        self.cpu.record(&cpu);
        self.memory.record(&mem);
    }

    /// The CPU readings of `pid`, oldest first.
    pub fn cpu_readings(&self, pid: u32) -> (r: Vec<u64>)
        requires
            self.wf(),
        ensures
            r@ == readings_of(self.cpu_view(), pid),
    {
        self.cpu.readings(pid)
    }

    /// The memory readings (MiB) of `pid`, oldest first.
    pub fn memory_readings(&self, pid: u32) -> (r: Vec<u64>)
        requires
            self.wf(),
        ensures
            r@ == readings_of(self.memory_view(), pid),
    {
        self.memory.readings(pid)
    }
}

/// Well-formed readings are bounded: no process has more than a hundred of
/// either kind.
pub proof fn lemma_readings_bounded(r: ProcessReadings)
    requires
        r.wf(),
    ensures
        bounded(r.cpu_view(), readings_kept()),
        bounded(r.memory_view(), readings_kept()),
{
}

/// After a refresh, exactly the listed processes have readings, at most a
/// hundred of each kind, and the newest of each is the one their last
/// listing gave: its CPU reading, and its memory in whole MiB.
pub proof fn lemma_refresh_readings(
    cpu: Map<u32, Seq<u64>>,
    mem: Map<u32, Seq<u64>>,
    s: Seq<ProcessSample>,
    pid: u32,
)
    requires
        bounded(cpu, readings_kept()),
        bounded(mem, readings_kept()),
    ensures
        ({
            let c = recorded(cpu, cpu_samples(s), readings_kept());
            let m = recorded(mem, memory_samples(s), readings_kept());
            let listed = exists|i: int| 0 <= i < s.len() && #[trigger] s[i].pid == pid;
            &&& c.contains_key(pid) == listed
            &&& m.contains_key(pid) == listed
            &&& bounded(c, readings_kept())
            &&& bounded(m, readings_kept())
            &&& listed ==> c[pid].last() == s[last_sample(cpu_samples(s), pid)].cpu
            &&& listed ==> m[pid].last() == s[last_sample(memory_samples(s), pid)].memory / 1024
                / 1024
        }),
{
    let cs = cpu_samples(s);
    let ms = memory_samples(s);
    lemma_record_bounded(cpu, cs, readings_kept());
    lemma_record_bounded(mem, ms, readings_kept());
    lemma_record_latest(cpu, cs, readings_kept(), pid);
    lemma_record_latest(mem, ms, readings_kept(), pid);
    lemma_add_latest(cpu, cs, readings_kept(), pid);
    lemma_add_latest(mem, ms, readings_kept(), pid);
    let listed = exists|i: int| 0 <= i < s.len() && #[trigger] s[i].pid == pid;
    if listed {
        let i = choose|i: int| 0 <= i < s.len() && #[trigger] s[i].pid == pid;
        assert(cs[i].0 == pid);
        assert(ms[i].0 == pid);
    }
    if sampled(cs, pid) {
        let i = choose|i: int| 0 <= i < cs.len() && #[trigger] cs[i].0 == pid;
        assert(s[i].pid == pid);
    }
    if sampled(ms, pid) {
        let i = choose|i: int| 0 <= i < ms.len() && #[trigger] ms[i].0 == pid;
        assert(s[i].pid == pid);
    }
}

} // verus!
