use vstd::prelude::*;
use vstd::arithmetic::div_mod::{
    lemma_div_is_ordered,
    lemma_fundamental_div_mod,
    lemma_fundamental_div_mod_converse,
    lemma_small_mod,
};
use crate::record::Record;

verus! {

/// The worker count of a standard run.
pub const DEFAULT_WORKERS: usize = 50;

/// The queue capacity of each worker in a standard run.
pub const DEFAULT_QUEUE_CAPACITY: usize = 10;

/// Size of the worker pool: how many workers, and how many records each
/// worker's queue holds before the dispatcher has to wait.
#[derive(Debug, Clone, Copy, PartialEq, Eq, Structural)]
pub struct PoolConfig {
    pub workers: usize,
    pub capacity: usize,
}

/// Why a pool configuration was refused.
#[derive(Debug, Clone, Copy, PartialEq, Eq, Structural)]
pub enum ConfigError {
    NoWorkers,
    NoCapacity,
}

impl PoolConfig {
    pub open spec fn wf(&self) -> bool {
        self.workers >= 1 && self.capacity >= 1
    }

    /// A configuration of `workers` workers with queues of `capacity` records.
    pub fn new(workers: usize, capacity: usize) -> (r: Result<PoolConfig, ConfigError>)
        ensures
            workers == 0 ==> r == Err::<PoolConfig, ConfigError>(ConfigError::NoWorkers),
            workers > 0 && capacity == 0 ==> r == Err::<PoolConfig, ConfigError>(
                ConfigError::NoCapacity,
            ),
            workers > 0 && capacity > 0 ==> r == Ok::<PoolConfig, ConfigError>(
                PoolConfig { workers, capacity },
            ),
    {
        if workers == 0 {
            Err(ConfigError::NoWorkers)
        } else if capacity == 0 {
            Err(ConfigError::NoCapacity)
        } else {
            Ok(PoolConfig { workers, capacity })
        }
    }

    /// The standard pool: fifty workers with queues of ten records.
    pub fn standard() -> (r: PoolConfig)
        ensures
            r.workers == DEFAULT_WORKERS,
            r.capacity == DEFAULT_QUEUE_CAPACITY,
            r.wf(),
    {
        PoolConfig { workers: DEFAULT_WORKERS, capacity: DEFAULT_QUEUE_CAPACITY }
    }
}

/// The worker that the `i`-th record in source order goes to, of `n` workers.
pub open spec fn assigned_worker(i: nat, n: nat) -> nat {
    i % n
}

/// How many of `m` records go to worker `w` of `n`.
pub open spec fn queue_len(m: nat, n: nat, w: nat) -> nat {
    if w < m {
        ((m - w - 1) as nat / n) + 1
    } else {
        0
    }
}

/// What worker `w` of `n` receives from the records `s`, in the order of
/// arrival: the records at positions `w`, `w + n`, `w + 2n`, ...
pub open spec fn worker_queue(s: Seq<Record>, n: nat, w: nat) -> Seq<Record> {
    Seq::new(queue_len(s.len(), n, w), |k: int| s[k * n + w])
}

/// Round-robin delivery hands every record to exactly one worker, once: the
/// `i`-th record stands in the queue of worker `i mod n`, at place `i / n`,
/// and every place of every queue holds the record of exactly one position,
/// which is assigned to that worker.
pub proof fn lemma_each_record_delivered_once(s: Seq<Record>, n: nat)
    requires
        n >= 1,
    ensures
        forall|i: int|
            0 <= i < s.len() ==> #[trigger] assigned_worker(i as nat, n) < n && i / (n as int)
                < worker_queue(s, n, assigned_worker(i as nat, n)).len() && worker_queue(
                s,
                n,
                assigned_worker(i as nat, n),
            )[i / (n as int)] == s[i],
        forall|w: nat, k: int|
            #![trigger place_of(s.len(), n, w, k)]
            w < n && 0 <= k < worker_queue(s, n, w).len() ==> place_of(s.len(), n, w, k)
                && worker_queue(s, n, w)[k] == s[k * n + w],
{
    assert forall|i: int| 0 <= i < s.len() implies #[trigger] assigned_worker(i as nat, n) < n
        && i / (n as int) < worker_queue(s, n, assigned_worker(i as nat, n)).len() && worker_queue(
        s,
        n,
        assigned_worker(i as nat, n),
    )[i / (n as int)] == s[i] by {
        lemma_position_in_queue(s.len(), n, i);
        let w = assigned_worker(i as nat, n);
        let k = i / (n as int);
        assert(worker_queue(s, n, w).len() == queue_len(s.len(), n, w));
        assert(worker_queue(s, n, w)[k] == s[k * n + w]);
    }
    assert forall|w: nat, k: int|
        #![trigger place_of(s.len(), n, w, k)]
        w < n && 0 <= k < worker_queue(s, n, w).len() implies place_of(s.len(), n, w, k)
            && worker_queue(s, n, w)[k] == s[k * n + w] by {
        assert(worker_queue(s, n, w).len() == queue_len(s.len(), n, w));
        lemma_place_in_queue(s.len(), n, w, k);
    }
}

/// Routing one more record appends it to the queue of the worker it is
/// assigned to and leaves every other worker's queue as it was: each queue
/// keeps the order in which its records were routed.
pub proof fn lemma_route_appends(s: Seq<Record>, r: Record, n: nat)
    requires
        n >= 1,
    ensures
        worker_queue(s.push(r), n, assigned_worker(s.len(), n)) == worker_queue(
            s,
            n,
            assigned_worker(s.len(), n),
        ).push(r),
        forall|w: nat|
            w < n && w != assigned_worker(s.len(), n) ==> #[trigger] worker_queue(s.push(r), n, w)
                == worker_queue(s, n, w),
{
    let m = s.len();
    let ni = n as int;
    let t = s.push(r);
    let v = assigned_worker(m, n);
    let q = (m as int) / ni;
    lemma_fundamental_div_mod(m as int, ni);
    assert(v as int == (m as int) % ni);
    assert(0 <= q) by (nonlinear_arith)
        requires
            0 <= m,
            ni >= 1,
            q == (m as int) / ni,
    ;
    // the assigned worker's queue grows by one, holding the new record last
    if v < m {
        assert(q >= 1) by (nonlinear_arith)
            requires
                m as int == ni * q + v,
                v < m,
                0 <= q,
        ;
        assert((m - v - 1) as int == (q - 1) * ni + (ni - 1)) by (nonlinear_arith)
            requires
                m as int == ni * q + v,
        ;
        lemma_fundamental_div_mod_converse((m - v - 1) as int, ni, q - 1, ni - 1);
        assert((m - v) as int == q * ni + 0) by (nonlinear_arith)
            requires
                m as int == ni * q + v,
        ;
        lemma_fundamental_div_mod_converse((m - v) as int, ni, q, 0);
        assert(queue_len(m, n, v) == q);
        assert(queue_len(m + 1, n, v) == q + 1);
    } else {
        assert(v == m);
        assert(q == 0) by (nonlinear_arith)
            requires
                m as int == ni * q + v,
                v == m,
                ni >= 1,
        ;
        lemma_small_mod(0, n);
        assert(queue_len(m, n, v) == 0);
        assert(queue_len(m + 1, n, v) == 1);
    }
    assert(q * ni + v == m) by (nonlinear_arith)
        requires
            m as int == ni * q + v,
    ;
    assert forall|k: int| 0 <= k < queue_len(m, n, v) implies #[trigger] t[k * n + v] == s[k * n
        + v] by {
        lemma_place_in_queue(m, n, v, k);
    }
    assert(worker_queue(t, n, v) =~= worker_queue(s, n, v).push(r));
    // every other worker's queue stays the same
    assert forall|w: nat| w < n && w != v implies #[trigger] worker_queue(t, n, w) == worker_queue(
        s,
        n,
        w,
    ) by {
        if w < m {
            let a = (m - w) as int;
            let qa = a / ni;
            let ra = a % ni;
            lemma_fundamental_div_mod(a, ni);
            if ra == 0 {
                assert(m as int == qa * ni + w) by (nonlinear_arith)
                    requires
                        a == ni * qa + ra,
                        ra == 0,
                        a == m - w,
                ;
                lemma_fundamental_div_mod_converse(m as int, ni, qa, w as int);
                assert(false);
            }
            assert(a - 1 == qa * ni + (ra - 1)) by (nonlinear_arith)
                requires
                    a == ni * qa + ra,
            ;
            lemma_fundamental_div_mod_converse(a - 1, ni, qa, ra - 1);
            assert(queue_len(m + 1, n, w) == queue_len(m, n, w));
        } else {
            assert(w != m);
            assert(queue_len(m + 1, n, w) == 0 && queue_len(m, n, w) == 0);
        }
        assert forall|k: int| 0 <= k < queue_len(m, n, w) implies #[trigger] t[k * n + w] == s[k
            * n + w] by {
            lemma_place_in_queue(m, n, w, k);
        }
        assert(worker_queue(t, n, w) =~= worker_queue(s, n, w));
    }
}

/// Place `k` of worker `w`'s queue holds the record at position `k * n + w`:
/// a position within the input, assigned to `w`, whose place in the queue is `k`.
pub open spec fn place_of(m: nat, n: nat, w: nat, k: int) -> bool {
    &&& 0 <= k * n + w < m
    &&& assigned_worker((k * n + w) as nat, n) == w
    &&& (k * n + w) / (n as int) == k
}

proof fn lemma_position_in_queue(m: nat, n: nat, i: int)
    requires
        n >= 1,
        0 <= i < m,
    ensures
        assigned_worker(i as nat, n) < n,
        0 <= i / (n as int) < queue_len(m, n, assigned_worker(i as nat, n)),
        (i / (n as int)) * n + assigned_worker(i as nat, n) == i,
{
    let ni = n as int;
    let w = i % ni;
    assert(assigned_worker(i as nat, n) == w);
    let k = i / ni;
    lemma_fundamental_div_mod(i, ni);
    assert(0 <= k) by (nonlinear_arith)
        requires
            0 <= i,
            ni >= 1,
            k == i / ni,
    ;
    let a = m - w - 1;
    assert(k * ni <= a) by (nonlinear_arith)
        requires
            i == ni * k + w,
            i <= m - 1,
            a == m - w - 1,
    ;
    lemma_fundamental_div_mod_converse(k * ni, ni, k, 0);
    lemma_div_is_ordered(k * ni, a, ni);
    assert(k * ni + w == i) by (nonlinear_arith)
        requires
            i == ni * k + w,
    ;
}

proof fn lemma_place_in_queue(m: nat, n: nat, w: nat, k: int)
    requires
        n >= 1,
        w < n,
        0 <= k < queue_len(m, n, w),
    ensures
        place_of(m, n, w, k),
{
    let ni = n as int;
    let a = m - w - 1;
    let q = a / ni;
    assert(w < m);
    lemma_fundamental_div_mod(a, ni);
    assert(k <= q);
    assert(k * ni <= q * ni) by (nonlinear_arith)
        requires
            k <= q,
            ni >= 1,
    ;
    assert(0 <= k * ni) by (nonlinear_arith)
        requires
            0 <= k,
            ni >= 1,
    ;
    lemma_fundamental_div_mod_converse(k * ni + w, ni, k, w as int);
    assert(assigned_worker((k * n + w) as nat, n) == (k * ni + w) % ni);
}

/// The assignment depends on positions alone: two inputs of the same length,
/// routed over the same number of workers, give every worker the records of
/// the same positions, in the same order.
pub proof fn lemma_assignment_deterministic(s1: Seq<Record>, s2: Seq<Record>, n: nat)
    requires
        n >= 1,
        s1.len() == s2.len(),
    ensures
        forall|w: nat|
            w < n ==> #[trigger] worker_queue(s1, n, w).len() == worker_queue(s2, n, w).len(),
        forall|w: nat, k: int|
            w < n && 0 <= k < worker_queue(s1, n, w).len() ==> #[trigger] worker_queue(s1, n, w)[k]
                == s1[k * n + w] && worker_queue(s2, n, w)[k] == s2[k * n + w],
        s1 == s2 ==> forall|w: nat| w < n ==> #[trigger] worker_queue(s1, n, w) == worker_queue(
            s2,
            n,
            w,
        ),
{
}

/// Where a dispatcher stands in a run.
#[derive(Debug, Clone, Copy, PartialEq, Eq, Structural)]
pub enum DispatchState {
    /// Records are still being read and routed.
    Running,
    /// The source is exhausted and every queue has been closed.
    Finished,
    /// The source produced a malformed row; nothing more is routed.
    Aborted,
}

/// What the record source produced next.
#[derive(Debug)]
pub enum SourceEvent {
    /// A well-formed record.
    Row(Record),
    /// A row that could not be read as a record, with the reason.
    Malformed(String),
    /// The source has no more rows.
    Exhausted,
}

/// What the run has to do after one source event.
#[derive(Debug)]
pub enum DispatchAction {
    /// Enqueue `record` on the queue of worker `worker`, waiting while it is full.
    Send { worker: usize, record: Record },
    /// Close every queue: no more records will come.
    CloseAll,
    /// Close every queue, let the workers drain what they hold, and fail the
    /// run with the given reason.
    Abort(String),
    /// The run is no longer dispatching: nothing to do.
    Idle,
}

/// Routes records round-robin over a fixed number of workers.
pub struct Dispatcher {
    workers: usize,
    next: usize,
    routed: Ghost<Seq<Record>>,
    state: DispatchState,
}

impl Dispatcher {
    /// Number of workers records are routed over.
    pub closed spec fn spec_workers(&self) -> nat {
        self.workers as nat
    }

    /// The records routed so far, in source order: worker `w` has been sent
    /// exactly `worker_queue(self.spec_routed(), n, w)`.
    pub closed spec fn spec_routed(&self) -> Seq<Record> {
        self.routed@
    }

    /// Number of records routed so far.
    pub open spec fn spec_sent(&self) -> nat {
        self.spec_routed().len()
    }

    pub closed spec fn spec_state(&self) -> DispatchState {
        self.state
    }

    pub closed spec fn wf(&self) -> bool {
        &&& self.workers >= 1
        &&& self.next < self.workers
        &&& self.next as nat == assigned_worker(self.routed@.len(), self.workers as nat)
    }

    /// A dispatcher over the workers of `config`, before any record.
    pub fn new(config: PoolConfig) -> (r: Dispatcher)
        requires
            config.wf(),
        ensures
            r.wf(),
            r.spec_workers() == config.workers,
            r.spec_routed() == Seq::<Record>::empty(),
            r.spec_state() == DispatchState::Running,
    {
        proof {
            lemma_small_mod(0, config.workers as nat);
        }
        Dispatcher {
            workers: config.workers,
            next: 0,
            routed: Ghost(Seq::empty()),
            state: DispatchState::Running,
        }
    }

    pub fn state(&self) -> (r: DispatchState)
        ensures
            r == self.spec_state(),
    {
        self.state
    }

    pub fn workers(&self) -> (r: usize)
        ensures
            r == self.spec_workers(),
    {
        self.workers
    }

    /// Decides what to do with the next source event. While running, the
    /// `i`-th record goes to worker `i mod n`; exhaustion closes the queues;
    /// a malformed row aborts the run at once. After that nothing more is sent.
    pub fn step(&mut self, event: SourceEvent) -> (r: DispatchAction)
        requires
            old(self).wf(),
        ensures
            final(self).wf(),
            final(self).spec_workers() == old(self).spec_workers(),
            old(self).spec_state() == DispatchState::Running && event is Row ==> {
                &&& r == (DispatchAction::Send {
                    worker: assigned_worker(old(self).spec_sent(), old(self).spec_workers()) as usize,
                    record: event->Row_0,
                })
                &&& final(self).spec_routed() == old(self).spec_routed().push(event->Row_0)
                &&& final(self).spec_state() == DispatchState::Running
            },
            old(self).spec_state() == DispatchState::Running && event is Malformed ==> {
                &&& r == DispatchAction::Abort(event->Malformed_0)
                &&& final(self).spec_routed() == old(self).spec_routed()
                &&& final(self).spec_state() == DispatchState::Aborted
            },
            old(self).spec_state() == DispatchState::Running && event is Exhausted ==> {
                &&& r == DispatchAction::CloseAll
                &&& final(self).spec_routed() == old(self).spec_routed()
                &&& final(self).spec_state() == DispatchState::Finished
            },
            old(self).spec_state() != DispatchState::Running ==> {
                &&& r == DispatchAction::Idle
                &&& final(self).spec_routed() == old(self).spec_routed()
                &&& final(self).spec_state() == old(self).spec_state()
            },
    {
        if self.state != DispatchState::Running {
            return DispatchAction::Idle;
        }
        match event {
            SourceEvent::Row(record) => {
                let worker = self.next;
                self.next = if self.next + 1 == self.workers {
                    0
                } else {
                    self.next + 1
                };
                proof {
                    let n = self.workers as int;
                    let i = self.routed@.len() as int;
                    let q = i / n;
                    assert(worker as int == i % n);
                    lemma_fundamental_div_mod(i, n);
                    if worker + 1 == n {
                        assert(i + 1 == (q + 1) * n + 0) by (nonlinear_arith)
                            requires
                                i == n * q + worker,
                                worker + 1 == n,
                        ;
                        lemma_fundamental_div_mod_converse(i + 1, n, q + 1, 0);
                    } else {
                        assert(i + 1 == q * n + (worker + 1)) by (nonlinear_arith)
                            requires
                                i == n * q + worker,
                        ;
                        lemma_fundamental_div_mod_converse(i + 1, n, q, worker + 1);
                    }
                    self.routed = Ghost(self.routed@.push(record));
                }
                DispatchAction::Send { worker, record }
            },
            SourceEvent::Malformed(reason) => {
                self.state = DispatchState::Aborted;
                DispatchAction::Abort(reason)
            },
            SourceEvent::Exhausted => {
                self.state = DispatchState::Finished;
                DispatchAction::CloseAll
            },
        }
    }
}

} // verus!
