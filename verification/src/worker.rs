//! Operations, per-operation outcome records, and their aggregation into
//! running statistics.

use vstd::prelude::*;
use vstd::pervasive::unreached;

use crate::queue::{rand_index, Queue, QueueItem};
use crate::textfmt::{dec_seq, push_dec_u128, push_dec_u64, u64_string};
use crate::utils::{streq, ChumError};

verus! {

/// The destination directory (bucket) objects are written under.
pub const DIR: &'static str = "chum";

/// The kinds of work a worker can perform, plus a synthetic `Error` kind used
/// only to bucket failures in the statistics tables.
#[derive(Clone, Copy, Debug, PartialEq, Eq, Hash, Structural)]
pub enum Operation {
    Read,
    Write,
    Delete,
    Error,
}

impl Operation {
    /// Selects an operation from its one-letter workload token.
    pub fn from_str(s: &str) -> (r: Result<Operation, ChumError>)
        ensures
            s@ == "r"@ ==> r == Ok::<Operation, ChumError>(Operation::Read),
            s@ == "w"@ ==> r == Ok::<Operation, ChumError>(Operation::Write),
            s@ == "d"@ ==> r == Ok::<Operation, ChumError>(Operation::Delete),
            s@ == "e"@ ==> r == Ok::<Operation, ChumError>(Operation::Error),
            s@ != "r"@ && s@ != "w"@ && s@ != "d"@ && s@ != "e"@ ==> (r matches Err(e) && e@
                == "invalid operation requested"@),
    {
        proof {
            reveal_strlit("r");
            reveal_strlit("w");
            reveal_strlit("d");
            reveal_strlit("e");
            assert("r"@[0] == 'r');
            assert("w"@[0] == 'w');
            assert("d"@[0] == 'd');
            assert("e"@[0] == 'e');
            assert("r"@ != "w"@ && "r"@ != "d"@ && "r"@ != "e"@);
            assert("w"@ != "d"@ && "w"@ != "e"@);
            assert("d"@ != "e"@);
        }
        if streq(s, "r") {
            Ok(Operation::Read)
        } else if streq(s, "w") {
            Ok(Operation::Write)
        } else if streq(s, "d") {
            Ok(Operation::Delete)
        } else if streq(s, "e") {
            Ok(Operation::Error)
        } else {
            Err(ChumError::new("invalid operation requested"))
        }
    }

    /// The lowercase name of this operation, as the reports print it.
    pub fn label(&self) -> (s: &'static str)
        ensures
            s@ == op_label(*self),
    {
        match self {
            Operation::Read => "read",
            Operation::Write => "write",
            Operation::Delete => "delete",
            Operation::Error => "error",
        }
    }
}

/// The printed name of an operation.
pub open spec fn op_label(op: Operation) -> Seq<char> {
    match op {
        Operation::Read => "read"@,
        Operation::Write => "write"@,
        Operation::Delete => "delete"@,
        Operation::Error => "error"@,
    }
}

/// What one completed backend call reports: which worker ran which operation,
/// how many bytes moved, and the measured latencies in milliseconds.
#[derive(Clone, Copy, Debug, PartialEq, Eq, Structural)]
pub struct WorkerInfo {
    /// The index of the worker that performed the operation.
    pub id: u64,
    pub op: Operation,
    /// Bytes transferred.
    pub size: u64,
    /// Time to first byte, in milliseconds; zero where the transport has no
    /// meaningful distinction.
    pub ttfb: u128,
    /// Round-trip time, in milliseconds.
    pub rtt: u128,
}

/// Addition that stops at the largest representable value instead of
/// wrapping, so unbounded accumulation stays meaningful.
pub open spec fn sat_add_u64(a: u64, b: u64) -> u64 {
    if a + b > u64::MAX {
        u64::MAX
    } else {
        (a + b) as u64
    }
}

/// Saturating addition on 128-bit counters.
pub open spec fn sat_add_u128(a: u128, b: u128) -> u128 {
    if a + b > u128::MAX {
        u128::MAX
    } else {
        (a + b) as u128
    }
}

pub(crate) fn sat_add_u64_exec(a: u64, b: u64) -> (r: u64)
    ensures
        r == sat_add_u64(a, b),
{
    if b > u64::MAX - a {
        u64::MAX
    } else {
        a + b
    }
}

pub(crate) fn sat_add_u128_exec(a: u128, b: u128) -> (r: u128)
    ensures
        r == sat_add_u128(a, b),
{
    if b > u128::MAX - a {
        u128::MAX
    } else {
        a + b
    }
}

/// An accumulator of `WorkerInfo` records: object count, cumulative bytes,
/// and cumulative latencies.
#[derive(Clone, Copy, Debug, PartialEq, Eq, Structural)]
pub struct WorkerStat {
    pub objs: u64,
    pub data: u64,
    pub ttfb: u128,
    pub rtt: u128,
}

/// The `MB`-scaled rendering of a byte count.
pub open spec fn btoh_seq(bytes: u64) -> Seq<char> {
    dec_seq((bytes / 1048576) as nat) + "MB"@
}

/// Renders a byte count as whole megabytes, e.g. `3MB`.
pub fn bytes_to_human(bytes: u64) -> (s: String)
    ensures
        s@ == btoh_seq(bytes),
{
    let mut s = u64_string(bytes / 1048576);
    s.append("MB");
    s
}

impl WorkerStat {
    /// The accumulator after counting one more record, every sum saturating.
    pub open spec fn recorded(self, res: WorkerInfo) -> WorkerStat {
        WorkerStat {
            objs: sat_add_u64(self.objs, 1),
            data: sat_add_u64(self.data, res.size),
            ttfb: sat_add_u128(self.ttfb, res.ttfb),
            rtt: sat_add_u128(self.rtt, res.rtt),
        }
    }

    /// The all-zero accumulator.
    pub open spec fn zero() -> WorkerStat {
        WorkerStat { objs: 0, data: 0, ttfb: 0, rtt: 0 }
    }

    pub fn new() -> (w: Self)
        ensures
            w == WorkerStat::zero(),
    {
        WorkerStat { objs: 0, data: 0, ttfb: 0, rtt: 0 }
    }

    /// Counts one record into this accumulator.
    pub fn add_result(&mut self, res: &WorkerInfo)
        ensures
            *final(self) == old(self).recorded(*res),
    {
        self.objs = sat_add_u64_exec(self.objs, 1);
        self.data = sat_add_u64_exec(self.data, res.size);
        self.ttfb = sat_add_u128_exec(self.ttfb, res.ttfb);
        self.rtt = sat_add_u128_exec(self.rtt, res.rtt);
    }

    /// Resets every sum to zero.
    pub fn clear(&mut self)
        ensures
            *final(self) == WorkerStat::zero(),
    {
        self.objs = 0;
        self.data = 0;
        self.ttfb = 0;
        self.rtt = 0;
    }

    /// The figures of `serialize_relative`.
    pub open spec fn relative_seq(self) -> Seq<char> {
        dec_seq(self.objs as nat) + " objects, "@ + btoh_seq(self.data) + ", avg ttfb "@
            + dec_seq((self.ttfb / (self.objs as u128)) as nat) + "ms, avg rtt "@
            + dec_seq((self.rtt / (self.objs as u128)) as nat) + "ms"@
    }

    /// Renders the counts and average latencies, for reports that do not care
    /// about elapsed time. Averages need at least one counted object.
    pub fn serialize_relative(&self) -> (s: String)
        requires
            self.objs > 0,
        ensures
            s@ == self.relative_seq(),
    {
        let mut s = u64_string(self.objs);
        s.append(" objects, ");
        let b = bytes_to_human(self.data);
        s.append(b.as_str());
        s.append(", avg ttfb ");
        push_dec_u128(&mut s, self.ttfb / (self.objs as u128));
        s.append("ms, avg rtt ");
        push_dec_u128(&mut s, self.rtt / (self.objs as u128));
        s.append("ms");
        proof {
            assert(s@ =~= self.relative_seq());
        }
        s
    }

    /// The figures of `serialize_absolute`.
    pub open spec fn absolute_seq(self, d: u64) -> Seq<char> {
        dec_seq(self.objs as nat) + " objects, "@ + btoh_seq(self.data) + ", "@ + dec_seq(
            d as nat,
        ) + "s, avg "@ + dec_seq((self.objs / d) as nat) + " objs/s, avg "@ + btoh_seq(
            (self.data / d) as u64,
        ) + "/s"@
    }

    /// Renders the counts and average throughput over `d` elapsed seconds,
    /// which must be positive.
    pub fn serialize_absolute(&self, d: u64) -> (s: String)
        requires
            d > 0,
        ensures
            s@ == self.absolute_seq(d),
    {
        let mut s = u64_string(self.objs);
        s.append(" objects, ");
        let b = bytes_to_human(self.data);
        s.append(b.as_str());
        s.append(", ");
        push_dec_u64(&mut s, d);
        s.append("s, avg ");
        push_dec_u64(&mut s, self.objs / d);
        s.append(" objs/s, avg ");
        let b2 = bytes_to_human(self.data / d);
        s.append(b2.as_str());
        s.append("/s");
        proof {
            assert(s@ =~= self.absolute_seq(d));
        }
        s
    }
}

// ---------------------------------------------------------------------------
// The backend contract and the worker engine.
// ---------------------------------------------------------------------------

/// How a key registry changes when a key is inserted under the queue's
/// capacity rule: appended below capacity, appended after one eviction at
/// capacity, dropped when the capacity is zero.
pub open spec fn inserted(pre: Seq<Seq<char>>, post: Seq<Seq<char>>, k: Seq<char>, cap: usize) -> bool {
    if pre.len() < cap {
        post == pre.push(k)
    } else if cap == 0 {
        post == pre
    } else {
        exists|i: int| 0 <= i < pre.len() && post == pre.remove(i).push(k)
    }
}

/// Whether some key was inserted under the capacity rule.
pub open spec fn inserted_some(pre: Seq<Seq<char>>, post: Seq<Seq<char>>, cap: usize) -> bool {
    exists|k: Seq<char>| inserted(pre, post, k, cap)
}

/// Whether `post` is `pre` with one entry taken out.
pub open spec fn removed_one(pre: Seq<Seq<char>>, post: Seq<Seq<char>>) -> bool {
    exists|i: int| 0 <= i < pre.len() && post == pre.remove(i)
}

/// Builds the payload of one write: exactly `size` bytes, drawn by cycling
/// the pre-generated random template.
pub fn build_payload(template: &Vec<u8>, size: usize) -> (r: Vec<u8>)
    requires
        template@.len() > 0,
    ensures
        r@.len() == size,
        forall|i: int| 0 <= i < size ==> r@[i] == template@[i % (template@.len() as int)],
{
    let n = template.len();
    let mut r: Vec<u8> = Vec::with_capacity(size);
    let mut i: usize = 0;
    while i < size
        invariant
            0 < n == template@.len(),
            i <= size,
            r@.len() == i,
            forall|j: int| 0 <= j < i ==> r@[j] == template@[j % (template@.len() as int)],
        decreases size - i,
    {
        r.push(template[i % n]);
        i += 1;
    }
    r
}

/// A failed delete loses nothing: when the registry holds the same multiset
/// of keys afterwards as before — which `Backend::delete` guarantees on
/// every failure — every key that was retrievable before, the taken one
/// included, is retrievable again.
pub proof fn lemma_requeue_keeps_key(pre: Seq<Seq<char>>, post: Seq<Seq<char>>, k: Seq<char>)
    requires
        pre.to_multiset() == post.to_multiset(),
        pre.contains(k),
    ensures
        post.contains(k),
{
    broadcast use vstd::seq_lib::group_to_multiset_ensures;

    assert(pre.to_multiset().count(k) > 0);
    assert(post.to_multiset().count(k) > 0);
}

/// The contract every storage backend answers to.
///
/// A backend owns its view of the shared key registry (`keys`), a size
/// distribution (`sizes`), and a flag saying whether successful writes feed
/// the registry (`feeds`). Whatever the transport does:
///
/// - a write never skips, reports its drawn size on success, and registers
///   nothing when it fails;
/// - a read samples without removing and skips exactly on an empty registry;
/// - a delete takes one key, skips exactly on an empty registry, and on
///   failure restores the taken key, so the object it names stays eligible
///   for a future attempt.
///
/// The spec functions carry each implementation's abstract state; an
/// implementation that tracks a registry overrides them, and the defaults
/// describe one that tracks nothing.
pub trait Backend: Sized {
    open spec fn inv(&self) -> bool {
        true
    }

    open spec fn keys(&self) -> Seq<Seq<char>> {
        Seq::empty()
    }

    open spec fn sizes(&self) -> Seq<u64> {
        Seq::empty()
    }

    open spec fn feeds(&self) -> bool {
        true
    }

    open spec fn capacity(&self) -> usize {
        0
    }

    fn write(&mut self) -> (r: Result<Option<WorkerInfo>, ChumError>)
        requires
            old(self).inv(),
        ensures
            final(self).inv(),
            final(self).sizes() == old(self).sizes(),
            final(self).feeds() == old(self).feeds(),
            final(self).capacity() == old(self).capacity(),
            !(r matches Ok(None::<WorkerInfo>)),
            r matches Ok(Some(wi)) ==> wi.op == Operation::Write && old(self).sizes().contains(
                wi.size,
            ),
            r matches Ok(Some(wi)) ==> (old(self).feeds() ==> inserted_some(
                old(self).keys(),
                final(self).keys(),
                old(self).capacity(),
            )),
            r matches Ok(Some(wi)) ==> (!old(self).feeds() ==> final(self).keys() == old(
                self,
            ).keys()),
            r is Err ==> final(self).keys() == old(self).keys(),
    ;

    fn read(&mut self) -> (r: Result<Option<WorkerInfo>, ChumError>)
        requires
            old(self).inv(),
        ensures
            final(self).inv(),
            final(self).sizes() == old(self).sizes(),
            final(self).feeds() == old(self).feeds(),
            final(self).capacity() == old(self).capacity(),
            final(self).keys() == old(self).keys(),
            (r matches Ok(None::<WorkerInfo>)) <==> old(self).keys().len() == 0,
            r matches Ok(Some(wi)) ==> wi.op == Operation::Read,
    ;

    fn delete(&mut self) -> (r: Result<Option<WorkerInfo>, ChumError>)
        requires
            old(self).inv(),
        ensures
            final(self).inv(),
            final(self).sizes() == old(self).sizes(),
            final(self).feeds() == old(self).feeds(),
            final(self).capacity() == old(self).capacity(),
            (r matches Ok(None::<WorkerInfo>)) <==> old(self).keys().len() == 0,
            r matches Ok(None::<WorkerInfo>) ==> final(self).keys() == old(self).keys(),
            r matches Ok(Some(wi)) ==> wi.op == Operation::Delete && wi.size == 0
                && removed_one(old(self).keys(), final(self).keys()),
            r is Err ==> final(self).keys().to_multiset() == old(self).keys().to_multiset(),
    ;
}

/// Relies on `uuid::Uuid::new_v4` and its `Display` impl: a fresh v4 UUID
/// renders as 36 hyphenated hexadecimal characters.
#[verifier::external_body]
pub(crate) fn new_object_id() -> (s: String)
    ensures
        s@.len() == 36,
{
    uuid::Uuid::new_v4().to_string()
}

/// An in-memory backend: it keeps the registry and draws sizes like any
/// other backend but moves no bytes, and it can be configured to fail any
/// operation, which makes it the reference implementation of the `Backend`
/// contract and the test double for the engine.
pub struct Mem {
    queue: Queue,
    distr: Vec<u64>,
    read_queue: bool,
    worker_id: u64,
    fail_writes: bool,
    fail_reads: bool,
    fail_deletes: bool,
}

impl Mem {
    /// Whether this backend is configured to fail every write.
    pub closed spec fn fails_writes(&self) -> bool {
        self.fail_writes
    }

    /// Whether this backend is configured to fail every read.
    pub closed spec fn fails_reads(&self) -> bool {
        self.fail_reads
    }

    /// Whether this backend is configured to fail every delete.
    pub closed spec fn fails_deletes(&self) -> bool {
        self.fail_deletes
    }

    /// The worker index stamped on every record this backend reports.
    pub closed spec fn worker_id(&self) -> u64 {
        self.worker_id
    }

    pub fn new(
        queue: Queue,
        distr: Vec<u64>,
        read_queue: bool,
        worker_id: u64,
        fail_writes: bool,
        fail_reads: bool,
        fail_deletes: bool,
    ) -> (m: Mem)
        requires
            distr@.len() > 0,
            queue.wf(),
        ensures
            m.inv(),
            m.keys() == queue@,
            m.sizes() == distr@,
            m.feeds() == read_queue,
            m.capacity() == queue.capacity(),
            m.fails_writes() == fail_writes,
            m.fails_reads() == fail_reads,
            m.fails_deletes() == fail_deletes,
            m.worker_id() == worker_id,
    {
        Mem { queue, distr, read_queue, worker_id, fail_writes, fail_reads, fail_deletes }
    }

    /// The number of keys currently registered.
    pub fn queue_len(&self) -> (n: usize)
        ensures
            n == self.keys().len(),
    {
        self.queue.len()
    }

    /// Samples a key from the registry without removing it.
    pub fn sample(&mut self) -> (r: Option<QueueItem>)
        requires
            old(self).inv(),
        ensures
            *final(self) == *old(self),
            r is Some <==> old(self).keys().len() > 0,
            r matches Some(qi) ==> old(self).keys().contains(qi.obj@),
    {
        self.queue.get()
    }

    /// Takes a key out of the registry.
    pub fn take(&mut self) -> (r: Option<QueueItem>)
        requires
            old(self).inv(),
        ensures
            final(self).inv(),
            r is Some <==> old(self).keys().len() > 0,
            r matches Some(qi) ==> old(self).keys().contains(qi.obj@),
    {
        self.queue.remove()
    }
}

impl Backend for Mem {
    closed spec fn inv(&self) -> bool {
        self.queue.wf() && self.distr@.len() > 0
    }

    closed spec fn keys(&self) -> Seq<Seq<char>> {
        self.queue@
    }

    closed spec fn sizes(&self) -> Seq<u64> {
        self.distr@
    }

    closed spec fn feeds(&self) -> bool {
        self.read_queue
    }

    closed spec fn capacity(&self) -> usize {
        self.queue.capacity()
    }

    fn write(&mut self) -> (r: Result<Option<WorkerInfo>, ChumError>)
        ensures
            r is Err <==> old(self).fails_writes(),
            r matches Ok(Some(wi)) ==> wi.id == old(self).worker_id() && wi.ttfb == 0 && wi.rtt
                == 0,
            final(self).fails_writes() == old(self).fails_writes(),
            final(self).fails_reads() == old(self).fails_reads(),
            final(self).fails_deletes() == old(self).fails_deletes(),
            final(self).worker_id() == old(self).worker_id(),
    {
        if self.fail_writes {
            return Err(ChumError::new("synthetic write failure"));
        }
        let i = rand_index(self.distr.len());
        let size = self.distr[i];
        if self.read_queue {
            let key = new_object_id();
            let ghost kv = key@;
            let ghost pre = self.queue@;
            let ghost cap = self.queue.capacity();
            self.queue.insert(QueueItem { obj: key });
            proof {
                if pre.len() < cap {
                    assert(inserted(pre, self.queue@, kv, cap));
                } else if cap == 0 {
                    assert(inserted(pre, self.queue@, kv, cap));
                } else if self.queue.policy() == crate::queue::QueueMode::Rand {
                    assert(inserted(pre, self.queue@, kv, cap));
                } else {
                    assert(pre.subrange(1, pre.len() as int) =~~= pre.remove(0));
                    assert(self.queue@ == pre.remove(0).push(kv));
                    assert(inserted(pre, self.queue@, kv, cap));
                }
                assert(old(self).keys() == pre);
                assert(old(self).capacity() == cap);
                assert(inserted_some(pre, self.queue@, cap));
            }
        }
        Ok(
            Some(
                WorkerInfo {
                    id: self.worker_id,
                    op: Operation::Write,
                    size,
                    ttfb: 0,
                    rtt: 0,
                },
            ),
        )
    }

    fn read(&mut self) -> (r: Result<Option<WorkerInfo>, ChumError>)
        ensures
            r is Err <==> old(self).keys().len() > 0 && old(self).fails_reads(),
            old(self).keys().len() > 0 && !old(self).fails_reads() ==> (r matches Ok(Some(wi))
                && wi.id == old(self).worker_id() && wi.size == 0 && wi.ttfb == 0 && wi.rtt == 0),
            final(self).fails_writes() == old(self).fails_writes(),
            final(self).fails_reads() == old(self).fails_reads(),
            final(self).fails_deletes() == old(self).fails_deletes(),
            final(self).worker_id() == old(self).worker_id(),
    {
        let sampled = self.queue.get();
        match sampled {
            None => Ok(None),
            Some(_qi) => {
                if self.fail_reads {
                    Err(ChumError::new("synthetic read failure"))
                } else {
                    Ok(
                        Some(
                            WorkerInfo {
                                id: self.worker_id,
                                op: Operation::Read,
                                size: 0,
                                ttfb: 0,
                                rtt: 0,
                            },
                        ),
                    )
                }
            },
        }
    }

    fn delete(&mut self) -> (r: Result<Option<WorkerInfo>, ChumError>)
        ensures
            r is Err <==> old(self).keys().len() > 0 && old(self).fails_deletes(),
            old(self).keys().len() > 0 && !old(self).fails_deletes() ==> (r matches Ok(
                Some(wi),
            ) && wi.id == old(self).worker_id() && wi.ttfb == 0 && wi.rtt == 0),
            final(self).fails_writes() == old(self).fails_writes(),
            final(self).fails_reads() == old(self).fails_reads(),
            final(self).fails_deletes() == old(self).fails_deletes(),
            final(self).worker_id() == old(self).worker_id(),
    {
        let ghost pre = self.queue@;
        let taken = self.queue.remove();
        match taken {
            None => Ok(None),
            Some(qi) => {
                if self.fail_deletes {
                    let ghost kv = qi.obj@;
                    let ghost mid = self.queue@;
                    self.queue.insert(qi);
                    proof {
                        broadcast use vstd::seq_lib::group_to_multiset_ensures;

                        let i = choose|i: int|
                            0 <= i < pre.len() && kv == pre[i] && mid == pre.remove(i);
                        assert(mid.len() < self.queue.capacity());
                        assert(self.queue@ == mid.push(kv));
                        assert(mid.to_multiset() =~= pre.to_multiset().remove(pre[i]));
                        assert(self.queue@.to_multiset() =~= mid.to_multiset().insert(pre[i]));
                        assert(pre.contains(pre[i]));
                        assert(pre.to_multiset().count(pre[i]) > 0);
                        assert(self.queue@.to_multiset() =~= pre.to_multiset());
                    }
                    Err(ChumError::new("synthetic delete failure"))
                } else {
                    proof {
                        let i = choose|i: int|
                            0 <= i < pre.len() && qi.obj@ == pre[i] && self.queue@ == pre.remove(
                                i,
                            );
                        assert(removed_one(pre, self.queue@));
                    }
                    Ok(
                        Some(
                            WorkerInfo {
                                id: self.worker_id,
                                op: Operation::Delete,
                                size: 0,
                                ttfb: 0,
                                rtt: 0,
                            },
                        ),
                    )
                }
            },
        }
    }
}

/// One worker: a backend plus the pre-expanded operation-weight list it
/// draws from, and the pause between operations.
pub struct Worker<B: Backend> {
    backend: B,
    ops: Vec<Operation>,
    pause: u64,
}

impl<B: Backend> Worker<B> {
    /// The worker's backend, abstractly.
    pub closed spec fn backend(&self) -> B {
        self.backend
    }

    /// The operation-weight list, abstractly.
    pub closed spec fn ops(&self) -> Seq<Operation> {
        self.ops@
    }

    /// The configured pause, in milliseconds.
    pub closed spec fn pause_ms(&self) -> u64 {
        self.pause
    }

    /// The worker invariant: a live backend, and a non-empty operation list
    /// that never names the synthetic `Error` kind.
    pub open spec fn inv(&self) -> bool {
        &&& self.backend().inv()
        &&& self.ops().len() > 0
        &&& forall|i: int| 0 <= i < self.ops().len() ==> self.ops()[i] != Operation::Error
    }

    pub fn new(backend: B, ops: Vec<Operation>, pause: u64) -> (w: Worker<B>)
        requires
            backend.inv(),
            ops@.len() > 0,
            forall|i: int| 0 <= i < ops@.len() ==> ops@[i] != Operation::Error,
        ensures
            w.inv(),
            w.backend() == backend,
            w.ops() == ops@,
            w.pause_ms() == pause,
    {
        Worker { backend, ops, pause }
    }

    /// The configured pause between operations, for the caller's sleep.
    pub fn pause(&self) -> (p: u64)
        ensures
            p == self.pause_ms(),
    {
        self.pause
    }

    /// A view of the worker's backend, to inspect what a run left behind.
    pub fn backend_ref(&self) -> (b: &B)
        ensures
            *b == self.backend(),
    {
        &self.backend
    }

    /// Classifies a backend result into what should be published: completed
    /// work and failures are published, a skip publishes nothing.
    pub fn process_result(&self, res: Result<Option<WorkerInfo>, ChumError>) -> (p: Option<
        Result<WorkerInfo, ChumError>,
    >)
        ensures
            res matches Ok(Some(wi)) ==> p == Some(Ok::<WorkerInfo, ChumError>(wi)),
            res matches Ok(None::<WorkerInfo>) ==> p is None,
            res matches Err(e) ==> p == Some(Err::<WorkerInfo, ChumError>(e)),
    {
        match res {
            Ok(Some(wi)) => Some(Ok(wi)),
            Ok(None) => None,
            Err(e) => Some(Err(e)),
        }
    }

    /// One engine iteration: draw an operation uniformly from the weight
    /// list, run it against the backend, and classify the outcome. Publishes
    /// nothing exactly when the operation skipped on an empty registry.
    pub fn step(&mut self) -> (p: Option<Result<WorkerInfo, ChumError>>)
        requires
            old(self).inv(),
        ensures
            final(self).inv(),
            final(self).ops() == old(self).ops(),
            final(self).pause_ms() == old(self).pause_ms(),
            final(self).backend().sizes() == old(self).backend().sizes(),
            final(self).backend().feeds() == old(self).backend().feeds(),
            final(self).backend().capacity() == old(self).backend().capacity(),
            p is None ==> old(self).backend().keys().len() == 0 && final(self).backend().keys()
                == old(self).backend().keys(),
            p matches Some(Err(e)) ==> final(self).backend().keys().to_multiset() == old(
                self,
            ).backend().keys().to_multiset(),
            p matches Some(Ok(wi)) ==> wi.op != Operation::Error,
            p matches Some(Ok(wi)) ==> old(self).ops().contains(wi.op),
            p matches Some(Ok(wi)) ==> (wi.op == Operation::Write ==> old(
                self,
            ).backend().sizes().contains(wi.size)),
            p matches Some(Ok(wi)) ==> (wi.op == Operation::Read ==> final(self).backend().keys()
                == old(self).backend().keys()),
            p matches Some(Ok(wi)) ==> (wi.op == Operation::Delete ==> removed_one(
                old(self).backend().keys(),
                final(self).backend().keys(),
            )),
            p matches Some(Ok(wi)) ==> (wi.op == Operation::Write && !old(self).backend().feeds()
                ==> final(self).backend().keys() == old(self).backend().keys()),
            p matches Some(Ok(wi)) ==> (wi.op == Operation::Write && old(self).backend().feeds()
                ==> inserted_some(
                old(self).backend().keys(),
                final(self).backend().keys(),
                old(self).backend().capacity(),
            )),
    {
        let i = rand_index(self.ops.len());
        let op = self.ops[i];
        proof {
            assert(self.ops@[i as int] == op);
            assert(old(self).ops().contains(op));
        }
        let res = match op {
            Operation::Read => self.backend.read(),
            Operation::Write => self.backend.write(),
            Operation::Delete => self.backend.delete(),
            Operation::Error => unreached(),
        };
        self.process_result(res)
    }
}

} // verus!
