//! The statistics collector: three aggregation tiers keyed by operation,
//! data-cap evaluation, and the report renderers.
//!
//! A single consumer drains worker outcomes on a timer and records each into
//! a per-worker-per-interval tier, a per-interval tier, and a lifetime tier.
//! The two interval tiers are reset after every report; the lifetime tier
//! never is. Cumulative write bytes are tracked separately: once they meet a
//! configured cap the collector declares the run finished, which is the sole
//! normal termination path of the whole system.

use vstd::prelude::*;

use crate::textfmt::{dec_seq, push_dec_u128, push_dec_u64, u64_string};
use crate::utils::{ChumError, OutputFormat};
use crate::worker::{
    op_label, sat_add_u64, sat_add_u64_exec, Operation, WorkerInfo, WorkerStat,
};

verus! {

/// One accumulator per operation kind.
#[derive(Clone, Copy, Debug, PartialEq, Eq, Structural)]
pub struct OpTable {
    pub read: WorkerStat,
    pub write: WorkerStat,
    pub delete: WorkerStat,
    pub error: WorkerStat,
}

impl OpTable {
    /// The bucket of one operation kind.
    pub open spec fn get(self, op: Operation) -> WorkerStat {
        match op {
            Operation::Read => self.read,
            Operation::Write => self.write,
            Operation::Delete => self.delete,
            Operation::Error => self.error,
        }
    }

    /// The table with every bucket zero.
    pub open spec fn zero() -> OpTable {
        OpTable {
            read: WorkerStat::zero(),
            write: WorkerStat::zero(),
            delete: WorkerStat::zero(),
            error: WorkerStat::zero(),
        }
    }

    /// The table after counting one record into its operation's bucket.
    pub open spec fn recorded(self, wi: WorkerInfo) -> OpTable {
        match wi.op {
            Operation::Read => OpTable { read: self.read.recorded(wi), ..self },
            Operation::Write => OpTable { write: self.write.recorded(wi), ..self },
            Operation::Delete => OpTable { delete: self.delete.recorded(wi), ..self },
            Operation::Error => OpTable { error: self.error.recorded(wi), ..self },
        }
    }

    pub fn new() -> (t: OpTable)
        ensures
            t == OpTable::zero(),
    {
        OpTable {
            read: WorkerStat::new(),
            write: WorkerStat::new(),
            delete: WorkerStat::new(),
            error: WorkerStat::new(),
        }
    }

    /// Counts one record into the bucket of its operation.
    pub fn add(&mut self, wi: &WorkerInfo)
        ensures
            *final(self) == old(self).recorded(*wi),
    {
        match wi.op {
            Operation::Read => self.read.add_result(wi),
            Operation::Write => self.write.add_result(wi),
            Operation::Delete => self.delete.add_result(wi),
            Operation::Error => self.error.add_result(wi),
        }
    }

    /// Zeroes every bucket.
    pub fn clear(&mut self)
        ensures
            *final(self) == OpTable::zero(),
    {
        self.read.clear();
        self.write.clear();
        self.delete.clear();
        self.error.clear();
    }
}

/// The record that stands in for a failure: the synthetic error operation
/// with no bytes and no latencies.
pub open spec fn err_info() -> WorkerInfo {
    WorkerInfo { id: 0, op: Operation::Error, size: 0, ttfb: 0, rtt: 0 }
}

/// The statistics collector's whole state: the three tiers, the cumulative
/// write volume, and the configured data cap (zero meaning unbounded).
pub struct StatsCollector {
    thread_stats: Vec<OpTable>,
    tick: OpTable,
    agg: OpTable,
    total_bytes_written: u64,
    data_cap: u64,
}

impl StatsCollector {
    /// The per-worker per-interval tier, one table per worker index.
    pub closed spec fn threads(&self) -> Seq<OpTable> {
        self.thread_stats@
    }

    /// The per-interval tier.
    pub closed spec fn tick(&self) -> OpTable {
        self.tick
    }

    /// The lifetime tier, never reset.
    pub closed spec fn agg(&self) -> OpTable {
        self.agg
    }

    /// Cumulative bytes successfully written over the whole run.
    pub closed spec fn total_written(&self) -> u64 {
        self.total_bytes_written
    }

    /// The configured cap on cumulative write bytes; zero means unbounded.
    pub closed spec fn cap(&self) -> u64 {
        self.data_cap
    }

    pub fn new(nworkers: usize, data_cap: u64) -> (c: StatsCollector)
        ensures
            c.threads().len() == nworkers,
            forall|i: int| 0 <= i < nworkers ==> c.threads()[i] == OpTable::zero(),
            c.tick() == OpTable::zero(),
            c.agg() == OpTable::zero(),
            c.total_written() == 0,
            c.cap() == data_cap,
    {
        let mut thread_stats: Vec<OpTable> = Vec::new();
        let mut i: usize = 0;
        while i < nworkers
            invariant
                i <= nworkers,
                thread_stats@.len() == i,
                forall|j: int| 0 <= j < i ==> thread_stats@[j] == OpTable::zero(),
            decreases nworkers - i,
        {
            thread_stats.push(OpTable::new());
            i += 1;
        }
        StatsCollector {
            thread_stats,
            tick: OpTable::new(),
            agg: OpTable::new(),
            total_bytes_written: 0,
            data_cap,
        }
    }

    /// Records one drained outcome into all three tiers. A success lands in
    /// its operation's buckets — and, when the worker index is known to the
    /// per-worker tier, in that worker's row; a write additionally grows the
    /// cumulative write volume, which never shrinks. A failure is counted
    /// under the synthetic error kind in the two shared tiers.
    pub fn record(&mut self, res: Result<WorkerInfo, ChumError>)
        ensures
            final(self).cap() == old(self).cap(),
            final(self).threads().len() == old(self).threads().len(),
            final(self).total_written() >= old(self).total_written(),
            res matches Ok(wi) ==> {
                &&& final(self).tick() == old(self).tick().recorded(wi)
                &&& final(self).agg() == old(self).agg().recorded(wi)
                &&& wi.id < old(self).threads().len() ==> final(self).threads() == old(
                    self,
                ).threads().update(wi.id as int, old(self).threads()[wi.id as int].recorded(wi))
                &&& wi.id >= old(self).threads().len() ==> final(self).threads() == old(
                    self,
                ).threads()
                &&& wi.op == Operation::Write ==> final(self).total_written() == sat_add_u64(
                    old(self).total_written(),
                    wi.size,
                )
                &&& wi.op != Operation::Write ==> final(self).total_written() == old(
                    self,
                ).total_written()
            },
            res is Err ==> {
                &&& final(self).tick() == old(self).tick().recorded(err_info())
                &&& final(self).agg() == old(self).agg().recorded(err_info())
                &&& final(self).threads() == old(self).threads()
                &&& final(self).total_written() == old(self).total_written()
            },
    {
        match res {
            Ok(wi) => {
                self.tick.add(&wi);
                self.agg.add(&wi);
                if wi.id < self.thread_stats.len() as u64 {
                    let idx = wi.id as usize;
                    let t = vstd::std_specs::vec::vec_index_mut(&mut self.thread_stats, idx);
                    t.add(&wi);
                }
                if wi.op == Operation::Write {
                    self.total_bytes_written = sat_add_u64_exec(self.total_bytes_written, wi.size);
                }
            },
            Err(_e) => {
                let ei = WorkerInfo { id: 0, op: Operation::Error, size: 0, ttfb: 0, rtt: 0 };
                self.tick.add(&ei);
                self.agg.add(&ei);
            },
        }
    }

    /// Resets the two interval tiers; the lifetime tier and the write volume
    /// stay.
    pub fn reset_tick(&mut self)
        ensures
            final(self).tick() == OpTable::zero(),
            final(self).threads().len() == old(self).threads().len(),
            forall|i: int|
                0 <= i < final(self).threads().len() ==> final(self).threads()[i]
                    == OpTable::zero(),
            final(self).agg() == old(self).agg(),
            final(self).total_written() == old(self).total_written(),
            final(self).cap() == old(self).cap(),
    {
        self.tick.clear();
        let n = self.thread_stats.len();
        let mut i: usize = 0;
        while i < n
            invariant
                i <= n,
                n == self.thread_stats@.len(),
                forall|j: int| 0 <= j < i ==> self.thread_stats@[j] == OpTable::zero(),
                self.tick == OpTable::zero(),
                self.agg == old(self).agg,
                self.total_bytes_written == old(self).total_bytes_written,
                self.data_cap == old(self).data_cap,
            decreases n - i,
        {
            let t = vstd::std_specs::vec::vec_index_mut(&mut self.thread_stats, i);
            t.clear();
            i += 1;
        }
    }

    /// Whether a data cap is configured and the cumulative write volume has
    /// met or exceeded it: exactly then the collector ends the run.
    pub fn cap_reached(&self) -> (r: bool)
        ensures
            r == (self.cap() > 0 && self.total_written() >= self.cap()),
    {
        self.data_cap > 0 && self.total_bytes_written >= self.data_cap
    }

    /// Renders the interval's figures as one space-separated line: timestamp,
    /// read and write object counts, read and write bytes, read and write
    /// average time-to-first-byte, read and write average round-trip time,
    /// and the error count.
    pub fn render_tabular(&self, ts: u64) -> (s: String)
        ensures
            s@ == tabular_seq(self.tick(), ts),
    {
        let t = &self.tick;
        let mut s = u64_string(ts);
        s.append(" ");
        push_dec_u64(&mut s, t.read.objs);
        s.append(" ");
        push_dec_u64(&mut s, t.write.objs);
        s.append(" ");
        push_dec_u64(&mut s, t.read.data);
        s.append(" ");
        push_dec_u64(&mut s, t.write.data);
        s.append(" ");
        push_dec_u128(&mut s, avg_exec(t.read.ttfb, t.read.objs));
        s.append(" ");
        push_dec_u128(&mut s, avg_exec(t.write.ttfb, t.write.objs));
        s.append(" ");
        push_dec_u128(&mut s, avg_exec(t.read.rtt, t.read.objs));
        s.append(" ");
        push_dec_u128(&mut s, avg_exec(t.write.rtt, t.write.objs));
        s.append(" ");
        push_dec_u64(&mut s, t.error.objs);
        proof {
            assert(s@ =~= tabular_seq(self.tick(), ts));
        }
        s
    }

    /// Renders the human-readable report: per-worker figures first when the
    /// format is verbose, then the interval's figures, then the lifetime
    /// figures over `elapsed` seconds of run time.
    pub fn render_human(&self, format: &OutputFormat, elapsed: u64) -> (s: String)
        requires
            elapsed > 0,
        ensures
            s@ == human_seq(
                self.threads(),
                self.tick(),
                self.agg(),
                *format == OutputFormat::HumanVerbose,
                elapsed,
            ),
    {
        let verbose = match format {
            OutputFormat::HumanVerbose => true,
            _ => false,
        };
        let mut s = String::new();
        s.append("---\n");
        if verbose {
            let sec_r = thread_section_exec(Operation::Read, &self.thread_stats);
            s.append(sec_r.as_str());
            let sec_w = thread_section_exec(Operation::Write, &self.thread_stats);
            s.append(sec_w.as_str());
            let sec_d = thread_section_exec(Operation::Delete, &self.thread_stats);
            s.append(sec_d.as_str());
            let sec_e = thread_section_exec(Operation::Error, &self.thread_stats);
            s.append(sec_e.as_str());
        }
        let t1 = tick_line_exec(Operation::Read, &self.tick.read);
        s.append(t1.as_str());
        let t2 = tick_line_exec(Operation::Write, &self.tick.write);
        s.append(t2.as_str());
        let t3 = tick_line_exec(Operation::Delete, &self.tick.delete);
        s.append(t3.as_str());
        let t4 = tick_line_exec(Operation::Error, &self.tick.error);
        s.append(t4.as_str());
        let a1 = total_line_exec(Operation::Read, &self.agg.read, elapsed);
        s.append(a1.as_str());
        let a2 = total_line_exec(Operation::Write, &self.agg.write, elapsed);
        s.append(a2.as_str());
        let a3 = total_line_exec(Operation::Delete, &self.agg.delete, elapsed);
        s.append(a3.as_str());
        let a4 = total_line_exec(Operation::Error, &self.agg.error, elapsed);
        s.append(a4.as_str());
        proof {
            assert(s@ =~= human_seq(
                self.threads(),
                self.tick(),
                self.agg(),
                *format == OutputFormat::HumanVerbose,
                elapsed,
            ));
        }
        s
    }
}

/// A latency average: the sum over the count, or zero where nothing was
/// counted, so a quiet interval reports zero instead of dividing by zero.
pub open spec fn avg_of(sum: u128, count: u64) -> u128 {
    if count == 0 {
        0
    } else {
        (sum / (count as u128)) as u128
    }
}

fn avg_exec(sum: u128, count: u64) -> (r: u128)
    ensures
        r == avg_of(sum, count),
{
    if count == 0 {
        0
    } else {
        sum / (count as u128)
    }
}

/// The tabular line of one interval.
pub open spec fn tabular_seq(t: OpTable, ts: u64) -> Seq<char> {
    dec_seq(ts as nat) + " "@ + dec_seq(t.read.objs as nat) + " "@ + dec_seq(
        t.write.objs as nat,
    ) + " "@ + dec_seq(t.read.data as nat) + " "@ + dec_seq(t.write.data as nat) + " "@ + dec_seq(
        avg_of(t.read.ttfb, t.read.objs) as nat,
    ) + " "@ + dec_seq(avg_of(t.write.ttfb, t.write.objs) as nat) + " "@ + dec_seq(
        avg_of(t.read.rtt, t.read.objs) as nat,
    ) + " "@ + dec_seq(avg_of(t.write.rtt, t.write.objs) as nat) + " "@ + dec_seq(
        t.error.objs as nat,
    )
}

/// One interval line of the human report: the figures of one operation, or
/// an explicit no-activity notice.
pub open spec fn tick_line(op: Operation, st: WorkerStat) -> Seq<char> {
    "Tick ("@ + op_label(op) + ")"@ + (if st.objs == 0 {
        "No activity this tick\n"@
    } else if op == Operation::Error {
        "\t"@ + dec_seq(st.objs as nat) + " errors\n"@
    } else {
        "\t"@ + st.relative_seq() + "\n"@
    })
}

fn tick_line_exec(op: Operation, st: &WorkerStat) -> (s: String)
    ensures
        s@ == tick_line(op, *st),
{
    let mut s = String::new();
    s.append("Tick (");
    s.append(op.label());
    s.append(")");
    if st.objs == 0 {
        s.append("No activity this tick\n");
    } else if op == Operation::Error {
        s.append("\t");
        push_dec_u64(&mut s, st.objs);
        s.append(" errors\n");
    } else {
        s.append("\t");
        let r = st.serialize_relative();
        s.append(r.as_str());
        s.append("\n");
    }
    proof {
        assert(s@ =~= tick_line(op, *st));
    }
    s
}

/// One lifetime line of the human report.
pub open spec fn total_line(op: Operation, st: WorkerStat, d: u64) -> Seq<char> {
    "Total ("@ + op_label(op) + ")"@ + (if st.objs == 0 {
        "No activity this tick\n"@
    } else if op == Operation::Error {
        "\t"@ + dec_seq(st.objs as nat) + " errors\n"@
    } else {
        "\t"@ + st.absolute_seq(d) + "\n"@
    })
}

fn total_line_exec(op: Operation, st: &WorkerStat, d: u64) -> (s: String)
    requires
        d > 0,
    ensures
        s@ == total_line(op, *st, d),
{
    let mut s = String::new();
    s.append("Total (");
    s.append(op.label());
    s.append(")");
    if st.objs == 0 {
        s.append("No activity this tick\n");
    } else if op == Operation::Error {
        s.append("\t");
        push_dec_u64(&mut s, st.objs);
        s.append(" errors\n");
    } else {
        s.append("\t");
        let r = st.serialize_absolute(d);
        s.append(r.as_str());
        s.append("\n");
    }
    proof {
        assert(s@ =~= total_line(op, *st, d));
    }
    s
}

/// The per-worker line of one worker's interval figures; empty when that
/// worker had no activity for the operation.
pub open spec fn thread_line(op: Operation, t: OpTable, i: int) -> Seq<char> {
    if t.get(op).objs == 0 {
        Seq::empty()
    } else if op == Operation::Error {
        "\t"@ + dec_seq(i as nat) + ": "@ + dec_seq(t.get(op).objs as nat) + " errors\n"@
    } else {
        "\t"@ + dec_seq(i as nat) + ": "@ + t.get(op).relative_seq() + "\n"@
    }
}

/// The per-worker lines of the first `n` workers.
pub open spec fn thread_lines(op: Operation, stats: Seq<OpTable>, n: int) -> Seq<char>
    decreases n,
{
    if n <= 0 {
        Seq::empty()
    } else {
        thread_lines(op, stats, n - 1) + thread_line(op, stats[n - 1], n - 1)
    }
}

/// The verbose per-worker section of one operation.
pub open spec fn thread_section(op: Operation, stats: Seq<OpTable>) -> Seq<char> {
    "Thread ("@ + op_label(op) + ")\n"@ + thread_lines(op, stats, stats.len() as int)
}

fn thread_section_exec(op: Operation, stats: &Vec<OpTable>) -> (s: String)
    ensures
        s@ == thread_section(op, stats@),
{
    let mut s = String::new();
    s.append("Thread (");
    s.append(op.label());
    s.append(")\n");
    let ghost head = s@;
    let mut i: usize = 0;
    while i < stats.len()
        invariant
            i <= stats@.len(),
            head == "Thread ("@ + op_label(op) + ")\n"@,
            s@ == head + thread_lines(op, stats@, i as int),
        decreases stats@.len() - i,
    {
        let t = &stats[i];
        let st = match op {
            Operation::Read => &t.read,
            Operation::Write => &t.write,
            Operation::Delete => &t.delete,
            Operation::Error => &t.error,
        };
        if st.objs > 0 {
            s.append("\t");
            push_dec_u64(&mut s, i as u64);
            s.append(": ");
            if matches!(op, Operation::Error) {
                push_dec_u64(&mut s, st.objs);
                s.append(" errors\n");
            } else {
                let r = st.serialize_relative();
                s.append(r.as_str());
                s.append("\n");
            }
        }
        proof {
            assert(s@ =~= head + thread_lines(op, stats@, i + 1));
        }
        i += 1;
    }
    proof {
        assert(s@ =~= thread_section(op, stats@));
    }
    s
}

/// The whole human report: a separator, the verbose per-worker sections when
/// asked for, the interval lines, and the lifetime lines.
pub open spec fn human_seq(
    threads: Seq<OpTable>,
    tick: OpTable,
    agg: OpTable,
    verbose: bool,
    d: u64,
) -> Seq<char> {
    "---\n"@ + (if verbose {
        thread_section(Operation::Read, threads) + thread_section(Operation::Write, threads)
            + thread_section(Operation::Delete, threads) + thread_section(
            Operation::Error,
            threads,
        )
    } else {
        Seq::empty()
    }) + tick_line(Operation::Read, tick.read) + tick_line(Operation::Write, tick.write)
        + tick_line(Operation::Delete, tick.delete) + tick_line(Operation::Error, tick.error)
        + total_line(Operation::Read, agg.read, d) + total_line(Operation::Write, agg.write, d)
        + total_line(Operation::Delete, agg.delete, d) + total_line(
        Operation::Error,
        agg.error,
        d,
    )
}

} // verus!
