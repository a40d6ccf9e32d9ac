//! Raw readings of a metrics source and the snapshots built from them.
//!
//! Percentages are held in hundredths of a percent: `FULL_LOAD` stands for 100%.
use vstd::prelude::*;

verus! {

/// 100% in hundredths of a percent.
pub const FULL_LOAD: u32 = 10000;

/// One process as the metrics source reports it. `name` is `None` when the
/// process's name could not be decoded as text.
pub struct RawProcess {
    pub pid: u32,
    pub name: Option<String>,
    pub cpu: u32,
    pub memory: u64,
}

/// One reading of the metrics source, taken in a single query.
pub struct RawReading {
    pub system_name: Option<String>,
    pub kernel_version: Option<String>,
    pub os_version: Option<String>,
    pub host_name: Option<String>,
    pub memory_usage: u64,
    pub cpu_usage: u32,
    pub processes: Vec<RawProcess>,
}

/// One process entry of a snapshot.
pub struct ProcessSnapshot {
    pub pid: u32,
    pub name: String,
    pub cpu: u32,
    pub memory: u64,
}

/// A point-in-time record of system metrics.
pub struct SystemSnapshot {
    pub system_name: Option<String>,
    pub kernel_version: Option<String>,
    pub os_version: Option<String>,
    pub host_name: Option<String>,
    pub memory_usage: u64,
    pub cpu_usage: u32,
    pub processes: Vec<ProcessSnapshot>,
}

/// What a `RawProcess` holds, with text as character sequences.
pub struct RawProcessModel {
    pub pid: u32,
    pub name: Option<Seq<char>>,
    pub cpu: u32,
    pub memory: u64,
}

/// What a `RawReading` holds, with text as character sequences.
pub struct RawReadingModel {
    pub system_name: Option<Seq<char>>,
    pub kernel_version: Option<Seq<char>>,
    pub os_version: Option<Seq<char>>,
    pub host_name: Option<Seq<char>>,
    pub memory_usage: u64,
    pub cpu_usage: u32,
    pub processes: Seq<RawProcessModel>,
}

/// What a `ProcessSnapshot` holds, with its name as a character sequence.
pub struct ProcessModel {
    pub pid: u32,
    pub name: Seq<char>,
    pub cpu: u32,
    pub memory: u64,
}

/// What a `SystemSnapshot` holds, with text as character sequences.
pub struct SnapshotModel {
    pub system_name: Option<Seq<char>>,
    pub kernel_version: Option<Seq<char>>,
    pub os_version: Option<Seq<char>>,
    pub host_name: Option<Seq<char>>,
    pub memory_usage: u64,
    pub cpu_usage: u32,
    pub processes: Seq<ProcessModel>,
}

/// An optional text as an optional character sequence.
pub open spec fn opt_view(o: Option<String>) -> Option<Seq<char>> {
    match o {
        Some(s) => Some(s@),
        None => None,
    }
}

impl View for RawProcess {
    type V = RawProcessModel;

    open spec fn view(&self) -> RawProcessModel {
        RawProcessModel { pid: self.pid, name: opt_view(self.name), cpu: self.cpu, memory: self.memory }
    }
}

impl View for RawReading {
    type V = RawReadingModel;

    open spec fn view(&self) -> RawReadingModel {
        RawReadingModel {
            system_name: opt_view(self.system_name),
            kernel_version: opt_view(self.kernel_version),
            os_version: opt_view(self.os_version),
            host_name: opt_view(self.host_name),
            memory_usage: self.memory_usage,
            cpu_usage: self.cpu_usage,
            processes: self.processes@.map_values(|p: RawProcess| p@),
        }
    }
}

impl View for ProcessSnapshot {
    type V = ProcessModel;

    open spec fn view(&self) -> ProcessModel {
        ProcessModel { pid: self.pid, name: self.name@, cpu: self.cpu, memory: self.memory }
    }
}

impl View for SystemSnapshot {
    type V = SnapshotModel;

    open spec fn view(&self) -> SnapshotModel {
        SnapshotModel {
            system_name: opt_view(self.system_name),
            kernel_version: opt_view(self.kernel_version),
            os_version: opt_view(self.os_version),
            host_name: opt_view(self.host_name),
            memory_usage: self.memory_usage,
            cpu_usage: self.cpu_usage,
            processes: self.processes@.map_values(|p: ProcessSnapshot| p@),
        }
    }
}

/// The name given to a process whose own name cannot be decoded.
pub open spec fn fallback_name() -> Seq<char> {
    seq!['<', 'u', 'n', 'k', 'n', 'o', 'w', 'n', '>']
}

/// The entry that a raw process becomes: every field kept, an undecodable
/// name replaced by the fallback.
pub open spec fn process_entry(p: RawProcessModel) -> ProcessModel {
    ProcessModel {
        pid: p.pid,
        name: match p.name {
            Some(n) => n,
            None => fallback_name(),
        },
        cpu: p.cpu,
        memory: p.memory,
    }
}

/// The snapshot built from a reading: identity fields, memory and CPU as read,
/// and one entry per process, in the reading's order.
pub open spec fn snapshot_of(r: RawReadingModel) -> SnapshotModel {
    SnapshotModel {
        system_name: r.system_name,
        kernel_version: r.kernel_version,
        os_version: r.os_version,
        host_name: r.host_name,
        memory_usage: r.memory_usage,
        cpu_usage: r.cpu_usage,
        processes: r.processes.map_values(|p: RawProcessModel| process_entry(p)),
    }
}

/// No two processes of a reading share a pid, as in the operating system's
/// process table.
pub open spec fn raw_pids_distinct(ps: Seq<RawProcessModel>) -> bool {
    forall|i: int, j: int| 0 <= i < ps.len() && 0 <= j < ps.len() && i != j ==> ps[i].pid != ps[j].pid
}

/// No two entries of a snapshot share a pid.
pub open spec fn pids_distinct(ps: Seq<ProcessModel>) -> bool {
    forall|i: int, j: int| 0 <= i < ps.len() && 0 <= j < ps.len() && i != j ==> ps[i].pid != ps[j].pid
}

/// A reading that a conforming metrics source gives: overall CPU within [0%, 100%].
pub open spec fn conforming(r: RawReadingModel) -> bool {
    r.cpu_usage <= FULL_LOAD
}

/// Every snapshot built from a conforming reading reports its CPU usage
/// within [0%, 100%].
pub proof fn lemma_cpu_within_full_load(r: RawReadingModel)
    requires
        conforming(r),
    ensures
        0 <= snapshot_of(r).cpu_usage <= FULL_LOAD,
{
}

fn copy_text(o: &Option<String>) -> (r: Option<String>)
    ensures
        opt_view(r) == opt_view(*o),
{
    match o {
        Some(s) => Some(s.clone()),
        None => None,
    }
}

fn fallback_text() -> (r: String)
    ensures
        r@ == fallback_name(),
{
    let s = String::from_str("<unknown>");
    proof {
        reveal_strlit("<unknown>");
        assert(s@ =~= fallback_name());
    }
    s
}

/// Builds the entry of one raw process.
pub fn build_process(p: &RawProcess) -> (r: ProcessSnapshot)
    ensures
        r@ == process_entry(p@),
{
    let name = match &p.name {
        Some(n) => n.clone(),
        None => fallback_text(),
    };
    ProcessSnapshot { pid: p.pid, name, cpu: p.cpu, memory: p.memory }
}

/// Shapes one raw reading into a snapshot. Never fails: a missing identity
/// field stays missing, an undecodable process name gets the fallback.
pub fn build(raw: &RawReading) -> (r: SystemSnapshot)
    ensures
        r@ == snapshot_of(raw@),
        raw.processes.len() == 0 ==> r.processes.len() == 0,
        raw.system_name is None ==> r.system_name is None,
        raw.kernel_version is None ==> r.kernel_version is None,
        raw.os_version is None ==> r.os_version is None,
        raw.host_name is None ==> r.host_name is None,
        conforming(raw@) ==> r.cpu_usage <= FULL_LOAD,
        raw_pids_distinct(raw@.processes) ==> pids_distinct(r@.processes),
{
    let mut processes: Vec<ProcessSnapshot> = Vec::new();
    let mut i: usize = 0;
    while i < raw.processes.len()
        invariant
            i <= raw.processes.len(),
            processes@.len() == i,
            forall|j: int| 0 <= j < i ==> #[trigger] processes@[j]@ == process_entry(raw.processes@[j]@),
        decreases raw.processes.len() - i,
    {
        let entry = build_process(&raw.processes[i]);
        processes.push(entry);
        i = i + 1;
    }
    let r = SystemSnapshot {
        system_name: copy_text(&raw.system_name),
        kernel_version: copy_text(&raw.kernel_version),
        os_version: copy_text(&raw.os_version),
        host_name: copy_text(&raw.host_name),
        memory_usage: raw.memory_usage,
        cpu_usage: raw.cpu_usage,
        processes,
    };
    proof {
        assert(r@.processes =~= snapshot_of(raw@).processes);
        assert forall|i: int| 0 <= i < r@.processes.len() implies #[trigger] r@.processes[i].pid
            == raw@.processes[i].pid by {
            assert(r@.processes[i] == process_entry(raw@.processes[i]));
        }
    }
    r
}

impl SystemSnapshot {
    /// A copy of this snapshot, field for field.
    pub fn copy(&self) -> (r: SystemSnapshot)
        ensures
            r@ == self@,
    {
        let mut processes: Vec<ProcessSnapshot> = Vec::new();
        let mut i: usize = 0;
        while i < self.processes.len()
            invariant
                i <= self.processes.len(),
                processes@.len() == i,
                forall|j: int| 0 <= j < i ==> #[trigger] processes@[j]@ == self.processes@[j]@,
            decreases self.processes.len() - i,
        {
            let p = &self.processes[i];
            processes.push(ProcessSnapshot { pid: p.pid, name: p.name.clone(), cpu: p.cpu, memory: p.memory });
            i = i + 1;
        }
        let r = SystemSnapshot {
            system_name: copy_text(&self.system_name),
            kernel_version: copy_text(&self.kernel_version),
            os_version: copy_text(&self.os_version),
            host_name: copy_text(&self.host_name),
            memory_usage: self.memory_usage,
            cpu_usage: self.cpu_usage,
            processes,
        };
        proof {
            assert(r@.processes =~= self@.processes);
        }
        r
    }
}

} // verus!
