//! Process discovery: which running processes bear a given name. The
//! process table is read by `sysinfo`, once for each call, and never kept.

use sysinfo::{ProcessRefreshKind, RefreshKind, System};
use vstd::prelude::*;
use vstd::string::StringSliceAdditionalSpecFns;

verus! {

/// `System` of sysinfo: what was read of the machine. Nothing inside it is
/// seen here, and nothing is claimed of it.
#[verifier::external_type_specification]
#[verifier::external_body]
pub struct ExSystem(System);

/// One process as it was when the process table was read.
#[derive(Debug, Clone, PartialEq, Eq)]
pub struct ProcessRecord {
    /// The process id.
    pub pid: u32,
    /// The process name, in the bytes in which the system gives it.
    pub name: Vec<u8>,
}

/// Whether the process bears exactly the name `name`.
pub open spec fn is_named(record: ProcessRecord, name: Seq<u8>) -> bool {
    record.name@ == name
}

/// The ids of the processes among `records` that bear the name `name`, in
/// the order of `records`.
pub open spec fn matching_pids(records: Seq<ProcessRecord>, name: Seq<u8>) -> Seq<u32> {
    records.filter(|record: ProcessRecord| is_named(record, name)).map_values(
        |record: ProcessRecord| record.pid,
    )
}

/// Whether no process id occurs twice among `records`.
pub open spec fn distinct_pids(records: Seq<ProcessRecord>) -> bool {
    forall|i: int, j: int|
        0 <= i < j < records.len() ==> (#[trigger] records[i]).pid != (#[trigger] records[j]).pid
}

/// `System::new_all` of sysinfo: a view of the system, of which nothing is
/// claimed.
#[verifier::external_body]
fn new_system() -> (system: System) {
    System::new_all()
}

/// `System::refresh_specifics` of sysinfo, for the processes and without
/// their tasks: the process table is read anew.
#[verifier::external_body]
fn refresh_processes(system: &mut System) {
    system.refresh_specifics(
        RefreshKind::default().with_processes(ProcessRefreshKind::everything().without_tasks()),
    );
}

/// `System::processes` of sysinfo, each process with `Pid::as_u32` and
/// `Process::name`: the processes that the view holds, in the order in which
/// its map is walked. Which they are depends on the machine. They are the
/// entries of a map keyed by process id, so that no id occurs twice.
#[verifier::external_body]
fn process_records(system: &System) -> (records: Vec<ProcessRecord>)
    ensures
        distinct_pids(records@),
{
    system.processes().iter().map(
        |(pid, process)|
            ProcessRecord {
                pid: pid.as_u32(),
                name: process.name().as_encoded_bytes().to_vec(),
            },
    ).collect()
}

/// Whether two byte strings are the same.
pub fn same_bytes(a: &[u8], b: &[u8]) -> (same: bool)
    ensures
        same == (a@ == b@),
{
    if a.len() != b.len() {
        return false;
    }
    let mut i: usize = 0;
    while i < a.len()
        invariant
            i <= a.len() == b.len(),
            forall|j: int| 0 <= j < i ==> a@[j] == b@[j],
        decreases a.len() - i,
    {
        if a[i] != b[i] {
            return false;
        }
        i += 1;
    }
    assert(a@ =~= b@);
    true
}

/// The ids of the processes among `records` whose name is exactly `name`,
/// in the order of `records`.
pub fn pids_with_name(records: &Vec<ProcessRecord>, name: &str) -> (pids: Vec<u32>)
    ensures
        pids@ == matching_pids(records@, name.spec_bytes()),
        distinct_pids(records@) ==> pids@.no_duplicates(),
{
    let wanted = name.as_bytes();
    let ghost named = |record: ProcessRecord| is_named(record, name.spec_bytes());
    let ghost pid_of = |record: ProcessRecord| record.pid;
    let mut pids: Vec<u32> = Vec::new();
    let mut i: usize = 0;
    proof {
        reveal(Seq::filter);
        assert(records@.take(0).filter(named) == Seq::<ProcessRecord>::empty());
    }
    while i < records.len()
        invariant
            i <= records.len(),
            wanted@ == name.spec_bytes(),
            named == |record: ProcessRecord| is_named(record, name.spec_bytes()),
            pid_of == |record: ProcessRecord| record.pid,
            pids@ == records@.take(i as int).filter(named).map_values(pid_of),
            forall|j: int|
                0 <= j < pids@.len() ==> exists|k: int|
                    0 <= k < i && (#[trigger] records@[k]).pid == #[trigger] pids@[j],
            distinct_pids(records@) ==> pids@.no_duplicates(),
        decreases records.len() - i,
    {
        let ghost seen = records@.take(i as int);
        proof {
            seen.lemma_filter_push(records@[i as int], named);
            assert(records@.take(i + 1) == seen.push(records@[i as int]));
        }
        if same_bytes(records[i].name.as_slice(), wanted) {
            let ghost before = pids@;
            pids.push(records[i].pid);
            assert forall|j: int| 0 <= j < pids@.len() implies exists|k: int|
                0 <= k < i + 1 && (#[trigger] records@[k]).pid == #[trigger] pids@[j] by {
                if j < before.len() {
                    let k = choose|k: int|
                        0 <= k < i && (#[trigger] records@[k]).pid == before[j];
                    assert(records@[k].pid == pids@[j]);
                } else {
                    assert(records@[i as int].pid == pids@[j]);
                }
            }
            assert(distinct_pids(records@) ==> pids@.no_duplicates()) by {
                if distinct_pids(records@) {
                    assert forall|a: int, b: int|
                        0 <= a < pids@.len() && 0 <= b < pids@.len() && a != b implies pids@[a]
                        != pids@[b] by {
                        let (lo, hi) = if a < b {
                            (a, b)
                        } else {
                            (b, a)
                        };
                        if hi < before.len() {
                            assert(before[lo] != before[hi]);
                        } else {
                            let k = choose|k: int|
                                0 <= k < i && (#[trigger] records@[k]).pid == before[lo];
                            assert(records@[k].pid != records@[i as int].pid);
                        }
                    }
                }
            }
            assert(seen.filter(named).push(records@[i as int]).map_values(pid_of)
                == seen.filter(named).map_values(pid_of).push(records@[i as int].pid));
        }
        i += 1;
    }
    assert(records@.take(i as int) == records@);
    pids
}

/// The processes that run now, as `sysinfo` finds them: each process once.
pub fn running_processes() -> (records: Vec<ProcessRecord>)
    ensures
        distinct_pids(records@),
{
    let mut system = new_system();
    refresh_processes(&mut system);
    process_records(&system)
}

/// The ids of the running processes whose name is exactly `name`, each id
/// once. The process table is read once; a process may start or end right
/// after.
pub fn pids_by_name(name: &str) -> (pids: Vec<u32>)
    ensures
        pids@.no_duplicates(),
        exists|records: Seq<ProcessRecord>|
            distinct_pids(records) && pids@ == matching_pids(records, name.spec_bytes()),
{
    let records = running_processes();
    pids_with_name(&records, name)
}

} // verus!
