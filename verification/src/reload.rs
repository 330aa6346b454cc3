//! The reload: each process that bears the name of the service is sent the
//! hang-up signal, in the order in which the processes were found, up to the
//! first that cannot be signalled. The signal is sent by `nix`.

use crate::process::{
    distinct_pids, matching_pids, pids_with_name, running_processes, ProcessRecord,
};
use nix::errno::Errno;
use nix::sys::signal::{kill, Signal};
use nix::unistd::Pid;
use vstd::prelude::*;
use vstd::string::StringSliceAdditionalSpecFns;

verus! {

/// The name under which Arti runs, used where no name is given.
pub const ARTI_EXECUTABLE_NAME: &'static str = "arti";

/// Why the system did not deliver a signal.
#[derive(Debug, Clone, Copy, PartialEq, Eq)]
pub enum Refusal {
    /// No process has this id: it has ended.
    NoSuchProcess,
    /// The caller may not signal this process.
    NotPermitted,
    /// Another error of the system, by its number.
    Other(i32),
}

/// Why a process was not signalled.
#[derive(Debug, Clone, Copy, PartialEq, Eq)]
pub enum SignalCause {
    /// The id is none that a signal can be sent to: it is zero, which stands
    /// for a group of processes, or larger than any id of a process.
    PidOutOfRange,
    /// The system refused the signal.
    Refused(Refusal),
}

/// A reload that stopped early. The signals that were delivered stay
/// delivered.
#[derive(Debug, Clone, PartialEq, Eq)]
pub struct SignalFailure {
    /// The processes that were signalled before the failure, in order.
    pub signaled: Vec<u32>,
    /// The process that could not be signalled.
    pub pid: u32,
    /// Why it could not.
    pub cause: SignalCause,
    /// The processes that were not tried any more, in order.
    pub remaining: Vec<u32>,
}

/// Whether the id is that of a single process to which a signal can be
/// sent: it is not zero, which the system takes for the group of the caller,
/// and fits the system's type of ids.
pub open spec fn in_range(pid: u32) -> bool {
    1 <= pid <= i32::MAX
}

/// The bytes of the name under which processes are looked up: those of the
/// name given, or of the name of Arti where none is given.
pub open spec fn service_name(name: Option<&str>) -> Seq<u8> {
    match name {
        Some(given) => given.spec_bytes(),
        None => ARTI_EXECUTABLE_NAME.spec_bytes(),
    }
}

impl SignalFailure {
    /// Whether the failure stands at position `signaled.len()` of `pids`:
    /// what was signalled, the process that failed and what remains are
    /// `pids`, in order.
    pub open spec fn splits(self, pids: Seq<u32>) -> bool {
        self.signaled@ + seq![self.pid] + self.remaining@ == pids
    }

    /// Whether the cause fits the ids: every process that was signalled has
    /// an id in range, and the failure is `PidOutOfRange` exactly where the id
    /// of the failed process is not.
    pub open spec fn is_consistent(self) -> bool {
        &&& forall|i: int| 0 <= i < self.signaled@.len() ==> in_range(#[trigger] self.signaled@[i])
        &&& self.cause is PidOutOfRange <==> !in_range(self.pid)
    }
}

/// Whether `res` may be what comes of signalling `pids`: the full count
/// where every id is in range, or a failure at one of them.
pub open spec fn reports(pids: Seq<u32>, res: Result<usize, SignalFailure>) -> bool {
    match res {
        Ok(count) => count == pids.len() && forall|i: int|
            0 <= i < pids.len() ==> in_range(#[trigger] pids[i]),
        Err(failure) => failure.splits(pids) && failure.is_consistent(),
    }
}

/// `kill` of nix with `Pid::from_raw` and `Signal::SIGHUP`: the hang-up
/// signal is sent to the process `pid`, or the system's refusal is returned.
/// Whether it is delivered depends on the processes that run. Only a
/// positive id stands for a single process, hence the `requires`.
#[verifier::external_body]
fn send_hangup(pid: i32) -> (res: Result<(), Refusal>)
    requires
        pid >= 1,
{
    match kill(Pid::from_raw(pid), Signal::SIGHUP) {
        Ok(()) => Ok(()),
        Err(Errno::ESRCH) => Err(Refusal::NoSuchProcess),
        Err(Errno::EPERM) => Err(Refusal::NotPermitted),
        Err(errno) => Err(Refusal::Other(errno as i32)),
    }
}

/// The id as the system takes it, where it is in range.
pub fn raw_pid(pid: u32) -> (raw: Option<i32>)
    ensures
        raw == if in_range(pid) {
            Some(pid as i32)
        } else {
            None::<i32>
        },
{
    if 1 <= pid && pid <= 0x7fff_ffff {
        Some(pid as i32)
    } else {
        None
    }
}

/// The ids `pids[from..to]`.
fn copy_range(pids: &Vec<u32>, from: usize, to: usize) -> (part: Vec<u32>)
    requires
        from <= to <= pids.len(),
    ensures
        part@ == pids@.subrange(from as int, to as int),
{
    let mut part: Vec<u32> = Vec::new();
    let mut i: usize = from;
    while i < to
        invariant
            from <= i <= to <= pids.len(),
            part@ == pids@.subrange(from as int, i as int),
        decreases to - i,
    {
        part.push(pids[i]);
        i += 1;
    }
    part
}

/// The failure that is reported where the process at `index` of `pids`
/// could not be signalled: those before it were signalled, those after it
/// remain.
pub fn failure_at(pids: &Vec<u32>, index: usize, cause: SignalCause) -> (failure: SignalFailure)
    requires
        index < pids.len(),
    ensures
        failure.signaled@ == pids@.take(index as int),
        failure.pid == pids[index as int],
        failure.cause == cause,
        failure.remaining@ == pids@.skip(index + 1),
        failure.splits(pids@),
{
    let signaled = copy_range(pids, 0, index);
    let remaining = copy_range(pids, index + 1, pids.len());
    let failure = SignalFailure { signaled, pid: pids[index], cause, remaining };
    assert(failure.signaled@ + seq![failure.pid] + failure.remaining@ =~= pids@);
    failure
}

/// What follows the system's answer to the signal for the process at `index`
/// of `pids`: the reload goes on where the signal was delivered, and stops
/// with the failure at that process where it was refused.
pub fn after_signal(pids: &Vec<u32>, index: usize, sent: Result<(), Refusal>) -> (stop: Option<
    SignalFailure,
>)
    requires
        index < pids.len(),
    ensures
        match sent {
            Ok(_) => stop is None,
            Err(refusal) => stop matches Some(failure) && failure.signaled@ == pids@.take(
                index as int,
            ) && failure.pid == pids[index as int] && failure.cause == SignalCause::Refused(refusal)
                && failure.remaining@ == pids@.skip(index + 1) && failure.splits(pids@),
        },
{
    match sent {
        Ok(_) => None,
        Err(refusal) => Some(failure_at(pids, index, SignalCause::Refused(refusal))),
    }
}

/// The name under which processes are looked up: the name given, or the
/// name of Arti where none is given.
pub fn name_or_default<'a>(name: Option<&'a str>) -> (chosen: &'a str)
    ensures
        chosen.spec_bytes() == service_name(name),
        chosen@ == match name {
            Some(given) => given@,
            None => ARTI_EXECUTABLE_NAME@,
        },
{
    match name {
        Some(given) => given,
        None => ARTI_EXECUTABLE_NAME,
    }
}

/// Sends the hang-up signal to each of `pids` in order and stops at the
/// first that cannot be signalled. Returns the number of processes
/// signalled where all were, else the failure with what was signalled before
/// it and what remains. Of no processes, none is signalled.
pub fn signal_each(pids: &Vec<u32>) -> (res: Result<usize, SignalFailure>)
    ensures
        reports(pids@, res),
        pids.len() == 0 ==> res == Ok::<usize, SignalFailure>(0),
{
    let mut i: usize = 0;
    while i < pids.len()
        invariant
            i <= pids.len(),
            forall|j: int| 0 <= j < i ==> in_range(#[trigger] pids@[j]),
        decreases pids.len() - i,
    {
        let stop = match raw_pid(pids[i]) {
            Some(raw) => after_signal(pids, i, send_hangup(raw)),
            None => Some(failure_at(pids, i, SignalCause::PidOutOfRange)),
        };
        if let Some(failure) = stop {
            return Err(failure);
        }
        i += 1;
    }
    Ok(pids.len())
}

/// The reload among the processes `records`: those named `name`, or named as
/// Arti where no name is given, are signalled in the order of `records`, up
/// to the first that cannot be. Where none bears the name, none is signalled
/// and the count is zero.
pub fn reload_among(records: &Vec<ProcessRecord>, name: Option<&str>) -> (res: Result<
    usize,
    SignalFailure,
>)
    ensures
        reports(matching_pids(records@, service_name(name)), res),
        matching_pids(records@, service_name(name)).len() == 0 ==> res == Ok::<
            usize,
            SignalFailure,
        >(0),
{
    let pids = pids_with_name(records, name_or_default(name));
    signal_each(&pids)
}

/// Asks the running processes named `name`, or Arti where no name is given,
/// to reload their configuration: they are looked up once and signalled in
/// the order in which they were found.
pub fn reload_config(name: Option<&str>) -> (res: Result<usize, SignalFailure>)
    ensures
        exists|records: Seq<ProcessRecord>|
            distinct_pids(records) && reports(
                #[trigger] matching_pids(records, service_name(name)),
                res,
            ),
{
    let records = running_processes();
    let res = reload_among(&records, name);
    assert(distinct_pids(records@) && reports(matching_pids(records@, service_name(name)), res));
    res
}

} // verus!
