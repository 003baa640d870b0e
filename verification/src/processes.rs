//! Reading process names from the machine's process table, and sending the
//! signals that stop processes.

use vstd::prelude::*;
use crate::foreign::{kill_process, new_system, process_name, refresh_process, terminate_process};
use crate::text::{chars_of, parse_decimal, parse_unsigned};

verus! {

/// The PID that `s` names, as `str::parse::<usize>` reads it.
pub open spec fn pid_value(s: Seq<char>) -> Option<nat> {
    parse_unsigned(s, usize::MAX as nat)
}

/// Reads a PID string as `str::parse::<usize>` does.
pub fn parse_pid(s: &String) -> (r: Option<usize>)
    ensures
        match r {
            Some(v) => pid_value(s@) == Some(v as nat),
            None => pid_value(s@) is None,
        },
{
    let cs = chars_of(s.as_str());
    assert(cs@.skip(0) == cs@);
    match parse_decimal(&cs, 0, usize::MAX as u64) {
        Some(v) => Some(v as usize),
        None => None,
    }
}

/// The name to show for a process: its name when the table had it, else
/// `Unknown Process`.
pub fn display_name(found: Option<String>) -> (r: String)
    ensures
        r@ == match found {
            Some(name) => name@,
            None => "Unknown Process"@,
        },
{
    match found {
        Some(name) => name,
        None => String::from_str("Unknown Process"),
    }
}

/// The names of the processes with the given PIDs, one per PID and in the same
/// order: the process's name as the machine reports it, `Unknown Process` when
/// there is no such process, and `Invalid PID` for a string that is no PID.
pub fn get_process_names(pids: &[String]) -> (r: Vec<String>)
    ensures
        r.len() == pids.len(),
        forall|i: int|
            0 <= i < pids.len() && pid_value(#[trigger] pids@[i]@) is None ==> r@[i]@
                == "Invalid PID"@,
{
    let mut sys = new_system();
    let mut names: Vec<String> = Vec::new();
    let n = pids.len();
    let mut i: usize = 0;
    while i < n
        invariant
            n == pids.len(),
            i <= n,
            names.len() == i,
            forall|k: int|
                0 <= k < i && pid_value(#[trigger] pids@[k]@) is None ==> names@[k]@
                    == "Invalid PID"@,
        decreases n - i,
    {
        match parse_pid(&pids[i]) {
            Some(pid) => {
                refresh_process(&mut sys, pid);
                names.push(display_name(process_name(&sys, pid)));
            },
            None => {
                names.push(String::from_str("Invalid PID"));
            },
        }
        i = i + 1;
    }
    names
}

/// Reads the process `pid` anew into the table and tells whether it still
/// exists. The answer comes from the machine.
pub fn probe_process(sys: &mut sysinfo::System, pid: usize) -> bool {
    refresh_process(sys, pid);
    process_name(sys, pid).is_some()
}

/// Sends SIGTERM to the process `pid` of the table: whether it was sent, or
/// `None` where the platform has no SIGTERM (or the table lacks the process).
/// The answer comes from the machine.
pub fn send_sigterm(sys: &sysinfo::System, pid: usize) -> Option<bool> {
    sigterm_answer(terminate_process(sys, pid))
}

/// What a SIGTERM attempt amounts to, given what the table lookup and
/// `kill_with` answered: a process missing from the table is treated like a
/// platform without SIGTERM, so that SIGKILL is tried next.
pub fn sigterm_answer(found: Option<Option<bool>>) -> (r: Option<bool>)
    ensures
        r == match found {
            Some(sent) => sent,
            None => None,
        },
{
    match found {
        Some(sent) => sent,
        None => None,
    }
}

/// Sends SIGKILL to the process `pid` of the table: `None` when the table has
/// no such process (it closed on its own), else its name and whether the
/// signal was sent. The answer comes from the machine.
pub fn force_kill(sys: &sysinfo::System, pid: usize) -> Option<(String, bool)> {
    let name = process_name(sys, pid);
    match name {
        Some(_) => kill_answer(name, kill_process(sys, pid)),
        None => None,
    }
}

/// What a SIGKILL attempt amounts to, given the process's name as the table
/// had it and what `kill` answered: `None` when the process was not there,
/// else its name and whether the signal was sent.
pub fn kill_answer(name: Option<String>, killed: Option<bool>) -> (r: Option<(String, bool)>)
    ensures
        match (name, killed) {
            (Some(n), Some(k)) => r matches Some((rn, rk)) && rn@ == n@ && rk == k,
            _ => r is None,
        },
{
    match name {
        Some(n) => match killed {
            Some(k) => Some((n, k)),
            None => None,
        },
        None => None,
    }
}

} // verus!
