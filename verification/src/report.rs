//! What portcull prints and which status it exits with, at each point where
//! it can stop.

use vstd::prelude::*;
use crate::kill::KillOutcome;
use crate::lookup::Platform;
use crate::text::string_views;

verus! {

/// Exit status when no process was found on the ports.
pub const EXIT_NOT_FOUND: u8 = 1;

/// Exit status when the user declined at the confirmation prompt.
pub const EXIT_CANCELLED: u8 = 3;

/// Exit status when a process could not be killed.
pub const EXIT_KILL_FAILED: u8 = 4;

/// Exit status when the ports could not be looked up.
pub const EXIT_LOOKUP_FAILED: u8 = 5;

/// Lines for standard output and for standard error, and the status to exit with.
pub struct Report {
    pub stdout: Vec<String>,
    pub stderr: Vec<String>,
    pub exit_code: u8,
}

pub open spec fn nothing_found_line() -> Seq<char> {
    "No active processes found on provided ports; exiting."@
}

pub open spec fn privilege_hint_line() -> Seq<char> {
    "Hint: without root, lsof only sees your own processes. If you expected something here, try sudo."@
}

/// The status a finished kill session exits with: 0 when every process was
/// killed, 3 when cancelled, 4 when a kill failed.
pub open spec fn kill_exit_code(outcome: KillOutcome) -> u8 {
    match outcome {
        KillOutcome::Killed => 0,
        KillOutcome::Cancelled => EXIT_CANCELLED,
        KillOutcome::Failed => EXIT_KILL_FAILED,
    }
}

/// The status a finished kill session exits with.
pub fn exit_code(outcome: KillOutcome) -> (r: u8)
    ensures
        r == kill_exit_code(outcome),
{
    match outcome {
        KillOutcome::Killed => 0,
        KillOutcome::Cancelled => EXIT_CANCELLED,
        KillOutcome::Failed => EXIT_KILL_FAILED,
    }
}

/// Where the lookup's result ends the run: a failed lookup is reported with
/// status 5; no process found ends with status 1 (and, where `lsof` looked, a
/// hint that it sees only the user's own processes without root). `None` when
/// processes were found and the run goes on.
pub fn lookup_report(platform: &Platform, lookup: &Result<Vec<String>, String>) -> (r: Option<
    Report,
>)
    ensures
        match lookup {
            Err(msg) => r matches Some(rep) && rep.exit_code == EXIT_LOOKUP_FAILED && string_views(
                rep.stdout@,
            ) == Seq::<Seq<char>>::empty() && string_views(rep.stderr@) == seq![
                "Error: "@ + msg@,
            ],
            Ok(pids) => if pids.len() == 0 {
                r matches Some(rep) && rep.exit_code == EXIT_NOT_FOUND && string_views(rep.stdout@)
                    == seq![nothing_found_line()] && string_views(rep.stderr@) == (
                match platform {
                    Platform::Unix => seq![privilege_hint_line()],
                    Platform::Windows => Seq::<Seq<char>>::empty(),
                })
            } else {
                r is None
            },
        },
{
    match lookup {
        Err(msg) => {
            let mut line = String::from_str("Error: ");
            line.append(msg.as_str());
            let mut stderr: Vec<String> = Vec::new();
            stderr.push(line);
            let stdout: Vec<String> = Vec::new();
            assert(string_views(stderr@) =~= seq!["Error: "@ + msg@]);
            assert(string_views(stdout@) =~= Seq::<Seq<char>>::empty());
            Some(Report { stdout, stderr, exit_code: EXIT_LOOKUP_FAILED })
        },
        Ok(pids) => {
            if pids.len() == 0 {
                let mut stdout: Vec<String> = Vec::new();
                stdout.push(
                    String::from_str("No active processes found on provided ports; exiting."),
                );
                let mut stderr: Vec<String> = Vec::new();
                match platform {
                    Platform::Unix => {
                        stderr.push(
                            String::from_str(
                                "Hint: without root, lsof only sees your own processes. If you expected something here, try sudo.",
                            ),
                        );
                    },
                    Platform::Windows => {},
                }
                assert(string_views(stdout@) =~= seq![nothing_found_line()]);
                assert(string_views(stderr@) =~= (match platform {
                    Platform::Unix => seq![privilege_hint_line()],
                    Platform::Windows => Seq::<Seq<char>>::empty(),
                }));
                Some(Report { stdout, stderr, exit_code: EXIT_NOT_FOUND })
            } else {
                None
            }
        },
    }
}

/// The line that shows one process found on the ports.
pub open spec fn process_line(pid: Seq<char>, name: Seq<char>) -> Seq<char> {
    "PID: "@ + pid + " | Name: "@ + name
}

/// The listing of `--query`: a heading, then one line per PID and name, taken
/// in pairs; it exits with status 0.
pub fn query_report(pids: &[String], names: &[String]) -> (r: Report)
    ensures
        r.exit_code == 0,
        string_views(r.stderr@) == Seq::<Seq<char>>::empty(),
        r.stdout.len() == 1 + if pids.len() <= names.len() {
            pids.len()
        } else {
            names.len()
        },
        r.stdout@[0]@ == "Active processes found:"@,
        forall|i: int|
            1 <= i < r.stdout.len() ==> #[trigger] r.stdout@[i]@ == process_line(
                pids@[i - 1]@,
                names@[i - 1]@,
            ),
{
    let mut stdout: Vec<String> = Vec::new();
    stdout.push(String::from_str("Active processes found:"));
    let n = if pids.len() <= names.len() {
        pids.len()
    } else {
        names.len()
    };
    let mut i: usize = 0;
    while i < n
        invariant
            n <= pids.len(),
            n <= names.len(),
            i <= n,
            stdout.len() == 1 + i,
            stdout@[0]@ == "Active processes found:"@,
            forall|k: int|
                1 <= k < stdout.len() ==> #[trigger] stdout@[k]@ == process_line(
                    pids@[k - 1]@,
                    names@[k - 1]@,
                ),
        decreases n - i,
    {
        let mut line = String::from_str("PID: ");
        line.append(pids[i].as_str());
        line.append(" | Name: ");
        line.append(names[i].as_str());
        stdout.push(line);
        i = i + 1;
    }
    let stderr: Vec<String> = Vec::new();
    assert(string_views(stderr@) =~= Seq::<Seq<char>>::empty());
    Report { stdout, stderr, exit_code: 0 }
}

} // verus!
