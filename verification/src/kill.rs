//! The decisions of killing the processes found on the ports, as a state
//! machine: the caller performs each request (asking the user, probing or
//! signalling a process, starting a clock, sleeping) and hands back what came
//! of it; the session decides what to print and what to do next.

use vstd::prelude::*;
use crate::args::Args;
use crate::foreign::{debug_list, debug_strings, lowercase, pid_label, to_lowercase};
use crate::processes::{parse_pid, pid_value};
use crate::text::{
    chars_of, decimal, decimal_string, find_substring, has_substring, same_chars, string_between,
    string_views, trim, trim_bounds,
};

verus! {

/// Seconds to wait for a graceful exit when no timeout is given.
pub const DEFAULT_GRACEFUL_TIMEOUT_SECONDS: u64 = 3;

/// Milliseconds between two looks at a process that was asked to exit.
pub const PROCESS_CHECK_INTERVAL_MS: u64 = 100;

/// How a kill session ended.
#[derive(Clone, Copy, Debug, PartialEq, Eq, Structural)]
pub enum KillOutcome {
    /// Every process was killed, or had already exited.
    Killed,
    /// The user declined at the confirmation prompt.
    Cancelled,
    /// At least one process could not be killed.
    Failed,
}

/// Where a kill session stands: what it waits to hear about.
#[derive(Clone, Copy, Debug, PartialEq, Eq, Structural)]
pub enum Phase {
    /// The user's answer to the confirmation prompt.
    Confirming,
    /// Whether the current process still exists.
    Probing,
    /// Whether SIGTERM reached the current process.
    Terminating,
    /// That the clock for the graceful exit has started.
    StartingClock,
    /// Whether the current process is still there, and how long it has been given.
    Watching,
    /// That the pause between two looks is over.
    Sleeping,
    /// Whether SIGKILL reached the current process.
    ForceKilling,
    /// Nothing: the session is over.
    Done(KillOutcome),
}

/// What came of the last request.
pub enum Event {
    /// Whether the user confirmed the kill.
    Answer(bool),
    /// Whether the process still exists after reading it anew.
    Present(bool),
    /// What sending SIGTERM gave: sent, not sent, or `None` where the platform
    /// has no SIGTERM.
    TermSent(Option<bool>),
    /// The clock has started.
    ClockStarted,
    /// Whether the process still exists, and the milliseconds since the clock started.
    Watched { present: bool, elapsed_ms: u128 },
    /// The pause is over.
    Slept,
    /// What sending SIGKILL gave: `None` when the process was gone, else the
    /// process's name and whether the signal was sent.
    ForceKilled(Option<(String, bool)>),
}

/// What the caller is to do next.
pub enum Request {
    /// Print the prompt, read a line, and answer with `Event::Answer`.
    Confirm(String),
    /// Read the process anew and tell whether it exists (`Event::Present`).
    Probe(usize),
    /// Send SIGTERM to the process (`Event::TermSent`).
    Terminate(usize),
    /// Start a clock (`Event::ClockStarted`).
    StartClock,
    /// Read the process anew; tell whether it exists and the time on the clock (`Event::Watched`).
    Watch(usize),
    /// Sleep this many milliseconds (`Event::Slept`).
    Sleep(u64),
    /// Send SIGKILL to the process (`Event::ForceKilled`).
    ForceKill(usize),
    /// Stop: the session ended so.
    Finish(KillOutcome),
}

/// The lines to print, then the next request.
pub struct Step {
    pub output: Vec<String>,
    pub request: Request,
}

/// A session that kills the processes `pids`, named `names`, one after the other.
pub struct KillSession {
    pub pids: Vec<String>,
    pub names: Vec<String>,
    /// No confirmation prompt.
    pub quiet: bool,
    /// SIGTERM first, SIGKILL only after the timeout.
    pub graceful: bool,
    /// Seconds to wait for a graceful exit.
    pub timeout_secs: u64,
    /// Where to look for the next process.
    pub next: usize,
    /// The position of the current process.
    pub current: usize,
    /// The current process's PID.
    pub pid: usize,
    /// How the current PID is printed.
    pub label: String,
    /// Whether no kill has failed so far.
    pub all_killed: bool,
    pub phase: Phase,
}

pub open spec fn killing_line() -> Seq<char> {
    "Killing processes!"@
}

pub open spec fn canceled_line() -> Seq<char> {
    "Canceled."@
}

/// The lines printed when a process named like Ollama is among those to kill.
pub open spec fn ollama_warning() -> Seq<Seq<char>> {
    seq![
        "Ollama was detected in your list of processes to kill."@,
        "Killing Ollama will NOT work because it will start the server again."@,
        "Will try to kill Ollama anyway, but it is probably going to fail.\n"@,
    ]
}

/// Whether some name contains `ollama`, in any case.
pub open spec fn ollama_named(names: Seq<String>) -> bool {
    exists|i: int| 0 <= i < names.len() && has_substring(lowercase(#[trigger] names[i]@), "ollama"@)
}

/// Whether an answer to the prompt confirms: it is `y` in either case, white
/// space around it aside.
pub open spec fn accepts(answer: Seq<char>) -> bool {
    lowercase(trim(answer)) == "y"@
}

/// The confirmation prompt, which lists the names with `{:?}`.
pub open spec fn prompt_text(names: Seq<String>) -> Seq<char> {
    "Are you sure you want to kill these processes: "@ + debug_list(string_views(names))
        + "? (y/N): "@
}

pub open spec fn closed_line(label: Seq<char>) -> Seq<char> {
    "PID "@ + label + " closed on its own..."@
}

pub open spec fn sent_term_line(label: Seq<char>, name: Seq<char>) -> Seq<char> {
    "Sent SIGTERM to PID "@ + label + " ("@ + name + ")"@
}

pub open spec fn term_failed_line(label: Seq<char>, name: Seq<char>) -> Seq<char> {
    "Failed to send SIGTERM to PID "@ + label + " ("@ + name + "). Force killing..."@
}

pub open spec fn term_unsupported_line(label: Seq<char>) -> Seq<char> {
    "SIGTERM is not supported on this platform. Force killing PID "@ + label + "."@
}

pub open spec fn exited_line(label: Seq<char>, name: Seq<char>) -> Seq<char> {
    "PID "@ + label + " ("@ + name + ") exited gracefully."@
}

pub open spec fn timed_out_line(label: Seq<char>, name: Seq<char>, secs: nat) -> Seq<char> {
    "PID "@ + label + " ("@ + name + ") did not exit after "@ + decimal(secs)
        + "s. Force killing..."@
}

pub open spec fn force_killed_line(label: Seq<char>, name: Seq<char>) -> Seq<char> {
    "Killed PID "@ + label + " ("@ + name + ")"@
}

pub open spec fn force_failed_line(label: Seq<char>, name: Seq<char>) -> Seq<char> {
    "Failed to force kill PID "@ + label + " ("@ + name + ")"@
}

/// How many processes the session goes through: PIDs and names are taken in pairs.
pub open spec fn pair_count(s: KillSession) -> int {
    if s.pids.len() <= s.names.len() {
        s.pids.len() as int
    } else {
        s.names.len() as int
    }
}

/// The first position from `from` on, below `end`, whose PID string reads as a
/// PID; strings that do not are passed over.
pub open spec fn first_target(pids: Seq<String>, from: int, end: int) -> Option<int>
    decreases end - from,
{
    if from >= end {
        None
    } else if pid_value(pids[from]@) is Some {
        Some(from)
    } else {
        first_target(pids, from + 1, end)
    }
}

/// The outcome of a session that got through all processes.
pub open spec fn outcome_of(all_killed: bool) -> KillOutcome {
    if all_killed {
        KillOutcome::Killed
    } else {
        KillOutcome::Failed
    }
}

/// The phases in which there is a current process.
pub open spec fn has_current(phase: Phase) -> bool {
    !(phase is Confirming) && !(phase is Done)
}

impl KillSession {
    /// The session's positions are consistent.
    pub open spec fn wf(self) -> bool {
        &&& self.next <= pair_count(self)
        &&& has_current(self.phase) ==> self.current < self.next
    }

    /// The name of the current process.
    pub open spec fn current_name(self) -> Seq<char> {
        self.names@[self.current as int]@
    }
}

/// `post` keeps what `pre` was given.
pub open spec fn same_settings(pre: KillSession, post: KillSession) -> bool {
    &&& post.pids == pre.pids
    &&& post.names == pre.names
    &&& post.quiet == pre.quiet
    &&& post.graceful == pre.graceful
    &&& post.timeout_secs == pre.timeout_secs
}

/// `post` has gone on from position `from`, with `killed` as the record of
/// success: to the next process whose PID reads, or to the end.
pub open spec fn moved_on(pids: Seq<String>, from: int, end: int, killed: bool, post: KillSession) -> bool {
    &&& post.all_killed == killed
    &&& match first_target(pids, from, end) {
        Some(k) => {
            &&& post.phase == Phase::Probing
            &&& post.current == k
            &&& post.next == k + 1
            &&& pid_value(pids[k]@) == Some(post.pid as nat)
            &&& post.pid <= i32::MAX ==> post.label@ == decimal(post.pid as nat)
        },
        None => post.phase == Phase::Done(outcome_of(killed)),
    }
}

/// `post` is `pre` in another phase.
pub open spec fn switched(pre: KillSession, post: KillSession, phase: Phase) -> bool {
    &&& same_settings(pre, post)
    &&& post.next == pre.next
    &&& post.current == pre.current
    &&& post.pid == pre.pid
    &&& post.label == pre.label
    &&& post.all_killed == pre.all_killed
    &&& post.phase == phase
}

/// `post` goes on from `pre`'s position.
pub open spec fn went_on(pre: KillSession, killed: bool, post: KillSession) -> bool {
    &&& same_settings(pre, post)
    &&& moved_on(pre.pids@, pre.next as int, pair_count(pre), killed, post)
}

/// An event that does not answer the pending request changes nothing.
pub open spec fn ignored(pre: KillSession, post: KillSession, out: Seq<Seq<char>>) -> bool {
    out.len() == 0 && post == pre
}

/// One step of a session: from `pre`, on `event`, to `post`, printing `out`.
pub open spec fn step_post(pre: KillSession, event: Event, post: KillSession, out: Seq<Seq<char>>) -> bool {
    match pre.phase {
        Phase::Confirming => match event {
            Event::Answer(yes) => if yes {
                out == seq![killing_line()] && went_on(pre, pre.all_killed, post)
            } else {
                out == seq![canceled_line()] && switched(
                    pre,
                    post,
                    Phase::Done(KillOutcome::Cancelled),
                )
            },
            _ => ignored(pre, post, out),
        },
        Phase::Probing => match event {
            Event::Present(present) => if present {
                out.len() == 0 && switched(
                    pre,
                    post,
                    if pre.graceful {
                        Phase::Terminating
                    } else {
                        Phase::ForceKilling
                    },
                )
            } else {
                out == seq![closed_line(pre.label@)] && went_on(pre, pre.all_killed, post)
            },
            _ => ignored(pre, post, out),
        },
        Phase::Terminating => match event {
            Event::TermSent(sent) => match sent {
                Some(true) => out == seq![sent_term_line(pre.label@, pre.current_name())]
                    && switched(pre, post, Phase::StartingClock),
                Some(false) => out == seq![term_failed_line(pre.label@, pre.current_name())]
                    && switched(pre, post, Phase::ForceKilling),
                None => out == seq![term_unsupported_line(pre.label@)] && switched(
                    pre,
                    post,
                    Phase::ForceKilling,
                ),
            },
            _ => ignored(pre, post, out),
        },
        Phase::StartingClock => match event {
            Event::ClockStarted => out.len() == 0 && switched(pre, post, Phase::Watching),
            _ => ignored(pre, post, out),
        },
        Phase::Watching => match event {
            Event::Watched { present, elapsed_ms } => if !present {
                out == seq![exited_line(pre.label@, pre.current_name())] && went_on(
                    pre,
                    pre.all_killed,
                    post,
                )
            } else if elapsed_ms >= pre.timeout_secs * 1000 {
                out == seq![
                    timed_out_line(pre.label@, pre.current_name(), pre.timeout_secs as nat),
                ] && switched(pre, post, Phase::ForceKilling)
            } else {
                out.len() == 0 && switched(pre, post, Phase::Sleeping)
            },
            _ => ignored(pre, post, out),
        },
        Phase::Sleeping => match event {
            Event::Slept => out.len() == 0 && switched(pre, post, Phase::Watching),
            _ => ignored(pre, post, out),
        },
        Phase::ForceKilling => match event {
            Event::ForceKilled(result) => match result {
                None => out == seq![closed_line(pre.label@)] && went_on(pre, pre.all_killed, post),
                Some((name, killed)) => out == seq![
                    if killed {
                        force_killed_line(pre.label@, name@)
                    } else {
                        force_failed_line(pre.label@, name@)
                    },
                ] && went_on(pre, pre.all_killed && killed, post),
            },
            _ => ignored(pre, post, out),
        },
        Phase::Done(_) => ignored(pre, post, out),
    }
}

/// The request that a session in its state makes.
pub open spec fn requests(s: KillSession, req: Request) -> bool {
    match s.phase {
        Phase::Confirming => req matches Request::Confirm(p) && p@ == prompt_text(s.names@),
        Phase::Probing => req matches Request::Probe(p) && p == s.pid,
        Phase::Terminating => req matches Request::Terminate(p) && p == s.pid,
        Phase::StartingClock => req is StartClock,
        Phase::Watching => req matches Request::Watch(p) && p == s.pid,
        Phase::Sleeping => req matches Request::Sleep(ms) && ms == PROCESS_CHECK_INTERVAL_MS,
        Phase::ForceKilling => req matches Request::ForceKill(p) && p == s.pid,
        Phase::Done(o) => req matches Request::Finish(x) && x == o,
    }
}

/// `a`, `b` and `c` one after the other.
fn text3(a: &str, b: &str, c: &str) -> (r: String)
    ensures
        r@ == a@ + b@ + c@,
{
    let mut r = String::from_str(a);
    r.append(b);
    r.append(c);
    r
}

/// `a` to `e` one after the other.
fn text5(a: &str, b: &str, c: &str, d: &str, e: &str) -> (r: String)
    ensures
        r@ == a@ + b@ + c@ + d@ + e@,
{
    let mut r = String::from_str(a);
    r.append(b);
    r.append(c);
    r.append(d);
    r.append(e);
    r
}

/// One line to print.
fn one_line(line: String) -> (r: Vec<String>)
    ensures
        string_views(r@) == seq![line@],
{
    let mut r: Vec<String> = Vec::new();
    r.push(line);
    assert(string_views(r@) =~= seq![line@]);
    r
}

/// Nothing to print.
fn no_lines() -> (r: Vec<String>)
    ensures
        string_views(r@) == Seq::<Seq<char>>::empty(),
{
    let r: Vec<String> = Vec::new();
    assert(string_views(r@) =~= Seq::<Seq<char>>::empty());
    r
}

/// Whether some name contains `ollama`, in any case.
pub fn names_ollama(names: &Vec<String>) -> (r: bool)
    ensures
        r == ollama_named(names@),
{
    let needle = chars_of("ollama");
    let n = names.len();
    let mut i: usize = 0;
    while i < n
        invariant
            n == names.len(),
            i <= n,
            needle@ == "ollama"@,
            forall|k: int| 0 <= k < i ==> !has_substring(lowercase(#[trigger] names@[k]@), "ollama"@),
        decreases n - i,
    {
        let lower = to_lowercase(names[i].as_str());
        let lower_chars = chars_of(lower.as_str());
        if find_substring(&lower_chars, &needle) {
            return true;
        }
        i = i + 1;
    }
    false
}

/// Whether an answer to the confirmation prompt confirms. The prompt's
/// default is no: an empty answer declines, while `y` or `Y` confirms.
pub fn confirmation_accepted(answer: &str) -> (r: bool)
    ensures
        r == accepts(answer@),
        trim(answer@).len() == 0 ==> !r,
        trim(answer@) == "y"@ || trim(answer@) == "Y"@ ==> r,
{
    let cs = chars_of(answer);
    let (a, b) = trim_bounds(&cs);
    let trimmed = string_between(&cs, a, b);
    let lower = to_lowercase(trimmed.as_str());
    let lower_chars = chars_of(lower.as_str());
    let y = chars_of("y");
    proof {
        reveal_strlit("y");
    }
    same_chars(&lower_chars, &y)
}

impl KillSession {
    /// The request that the session's state makes.
    fn request(&self) -> (r: Request)
        ensures
            requests(*self, r),
    {
        match self.phase {
            Phase::Confirming => {
                let listed = debug_strings(self.names.as_slice());
                Request::Confirm(
                    text3(
                        "Are you sure you want to kill these processes: ",
                        listed.as_str(),
                        "? (y/N): ",
                    ),
                )
            },
            Phase::Probing => Request::Probe(self.pid),
            Phase::Terminating => Request::Terminate(self.pid),
            Phase::StartingClock => Request::StartClock,
            Phase::Watching => Request::Watch(self.pid),
            Phase::Sleeping => Request::Sleep(PROCESS_CHECK_INTERVAL_MS),
            Phase::ForceKilling => Request::ForceKill(self.pid),
            Phase::Done(o) => Request::Finish(o),
        }
    }

    /// Goes on to the next process whose PID reads, or to the end.
    fn move_on(&mut self)
        requires
            old(self).next <= pair_count(*old(self)),
        ensures
            final(self).wf(),
            same_settings(*old(self), *final(self)),
            moved_on(
                old(self).pids@,
                old(self).next as int,
                pair_count(*old(self)),
                old(self).all_killed,
                *final(self),
            ),
    {
        let end = if self.pids.len() <= self.names.len() {
            self.pids.len()
        } else {
            self.names.len()
        };
        let mut k = self.next;
        while k < end
            invariant
                end == pair_count(*self),
                old(self).next <= k <= end,
                same_settings(*old(self), *self),
                self.all_killed == old(self).all_killed,
                first_target(self.pids@, old(self).next as int, end as int) == first_target(
                    self.pids@,
                    k as int,
                    end as int,
                ),
            decreases end - k,
        {
            match parse_pid(&self.pids[k]) {
                Some(pid) => {
                    self.current = k;
                    self.next = k + 1;
                    self.pid = pid;
                    self.label = pid_label(pid);
                    self.phase = Phase::Probing;
                    return;
                },
                None => {},
            }
            k = k + 1;
        }
        self.next = end;
        self.phase = if self.all_killed {
            Phase::Done(KillOutcome::Killed)
        } else {
            Phase::Done(KillOutcome::Failed)
        };
    }

    /// Takes what came of the pending request and decides what to print and
    /// what to do next. An event that does not answer the pending request
    /// changes nothing and repeats the request.
    pub fn step(&mut self, event: Event) -> (r: Step)
        requires
            old(self).wf(),
        ensures
            final(self).wf(),
            step_post(*old(self), event, *final(self), string_views(r.output@)),
            requests(*final(self), r.request),
    {
        let output = match (self.phase, event) {
            (Phase::Confirming, Event::Answer(yes)) => {
                if yes {
                    self.move_on();
                    one_line(String::from_str("Killing processes!"))
                } else {
                    self.phase = Phase::Done(KillOutcome::Cancelled);
                    one_line(String::from_str("Canceled."))
                }
            },
            (Phase::Probing, Event::Present(present)) => {
                if present {
                    self.phase = if self.graceful {
                        Phase::Terminating
                    } else {
                        Phase::ForceKilling
                    };
                    no_lines()
                } else {
                    let line = text3("PID ", self.label.as_str(), " closed on its own...");
                    self.move_on();
                    one_line(line)
                }
            },
            (Phase::Terminating, Event::TermSent(sent)) => {
                let name = self.names[self.current].as_str();
                match sent {
                    Some(true) => {
                        let line = text5("Sent SIGTERM to PID ", self.label.as_str(), " (", name, ")");
                        self.phase = Phase::StartingClock;
                        one_line(line)
                    },
                    Some(false) => {
                        let line = text5(
                            "Failed to send SIGTERM to PID ",
                            self.label.as_str(),
                            " (",
                            name,
                            "). Force killing...",
                        );
                        self.phase = Phase::ForceKilling;
                        one_line(line)
                    },
                    None => {
                        let line = text3(
                            "SIGTERM is not supported on this platform. Force killing PID ",
                            self.label.as_str(),
                            ".",
                        );
                        self.phase = Phase::ForceKilling;
                        one_line(line)
                    },
                }
            },
            (Phase::StartingClock, Event::ClockStarted) => {
                self.phase = Phase::Watching;
                no_lines()
            },
            (Phase::Watching, Event::Watched { present, elapsed_ms }) => {
                if !present {
                    let line = text5(
                        "PID ",
                        self.label.as_str(),
                        " (",
                        self.names[self.current].as_str(),
                        ") exited gracefully.",
                    );
                    self.move_on();
                    one_line(line)
                } else if elapsed_ms >= (self.timeout_secs as u128) * 1000 {
                    let head = text5(
                        "PID ",
                        self.label.as_str(),
                        " (",
                        self.names[self.current].as_str(),
                        ") did not exit after ",
                    );
                    let secs = decimal_string(self.timeout_secs);
                    let line = text3(head.as_str(), secs.as_str(), "s. Force killing...");
                    self.phase = Phase::ForceKilling;
                    one_line(line)
                } else {
                    self.phase = Phase::Sleeping;
                    no_lines()
                }
            },
            (Phase::Sleeping, Event::Slept) => {
                self.phase = Phase::Watching;
                no_lines()
            },
            (Phase::ForceKilling, Event::ForceKilled(result)) => {
                match result {
                    None => {
                        let line = text3("PID ", self.label.as_str(), " closed on its own...");
                        self.move_on();
                        one_line(line)
                    },
                    Some((name, killed)) => {
                        let line = if killed {
                            text5("Killed PID ", self.label.as_str(), " (", name.as_str(), ")")
                        } else {
                            text5(
                                "Failed to force kill PID ",
                                self.label.as_str(),
                                " (",
                                name.as_str(),
                                ")",
                            )
                        };
                        self.all_killed = self.all_killed && killed;
                        self.move_on();
                        one_line(line)
                    },
                }
            },
            _ => no_lines(),
        };
        let request = self.request();
        Step { output, request }
    }

    /// Begins a session that kills `pids`, whose names are `names` (as
    /// `get_process_names` gave them), as `args` asks: it warns when Ollama is
    /// among them, then asks for confirmation unless `args.quiet`.
    pub fn start(pids: Vec<String>, names: Vec<String>, args: &Args) -> (r: (KillSession, Step))
        ensures
            r.0.wf(),
            r.0.pids == pids,
            r.0.names == names,
            r.0.quiet == args.quiet,
            r.0.graceful == args.graceful,
            r.0.timeout_secs == match args.timeout {
                Some(t) => t,
                None => DEFAULT_GRACEFUL_TIMEOUT_SECONDS,
            },
            string_views(r.1.output@) == (if ollama_named(names@) {
                ollama_warning()
            } else {
                Seq::<Seq<char>>::empty()
            }) + (if args.quiet {
                seq![killing_line()]
            } else {
                Seq::<Seq<char>>::empty()
            }),
            args.quiet ==> moved_on(pids@, 0, pair_count(r.0), true, r.0),
            !args.quiet ==> r.0.phase == Phase::Confirming && r.0.next == 0 && r.0.all_killed,
            requests(r.0, r.1.request),
    {
        let mut output: Vec<String> = Vec::new();
        if names_ollama(&names) {
            output.push(String::from_str("Ollama was detected in your list of processes to kill."));
            output.push(
                String::from_str(
                    "Killing Ollama will NOT work because it will start the server again.",
                ),
            );
            output.push(
                String::from_str(
                    "Will try to kill Ollama anyway, but it is probably going to fail.\n",
                ),
            );
        }
        let ghost warned = string_views(output@);
        let timeout_secs = match args.timeout {
            Some(t) => t,
            None => DEFAULT_GRACEFUL_TIMEOUT_SECONDS,
        };
        let mut session = KillSession {
            pids,
            names,
            quiet: args.quiet,
            graceful: args.graceful,
            timeout_secs,
            next: 0,
            current: 0,
            pid: 0,
            label: String::new(),
            all_killed: true,
            phase: Phase::Confirming,
        };
        if args.quiet {
            output.push(String::from_str("Killing processes!"));
            session.move_on();
        }
        assert(string_views(output@) =~= (if ollama_named(session.names@) {
            ollama_warning()
        } else {
            Seq::<Seq<char>>::empty()
        }) + (if args.quiet {
            seq![killing_line()]
        } else {
            Seq::<Seq<char>>::empty()
        }));
        let request = session.request();
        (session, Step { output, request })
    }
}

/// A finished session stays finished: any further event changes nothing and
/// prints nothing.
pub proof fn law_finished_session_is_final(
    pre: KillSession,
    event: Event,
    post: KillSession,
    out: Seq<Seq<char>>,
)
    requires
        pre.phase is Done,
        step_post(pre, event, post, out),
    ensures
        post == pre,
        out.len() == 0,
{
}

/// Once a kill has failed, the session remembers it; and a session only
/// learns of a failure from a SIGKILL that was not sent.
pub proof fn law_failure_is_remembered(
    pre: KillSession,
    event: Event,
    post: KillSession,
    out: Seq<Seq<char>>,
)
    requires
        step_post(pre, event, post, out),
    ensures
        !pre.all_killed ==> !post.all_killed,
        pre.all_killed && !post.all_killed ==> pre.phase == Phase::ForceKilling && (
        event matches Event::ForceKilled(Some((_, killed))) && !killed),
{
}

/// A process that is already gone counts as killed: it leaves the record of
/// success as it was.
pub proof fn law_gone_process_counts_as_killed(
    pre: KillSession,
    event: Event,
    post: KillSession,
    out: Seq<Seq<char>>,
)
    requires
        step_post(pre, event, post, out),
        ({
            ||| (event matches Event::Present(present) && !present)
            ||| (event matches Event::ForceKilled(result) && result is None)
            ||| (event matches Event::Watched { present, elapsed_ms: _ } && !present)
        }),
    ensures
        post.all_killed == pre.all_killed,
{
}

/// How a session ends: cancelled only when the user declines the prompt;
/// killed only when no kill failed; failed only when one did.
pub proof fn law_outcome_reflects_kills(
    pre: KillSession,
    event: Event,
    post: KillSession,
    out: Seq<Seq<char>>,
)
    requires
        !(pre.phase is Done),
        step_post(pre, event, post, out),
    ensures
        post.phase == Phase::Done(KillOutcome::Cancelled) ==> pre.phase == Phase::Confirming && (
        event matches Event::Answer(yes) && !yes),
        post.phase == Phase::Done(KillOutcome::Killed) ==> post.all_killed,
        post.phase == Phase::Done(KillOutcome::Failed) ==> !post.all_killed,
{
}

/// A graceful kill never waits past its timeout: once the clock has reached
/// it and the process is still there, SIGKILL is next.
pub proof fn law_timeout_forces_kill(
    pre: KillSession,
    present: bool,
    elapsed_ms: u128,
    post: KillSession,
    out: Seq<Seq<char>>,
)
    requires
        pre.phase == Phase::Watching,
        present,
        elapsed_ms >= pre.timeout_secs * 1000,
        step_post(pre, Event::Watched { present, elapsed_ms }, post, out),
    ensures
        post.phase == Phase::ForceKilling,
        post.pid == pre.pid,
{
}

/// A graceful kill waits out the whole timeout it was given: while the
/// process is still there and the clock is below `timeout_secs` seconds, the
/// session prints nothing, kills nothing, and only sleeps before looking again.
pub proof fn law_waits_until_timeout(
    pre: KillSession,
    present: bool,
    elapsed_ms: u128,
    post: KillSession,
    out: Seq<Seq<char>>,
    req: Request,
)
    requires
        pre.phase == Phase::Watching,
        present,
        elapsed_ms < pre.timeout_secs * 1000,
        step_post(pre, Event::Watched { present, elapsed_ms }, post, out),
        requests(post, req),
    ensures
        post.phase == Phase::Sleeping,
        out.len() == 0,
        post.all_killed == pre.all_killed,
        post.timeout_secs == pre.timeout_secs,
        req matches Request::Sleep(ms) && ms == PROCESS_CHECK_INTERVAL_MS,
{
}

} // verus!
