use portcull::args::Args;
use portcull::kill::{
    confirmation_accepted, names_ollama, Event, KillOutcome, KillSession, Phase, Request,
    DEFAULT_GRACEFUL_TIMEOUT_SECONDS, PROCESS_CHECK_INTERVAL_MS,
};
use portcull::processes::{display_name, get_process_names, kill_answer, parse_pid, sigterm_answer};
use portcull::report::{
    exit_code, lookup_report, query_report, EXIT_CANCELLED, EXIT_KILL_FAILED, EXIT_LOOKUP_FAILED,
    EXIT_NOT_FOUND,
};
use portcull::lookup::Platform;

fn args(quiet: bool, graceful: bool, timeout: Option<u64>) -> Args {
    Args { ports: vec![1], query: false, quiet, graceful, timeout }
}

fn strings(items: &[&str]) -> Vec<String> {
    items.iter().map(|s| s.to_string()).collect()
}

#[test]
fn process_names_mark_invalid_pids() {
    let names = get_process_names(&strings(&["abc", "99999999999999999999999", "999999999"]));
    assert_eq!(names.len(), 3);
    assert_eq!(names[0], "Invalid PID");
    assert_eq!(names[1], "Invalid PID");
    assert_eq!(names[2], "Unknown Process");
}

#[test]
fn pid_parsing_and_display_names() {
    assert_eq!(parse_pid(&"1234".to_string()), Some(1234));
    assert_eq!(parse_pid(&"12 34".to_string()), None);
    assert_eq!(display_name(None), "Unknown Process");
    assert_eq!(display_name(Some("node".to_string())), "node");
}

#[test]
fn ollama_is_noticed_in_any_case() {
    assert!(names_ollama(&strings(&["node", "OLLAMA.exe"])));
    assert!(names_ollama(&strings(&["ollama serve"])));
    assert!(!names_ollama(&strings(&["olla ma", "node"])));
}

#[test]
fn confirmation_wants_y() {
    assert!(confirmation_accepted("y\n"));
    assert!(confirmation_accepted("  Y \r\n"));
    assert!(!confirmation_accepted("yes\n"));
    assert!(!confirmation_accepted("\n"));
    assert!(!confirmation_accepted("n"));
}

#[test]
fn quiet_kill_of_a_gone_process_counts_as_killed() {
    let (mut s, step) = KillSession::start(strings(&["12"]), strings(&["sleep"]), &args(true, false, None));
    assert_eq!(step.output, vec!["Killing processes!"]);
    assert!(matches!(step.request, Request::Probe(12)));
    let step = s.step(Event::Present(false));
    assert_eq!(step.output, vec!["PID 12 closed on its own..."]);
    assert!(matches!(step.request, Request::Finish(KillOutcome::Killed)));
}

#[test]
fn force_kill_reports_success_and_failure() {
    let (mut s, _) = KillSession::start(strings(&["12", "x", "13"]), strings(&["a", "b", "c"]), &args(true, false, None));
    let step = s.step(Event::Present(true));
    assert!(matches!(step.request, Request::ForceKill(12)));
    let step = s.step(Event::ForceKilled(Some(("sleep".to_string(), true))));
    assert_eq!(step.output, vec!["Killed PID 12 (sleep)"]);
    // the unreadable PID "x" is passed over
    assert!(matches!(step.request, Request::Probe(13)));
    s.step(Event::Present(true));
    let step = s.step(Event::ForceKilled(Some(("cat".to_string(), false))));
    assert_eq!(step.output, vec!["Failed to force kill PID 13 (cat)"]);
    assert!(matches!(step.request, Request::Finish(KillOutcome::Failed)));
    assert_eq!(exit_code(KillOutcome::Failed), 4);
}

#[test]
fn declining_the_prompt_cancels() {
    let (mut s, step) = KillSession::start(strings(&["12"]), strings(&["node.exe"]), &args(false, false, None));
    assert!(step.output.is_empty());
    match &step.request {
        Request::Confirm(prompt) => assert_eq!(
            prompt,
            "Are you sure you want to kill these processes: [\"node.exe\"]? (y/N): "
        ),
        _ => panic!("expected a prompt"),
    }
    let step = s.step(Event::Answer(false));
    assert_eq!(step.output, vec!["Canceled."]);
    assert!(matches!(step.request, Request::Finish(KillOutcome::Cancelled)));
    // a finished session stays finished
    let step = s.step(Event::Present(true));
    assert!(step.output.is_empty());
    assert!(matches!(step.request, Request::Finish(KillOutcome::Cancelled)));
}

#[test]
fn confirming_starts_the_kills() {
    let (mut s, _) = KillSession::start(strings(&["12"]), strings(&["node"]), &args(false, false, None));
    let step = s.step(Event::Answer(true));
    assert_eq!(step.output, vec!["Killing processes!"]);
    assert!(matches!(step.request, Request::Probe(12)));
}

#[test]
fn ollama_warning_comes_first() {
    let (_, step) = KillSession::start(strings(&["5"]), strings(&["Ollama"]), &args(true, false, None));
    assert_eq!(
        step.output,
        vec![
            "Ollama was detected in your list of processes to kill.",
            "Killing Ollama will NOT work because it will start the server again.",
            "Will try to kill Ollama anyway, but it is probably going to fail.\n",
            "Killing processes!",
        ]
    );
}

#[test]
fn graceful_kill_waits_then_forces() {
    let (mut s, _) = KillSession::start(strings(&["12"]), strings(&["sleep"]), &args(true, true, None));
    assert_eq!(s.timeout_secs, DEFAULT_GRACEFUL_TIMEOUT_SECONDS);
    let step = s.step(Event::Present(true));
    assert!(matches!(step.request, Request::Terminate(12)));
    let step = s.step(Event::TermSent(Some(true)));
    assert_eq!(step.output, vec!["Sent SIGTERM to PID 12 (sleep)"]);
    assert!(matches!(step.request, Request::StartClock));
    let step = s.step(Event::ClockStarted);
    assert!(matches!(step.request, Request::Watch(12)));
    let step = s.step(Event::Watched { present: true, elapsed_ms: 2999 });
    assert!(matches!(step.request, Request::Sleep(ms) if ms == PROCESS_CHECK_INTERVAL_MS));
    let step = s.step(Event::Slept);
    assert!(matches!(step.request, Request::Watch(12)));
    let step = s.step(Event::Watched { present: true, elapsed_ms: 3000 });
    assert_eq!(step.output, vec!["PID 12 (sleep) did not exit after 3s. Force killing..."]);
    assert!(matches!(step.request, Request::ForceKill(12)));
    let step = s.step(Event::ForceKilled(None));
    assert_eq!(step.output, vec!["PID 12 closed on its own..."]);
    assert!(matches!(step.request, Request::Finish(KillOutcome::Killed)));
}

#[test]
fn graceful_exit_and_sigterm_failures() {
    let (mut s, _) = KillSession::start(strings(&["1", "2", "3"]), strings(&["a", "b", "c"]), &args(true, true, Some(10)));
    s.step(Event::Present(true));
    s.step(Event::TermSent(Some(true)));
    s.step(Event::ClockStarted);
    let step = s.step(Event::Watched { present: false, elapsed_ms: 50 });
    assert_eq!(step.output, vec!["PID 1 (a) exited gracefully."]);
    assert!(matches!(step.request, Request::Probe(2)));
    s.step(Event::Present(true));
    let step = s.step(Event::TermSent(Some(false)));
    assert_eq!(step.output, vec!["Failed to send SIGTERM to PID 2 (b). Force killing..."]);
    assert!(matches!(step.request, Request::ForceKill(2)));
    s.step(Event::ForceKilled(Some(("b".to_string(), true))));
    s.step(Event::Present(true));
    let step = s.step(Event::TermSent(None));
    assert_eq!(step.output, vec!["SIGTERM is not supported on this platform. Force killing PID 3."]);
    let step = s.step(Event::ForceKilled(Some(("c".to_string(), true))));
    assert!(matches!(step.request, Request::Finish(KillOutcome::Killed)));
    assert_eq!(s.phase, Phase::Done(KillOutcome::Killed));
}

#[test]
fn unexpected_events_are_ignored() {
    let (mut s, _) = KillSession::start(strings(&["12"]), strings(&["a"]), &args(true, false, None));
    let step = s.step(Event::Slept);
    assert!(step.output.is_empty());
    assert!(matches!(step.request, Request::Probe(12)));
}

#[test]
fn nothing_to_kill_finishes_at_once() {
    let (_, step) = KillSession::start(Vec::new(), Vec::new(), &args(true, false, None));
    assert!(matches!(step.request, Request::Finish(KillOutcome::Killed)));
}

#[test]
fn exit_codes() {
    assert_eq!(exit_code(KillOutcome::Killed), 0);
    assert_eq!(exit_code(KillOutcome::Cancelled), EXIT_CANCELLED);
    assert_eq!(exit_code(KillOutcome::Failed), EXIT_KILL_FAILED);
    assert_eq!((EXIT_NOT_FOUND, EXIT_CANCELLED, EXIT_KILL_FAILED, EXIT_LOOKUP_FAILED), (1, 3, 4, 5));
}

#[test]
fn lookup_reports() {
    let failed = lookup_report(&Platform::Unix, &Err("boom".to_string())).unwrap();
    assert_eq!(failed.exit_code, 5);
    assert_eq!(failed.stderr, vec!["Error: boom"]);
    assert!(failed.stdout.is_empty());
    let none = lookup_report(&Platform::Unix, &Ok(Vec::new())).unwrap();
    assert_eq!(none.exit_code, 1);
    assert_eq!(none.stdout, vec!["No active processes found on provided ports; exiting."]);
    assert_eq!(none.stderr.len(), 1);
    let none_windows = lookup_report(&Platform::Windows, &Ok(Vec::new())).unwrap();
    assert!(none_windows.stderr.is_empty());
    assert!(lookup_report(&Platform::Unix, &Ok(vec!["1".to_string()])).is_none());
}

#[test]
fn query_listing() {
    let r = query_report(&strings(&["27656", "1"]), &strings(&["node.exe", "x"]));
    assert_eq!(r.exit_code, 0);
    assert_eq!(r.stdout, vec!["Active processes found:", "PID: 27656 | Name: node.exe", "PID: 1 | Name: x"]);
}

#[test]
fn signal_answers() {
    assert_eq!(sigterm_answer(Some(Some(true))), Some(true));
    assert_eq!(sigterm_answer(Some(None)), None);
    assert_eq!(sigterm_answer(None), None);
    assert_eq!(kill_answer(Some("a".to_string()), Some(false)), Some(("a".to_string(), false)));
    assert_eq!(kill_answer(Some("a".to_string()), None), None);
    assert_eq!(kill_answer(None, Some(true)), None);
}
