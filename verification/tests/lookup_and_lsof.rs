use portcull::args::Args;
use portcull::lookup::{
    find_pids, lookup_command, port_set, run_unix, run_windows, LaunchFailure, Platform,
};
use portcull::lsof::{lsof_arguments, lsof_error_message, lsof_port_list, parse_lsof_pids};
use portcull::text::{decimal_string, parse_decimal};
use std::io;

fn failure(kind: io::ErrorKind) -> LaunchFailure {
    LaunchFailure::from_io_error(&io::Error::from(kind))
}

fn args_for(ports: &[u16]) -> Args {
    Args { ports: ports.to_vec(), query: false, quiet: false, graceful: false, timeout: None }
}

#[test]
fn port_list_joins_with_commas() {
    assert_eq!(lsof_port_list(&vec![3000, 8080]), "3000,8080");
    assert_eq!(lsof_port_list(&vec![7]), "7");
    assert_eq!(lsof_port_list(&vec![]), "");
    assert_eq!(lsof_port_list(&vec![0, 65535]), "0,65535");
}

#[test]
fn lsof_arguments_look_up_tcp_listeners() {
    assert_eq!(lsof_arguments("3000,8080"), vec!["-t", "-iTCP:3000,8080", "-sTCP:LISTEN"]);
}

#[test]
fn lookup_command_per_platform() {
    let args = args_for(&[3000, 8080]);
    let unix = lookup_command(&Platform::Unix, &args);
    assert_eq!(unix.program, "lsof");
    assert_eq!(unix.args, vec!["-t", "-iTCP:3000,8080", "-sTCP:LISTEN"]);
    let windows = lookup_command(&Platform::Windows, &args);
    assert_eq!(windows.program, "netstat");
    assert_eq!(windows.args, vec!["-ano"]);
}

#[test]
fn lsof_output_gives_digit_lines_once() {
    let pids = parse_lsof_pids("1234\n 5678 \n\nabc\n1234\n12a\r\n99\r\n");
    assert_eq!(pids, vec!["1234", "5678", "99"]);
    assert!(parse_lsof_pids("").is_empty());
}

#[test]
fn lsof_failure_texts() {
    assert_eq!(
        lsof_error_message(&LaunchFailure { not_found: true, cause: "whatever".to_string() }, "3000"),
        "lsof was not found, but portcull needs it to look up ports on Linux/macOS. Install it with your package manager (e.g. `apt install lsof`, `dnf install lsof` or `apk add lsof`) and try again."
    );
    assert_eq!(
        lsof_error_message(
            &LaunchFailure { not_found: false, cause: "permission denied".to_string() },
            "3000,8080"
        ),
        "Failed to execute lsof for ports 3000,8080: permission denied"
    );
}

#[test]
fn unix_lookup_reads_lsof_output() {
    let args = args_for(&[3000]);
    assert_eq!(run_unix(&args, Ok(b"42\n42\n7\n".to_vec())), Ok(vec!["42".to_string(), "7".to_string()]));
    // an invalid UTF-8 byte becomes U+FFFD, so that line is no PID
    assert_eq!(run_unix(&args, Ok(b"\xff42\n8\n".to_vec())), Ok(vec!["8".to_string()]));
}

#[test]
fn unix_lookup_failure_messages() {
    let args = args_for(&[3000, 8080]);
    let missing = run_unix(&args, Err(failure(io::ErrorKind::NotFound))).unwrap_err();
    assert!(missing.starts_with("lsof was not found"));
    let denied = run_unix(&args, Err(failure(io::ErrorKind::PermissionDenied))).unwrap_err();
    assert!(denied.starts_with("Failed to execute lsof for ports 3000,8080: "));
}

#[test]
fn windows_lookup_reads_netstat_output() {
    let args = args_for(&[3000]);
    let out = b"  TCP    0.0.0.0:3000   0.0.0.0:0   LISTENING   1111\n".to_vec();
    assert_eq!(run_windows(&args, Ok(out)), Ok(vec!["1111".to_string()]));
    let err = run_windows(&args, Err(failure(io::ErrorKind::NotFound))).unwrap_err();
    assert_eq!(err, format!("Failed to execute netstat: {}", io::Error::from(io::ErrorKind::NotFound)));
}

#[test]
fn find_pids_dispatches_on_platform() {
    let args = args_for(&[3000]);
    let out = b"  TCP    0.0.0.0:3000   0.0.0.0:0   LISTENING   1111\n5\n".to_vec();
    assert_eq!(find_pids(&Platform::Windows, &args, Ok(out.clone())), Ok(vec!["1111".to_string()]));
    assert_eq!(find_pids(&Platform::Unix, &args, Ok(out)), Ok(vec!["5".to_string()]));
    assert!(find_pids(&Platform::Unix, &args, Err(failure(io::ErrorKind::NotFound))).is_err());
}

#[test]
fn port_set_holds_the_ports() {
    let set = port_set(&vec![3000, 3000, 8080]);
    assert_eq!(set.len(), 2);
    assert!(set.contains(&3000) && set.contains(&8080));
}

#[test]
fn decimal_notation() {
    assert_eq!(decimal_string(0), "0");
    assert_eq!(decimal_string(3000), "3000");
    assert_eq!(decimal_string(u64::MAX), "18446744073709551615");
}

#[test]
fn decimal_parsing_follows_str_parse() {
    let chars = |s: &str| s.chars().collect::<Vec<char>>();
    assert_eq!(parse_decimal(&chars("65535"), 0, 65535), Some(65535));
    assert_eq!(parse_decimal(&chars("65536"), 0, 65535), None);
    assert_eq!(parse_decimal(&chars("+7"), 0, 65535), Some(7));
    assert_eq!(parse_decimal(&chars("-7"), 0, 65535), None);
    assert_eq!(parse_decimal(&chars("+"), 0, 65535), None);
    assert_eq!(parse_decimal(&chars(""), 0, 65535), None);
    assert_eq!(parse_decimal(&chars("0003"), 0, 65535), Some(3));
    assert_eq!(parse_decimal(&chars("a:80"), 2, 65535), Some(80));
    assert_eq!(parse_decimal(&chars("8 0"), 0, 65535), None);
    for text in ["0", "1", "42", "65535", "65536", "+5", "-5", "99999999999", "1a"] {
        assert_eq!(parse_decimal(&chars(text), 0, 65535), text.parse::<u16>().ok().map(|v| v as u64));
    }
}

#[test]
fn launch_failures_keep_kind_and_text() {
    let missing = failure(io::ErrorKind::NotFound);
    assert!(missing.not_found);
    assert_eq!(missing.cause, io::Error::from(io::ErrorKind::NotFound).to_string());
    assert!(!failure(io::ErrorKind::PermissionDenied).not_found);
}

#[test]
fn lsof_joined_outputs_give_the_union() {
    let mut joined = parse_lsof_pids("1\n2\n3");
    joined.sort();
    assert_eq!(joined, vec!["1", "2", "3"]);
    assert_eq!(parse_lsof_pids("1\n2"), vec!["1", "2"]);
    assert_eq!(parse_lsof_pids("3"), vec!["3"]);
}
