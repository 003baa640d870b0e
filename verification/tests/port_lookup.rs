use portcull::lookup::LaunchFailure;
use portcull::lsof::lsof_error_message;
use portcull::netstat::parse_netstat_listeners;
use std::collections::HashSet;
use std::io;

const NETSTAT_SAMPLE: &str = "
Active Connections

  Proto  Local Address          Foreign Address        State           PID
  TCP    0.0.0.0:80             0.0.0.0:0              LISTENING       4
  TCP    0.0.0.0:3000           0.0.0.0:0              LISTENING       1111
  TCP    127.0.0.1:3000         127.0.0.1:52000        ESTABLISHED     1111
  TCP    127.0.0.1:52000        127.0.0.1:3000         ESTABLISHED     2222
  TCP    127.0.0.1:3001         127.0.0.1:52001        TIME_WAIT       0
  TCP    0.0.0.0:3002           0.0.0.0:0              ABHÖREN         3333
  TCP    [::]:3000              [::]:0                 LISTENING       1111
  TCP    [::]:8080              [::]:0                 LISTENING       4444
  UDP    0.0.0.0:3000           *:*                                    5555
  UDP    [::]:3003              *:*                                    6666
";

fn pids_for(ports: &[u16]) -> Vec<String> {
    let target_ports: HashSet<u16> = ports.iter().cloned().collect();
    let mut pids: Vec<String> = parse_netstat_listeners(NETSTAT_SAMPLE, &target_ports)
        .into_iter()
        .collect();
    pids.sort();
    pids
}

#[test]
fn netstat_matches_tcp_listeners_only() {
    // the ESTABLISHED and UDP rows on 3000 must not add extra PIDs
    assert_eq!(pids_for(&[3000]), vec!["1111"]);
}

#[test]
fn netstat_matches_ipv6_listeners() {
    assert_eq!(pids_for(&[8080]), vec!["4444"]);
}

#[test]
fn netstat_skips_time_wait_and_udp() {
    assert!(pids_for(&[3001, 3003]).is_empty());
}

#[test]
fn netstat_skips_system_pids() {
    assert!(pids_for(&[80]).is_empty());
}

#[test]
fn netstat_accepts_localized_listening_state() {
    assert_eq!(pids_for(&[3002]), vec!["3333"]);
}

#[test]
fn netstat_ignores_client_side_of_connection() {
    // PID 2222 only has an outbound connection *to* 3000, it doesn't listen on 52000
    assert_eq!(pids_for(&[3000, 52000]), vec!["1111"]);
}

#[test]
fn missing_lsof_gives_install_hint() {
    let message = lsof_error_message(
        &LaunchFailure::from_io_error(&io::Error::from(io::ErrorKind::NotFound)),
        "3000",
    );
    assert!(message.contains("lsof was not found"));
    assert!(message.contains("install lsof"));
}

#[test]
fn other_lsof_errors_include_ports_and_cause() {
    let message = lsof_error_message(
        &LaunchFailure::from_io_error(&io::Error::from(io::ErrorKind::PermissionDenied)),
        "3000,8080",
    );
    assert!(message.contains("3000,8080"));
    assert!(!message.contains("not found"));
}

// ----------- further cases of the netstat reading -----------

#[test]
fn netstat_reports_each_pid_once_in_row_order() {
    let ports: HashSet<u16> = [3000, 8080].iter().cloned().collect();
    let pids = parse_netstat_listeners(NETSTAT_SAMPLE, &ports);
    assert_eq!(pids, vec!["1111".to_string(), "4444".to_string()]);
}

#[test]
fn netstat_union_of_port_sets() {
    let both: HashSet<u16> = [3000, 3002, 8080].iter().cloned().collect();
    let first: HashSet<u16> = [3000].iter().cloned().collect();
    let second: HashSet<u16> = [3002, 8080].iter().cloned().collect();
    let mut union: Vec<String> = parse_netstat_listeners(NETSTAT_SAMPLE, &first);
    union.extend(parse_netstat_listeners(NETSTAT_SAMPLE, &second));
    union.sort();
    let mut together = parse_netstat_listeners(NETSTAT_SAMPLE, &both);
    together.sort();
    assert_eq!(together, union);
}

#[test]
fn netstat_no_ports_finds_nothing() {
    let ports: HashSet<u16> = HashSet::new();
    assert!(parse_netstat_listeners(NETSTAT_SAMPLE, &ports).is_empty());
}

#[test]
fn netstat_handles_crlf_and_leading_zero_ports() {
    let out = "  TCP    0.0.0.0:03000    0.0.0.0:0    LISTENING    77\r\n  TCP    0.0.0.0:+9000    0.0.0.0:0    LISTENING    78\r\n";
    let ports: HashSet<u16> = [3000, 9000].iter().cloned().collect();
    assert_eq!(parse_netstat_listeners(out, &ports), vec!["77".to_string(), "78".to_string()]);
}

#[test]
fn netstat_skips_bad_ports_and_pids() {
    let out = "TCP 0.0.0.0:70000 0.0.0.0:0 LISTENING 12\nTCP 0.0.0.0:-1 0.0.0.0:0 LISTENING 13\nTCP 0.0.0.0:3000 0.0.0.0:0 LISTENING 1x\nTCP 0.0.0.0 0.0.0.0:0 LISTENING 15\nTCP 0.0.0.0:3000 0.0.0.0:0 LISTENING 16 extra\n";
    let ports: HashSet<u16> = [3000, 4464].iter().cloned().collect();
    assert!(parse_netstat_listeners(out, &ports).is_empty());
}

#[test]
fn netstat_empty_output() {
    let ports: HashSet<u16> = [3000].iter().cloned().collect();
    assert!(parse_netstat_listeners("", &ports).is_empty());
}

#[test]
fn netstat_joined_outputs_give_the_union() {
    let ports: HashSet<u16> = [3000, 8080].iter().cloned().collect();
    let a = "  TCP    0.0.0.0:3000   0.0.0.0:0   LISTENING   1111";
    let b = "  TCP    [::]:8080      [::]:0      LISTENING   4444\n  TCP    0.0.0.0:3000   0.0.0.0:0   LISTENING   1111";
    let mut joined = parse_netstat_listeners(&format!("{}\n{}", a, b), &ports);
    joined.sort();
    let mut apart = parse_netstat_listeners(a, &ports);
    apart.extend(parse_netstat_listeners(b, &ports));
    apart.sort();
    apart.dedup();
    assert_eq!(joined, apart);
}
