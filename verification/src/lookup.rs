//! Looking up the processes that listen on the requested ports: which tool to
//! run on which platform, and what its output or failure means.

use std::collections::HashSet;
use vstd::prelude::*;
use crate::args::Args;
use crate::foreign::{decode_lossy, io_error_is_not_found, utf8_lossy};
use crate::lsof::{
    lsof_arguments, lsof_arguments_for, lsof_error_message, lsof_failure, lsof_pids,
    lsof_port_list, parse_lsof_pids, port_list,
};
use crate::netstat::{netstat_listener_pids, parse_netstat_listeners};
use crate::text::string_views;

verus! {

broadcast use vstd::std_specs::hash::group_hash_axioms;

/// The two families of systems, which look ports up with different tools.
pub enum Platform {
    /// Windows, where `netstat -ano` lists the sockets.
    Windows,
    /// Linux and macOS, where `lsof` finds the listeners.
    Unix,
}

/// Why a program could not be started: whether it was not found, and the
/// error's own description.
pub struct LaunchFailure {
    pub not_found: bool,
    pub cause: String,
}

impl LaunchFailure {
    /// What the library needs of the error that kept a program from starting:
    /// whether its kind is `NotFound`, and its text as `Display` prints it.
    /// The kind comes from the operating system, so it is not stated.
    pub fn from_io_error(err: &std::io::Error) -> (r: LaunchFailure)
        ensures
            vstd::string::to_string_from_display_ensures::<std::io::Error>(err, r.cause),
    {
        let not_found = io_error_is_not_found(err);
        let cause = err.to_string();
        LaunchFailure { not_found, cause }
    }
}

/// A lookup's result as plain values: the PIDs, or the message.
pub open spec fn result_views(r: Result<Vec<String>, String>) -> Result<Seq<Seq<char>>, Seq<char>> {
    match r {
        Ok(pids) => Ok(string_views(pids@)),
        Err(msg) => Err(msg@),
    }
}

/// What an `lsof` run for `ports` amounts to: the PIDs its output lists, or
/// the message for the failure that kept it from starting.
pub open spec fn unix_lookup(ports: Seq<u16>, output: Result<Vec<u8>, LaunchFailure>) -> Result<
    Seq<Seq<char>>,
    Seq<char>,
> {
    match output {
        Ok(bytes) => Ok(lsof_pids(utf8_lossy(bytes@))),
        Err(failure) => Err(lsof_failure(failure.not_found, port_list(ports), failure.cause@)),
    }
}

/// What a `netstat -ano` run amounts to: the PIDs that its output shows
/// listening on one of `ports`, or the message for the failure to start it.
pub open spec fn windows_lookup(ports: Seq<u16>, output: Result<Vec<u8>, LaunchFailure>) -> Result<
    Seq<Seq<char>>,
    Seq<char>,
> {
    match output {
        Ok(bytes) => Ok(netstat_listener_pids(utf8_lossy(bytes@), ports.to_set())),
        Err(failure) => Err("Failed to execute netstat: "@ + failure.cause@),
    }
}

/// What the lookup on `platform` amounts to: the `netstat` reading on Windows,
/// the `lsof` reading elsewhere.
pub open spec fn platform_lookup(
    platform: Platform,
    ports: Seq<u16>,
    output: Result<Vec<u8>, LaunchFailure>,
) -> Result<Seq<Seq<char>>, Seq<char>> {
    match platform {
        Platform::Windows => windows_lookup(ports, output),
        Platform::Unix => unix_lookup(ports, output),
    }
}

/// A program to run and its arguments.
pub struct LookupCommand {
    pub program: String,
    pub args: Vec<String>,
}

/// The program that looks the ports up on `platform`: `netstat -ano` on
/// Windows, one `lsof` run for all ports elsewhere.
pub fn lookup_command(platform: &Platform, args: &Args) -> (r: LookupCommand)
    ensures
        match platform {
            Platform::Windows => r.program@ == "netstat"@ && string_views(r.args@) == seq![
                "-ano"@,
            ],
            Platform::Unix => r.program@ == "lsof"@ && string_views(r.args@) == lsof_arguments_for(
                port_list(args.ports@),
            ),
        },
{
    match platform {
        Platform::Windows => {
            let mut a: Vec<String> = Vec::new();
            a.push(String::from_str("-ano"));
            assert(string_views(a@) =~= seq!["-ano"@]);
            LookupCommand { program: String::from_str("netstat"), args: a }
        },
        Platform::Unix => {
            let ports_string = lsof_port_list(&args.ports);
            LookupCommand {
                program: String::from_str("lsof"),
                args: lsof_arguments(ports_string.as_str()),
            }
        },
    }
}

/// The set of the requested ports.
pub fn port_set(ports: &Vec<u16>) -> (r: HashSet<u16>)
    ensures
        r@ == ports@.to_set(),
{
    let mut r: HashSet<u16> = HashSet::new();
    let n = ports.len();
    let mut i: usize = 0;
    while i < n
        invariant
            n == ports.len(),
            i <= n,
            r@ == ports@.take(i as int).to_set(),
        decreases n - i,
    {
        let ghost before = r@;
        let p = ports[i];
        r.insert(p);
        i = i + 1;
        let ghost prev = ports@.take(i - 1);
        let ghost cur = ports@.take(i as int);
        assert(r@ == before.insert(p));
        assert forall|x: u16| r@.contains(x) <==> cur.contains(x) by {
            if x == p {
                assert(cur[i - 1] == x);
            } else {
                if prev.contains(x) {
                    let k = choose|k: int| 0 <= k < prev.len() && prev[k] == x;
                    assert(cur[k] == x);
                }
                if cur.contains(x) {
                    let k = choose|k: int| 0 <= k < cur.len() && cur[k] == x;
                    assert(prev[k] == x);
                }
            }
        }
        assert(r@ =~= cur.to_set());
    }
    assert(ports@.take(n as int) =~= ports@);
    r
}

/// The PIDs that listen on the requested ports according to `lsof`, given
/// what running it gave: the bytes it wrote to standard output, or why it
/// could not be started.
pub fn run_unix(args: &Args, output: Result<Vec<u8>, LaunchFailure>) -> (r: Result<
    Vec<String>,
    String,
>)
    ensures
        result_views(r) == unix_lookup(args.ports@, output),
{
    let ports_string = lsof_port_list(&args.ports);
    match output {
        Ok(bytes) => {
            let text = decode_lossy(bytes.as_slice());
            Ok(parse_lsof_pids(text.as_str()))
        },
        Err(failure) => Err(lsof_error_message(&failure, ports_string.as_str())),
    }
}

/// The PIDs that listen on the requested ports according to `netstat -ano`,
/// given what running it gave.
pub fn run_windows(args: &Args, output: Result<Vec<u8>, LaunchFailure>) -> (r: Result<
    Vec<String>,
    String,
>)
    ensures
        result_views(r) == windows_lookup(args.ports@, output),
{
    let target_ports = port_set(&args.ports);
    match output {
        Ok(bytes) => {
            let text = decode_lossy(bytes.as_slice());
            Ok(parse_netstat_listeners(text.as_str(), &target_ports))
        },
        Err(failure) => {
            let mut msg = String::from_str("Failed to execute netstat: ");
            msg.append(failure.cause.as_str());
            Err(msg)
        },
    }
}

/// The PIDs that listen on the requested ports, from the output of the tool
/// that `lookup_command` names for `platform`, or the message that explains why
/// the tool could not be started: `run_windows` on Windows, `run_unix` elsewhere.
pub fn find_pids(platform: &Platform, args: &Args, output: Result<Vec<u8>, LaunchFailure>) -> (r:
    Result<Vec<String>, String>)
    ensures
        result_views(r) == platform_lookup(*platform, args.ports@, output),
{
    match platform {
        Platform::Windows => run_windows(args, output),
        Platform::Unix => run_unix(args, output),
    }
}

} // verus!
