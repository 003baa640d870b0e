//! Contracts for the functions of std and of outside crates that the verified
//! code calls. Nothing here is proved: each contract states what the called
//! function's documentation or source shows.

use vstd::prelude::*;

verus! {

/// `String::push` appends one character to the string.
pub assume_specification[ String::push ](s: &mut String, ch: char)
    ensures
        final(s)@ == old(s)@.push(ch),
;

/// `std::io::Error`, the error of a failed attempt to start a program.
#[verifier::external_type_specification]
#[verifier::external_body]
pub struct ExIoError(std::io::Error);

/// Calls `std::io::Error::kind` and tells whether the kind is `NotFound`, as it
/// is when the program to start does not exist. What the kind of a given error
/// is depends on the operating system's answer, so nothing is stated of it.
#[verifier::external_body]
pub(crate) fn io_error_is_not_found(err: &std::io::Error) -> bool {
    err.kind() == std::io::ErrorKind::NotFound
}

/// The text that `String::from_utf8_lossy` makes of `bytes`: the bytes read as
/// UTF-8, each invalid sequence replaced by U+FFFD.
pub uninterp spec fn utf8_lossy(bytes: Seq<u8>) -> Seq<char>;

/// Calls `String::from_utf8_lossy` on a program's output; the result is the
/// named function of the bytes.
#[verifier::external_body]
pub(crate) fn decode_lossy(bytes: &[u8]) -> (r: String)
    ensures
        r@ == utf8_lossy(bytes@),
{
    String::from_utf8_lossy(bytes).into_owned()
}

/// `sysinfo::System`, the table of the machine's processes as last read.
#[verifier::external_type_specification]
#[verifier::external_body]
pub struct ExSystem(sysinfo::System);

/// Calls `sysinfo::System::new`: a table with nothing read yet.
#[verifier::external_body]
pub(crate) fn new_system() -> sysinfo::System {
    sysinfo::System::new()
}

/// Calls `System::refresh_processes` for the one process `pid` (removing it
/// from the table if it is gone). What the table then holds depends on the
/// machine, so nothing is stated of it.
#[verifier::external_body]
pub(crate) fn refresh_process(sys: &mut sysinfo::System, pid: usize) {
    sys.refresh_processes(sysinfo::ProcessesToUpdate::Some(&[sysinfo::Pid::from(pid)]), true);
}

/// Calls `System::process` for `pid` and, when the table has that process,
/// `Process::name`, lossily converted to a `String`. Whether the process
/// exists and what it is called depend on the machine: nothing is stated.
#[verifier::external_body]
pub(crate) fn process_name(sys: &sysinfo::System, pid: usize) -> Option<String> {
    match sys.process(sysinfo::Pid::from(pid)) {
        Some(p) => Some(p.name().to_string_lossy().into_owned()),
        None => None,
    }
}

/// Calls `Process::kill` (SIGKILL) on the process `pid` of the table, when the
/// table has it: `None` when it does not, else whether the signal was sent.
/// The outcome depends on the machine: nothing is stated.
#[verifier::external_body]
pub(crate) fn kill_process(sys: &sysinfo::System, pid: usize) -> Option<bool> {
    match sys.process(sysinfo::Pid::from(pid)) {
        Some(p) => Some(p.kill()),
        None => None,
    }
}

/// Calls `Process::kill_with(Signal::Term)` on the process `pid` of the table,
/// when the table has it: `None` when it does not, else `Some` of what
/// `kill_with` answered (`None` where the platform has no SIGTERM). The outcome
/// depends on the machine: nothing is stated.
#[verifier::external_body]
pub(crate) fn terminate_process(sys: &sysinfo::System, pid: usize) -> Option<Option<bool>> {
    match sys.process(sysinfo::Pid::from(pid)) {
        Some(p) => Some(p.kill_with(sysinfo::Signal::Term)),
        None => None,
    }
}

/// Prints `sysinfo::Pid::from(pid)` with its `Display`. The `Pid` holds the
/// number as the platform's process ID type (`i32` on Linux and macOS, `usize`
/// on Windows), so it prints the decimal notation of `pid` whenever `pid` fits
/// in an `i32`; above that the text depends on the platform and is not stated.
#[verifier::external_body]
pub(crate) fn pid_label(pid: usize) -> (r: String)
    ensures
        pid <= i32::MAX ==> r@ == crate::text::decimal(pid as nat),
{
    sysinfo::Pid::from(pid).to_string()
}

/// What `str::to_lowercase` makes of `s`: each character replaced by its
/// Unicode lowercase mapping.
pub uninterp spec fn lowercase(s: Seq<char>) -> Seq<char>;

/// Calls `str::to_lowercase`; the result is the named function of the text.
/// Since every character's lowercase mapping is one or more characters, the
/// result is empty exactly when the text is; `y` and `Y` both lower to `y`.
#[verifier::external_body]
pub(crate) fn to_lowercase(s: &str) -> (r: String)
    ensures
        r@ == lowercase(s@),
        r@.len() == 0 <==> s@.len() == 0,
        s@ == "y"@ || s@ == "Y"@ ==> r@ == "y"@,
{
    s.to_lowercase()
}

/// What `{:?}` prints for a list of strings: each string quoted and escaped,
/// comma-separated, in square brackets.
pub uninterp spec fn debug_list(items: Seq<Seq<char>>) -> Seq<char>;

/// Formats `items` with `{:?}`; the result is the named function of the strings.
#[verifier::external_body]
pub(crate) fn debug_strings(items: &[String]) -> (r: String)
    ensures
        r@ == debug_list(crate::text::string_views(items@)),
{
    format!("{:?}", items)
}

} // verus!
