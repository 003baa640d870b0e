//! Asking `lsof` for the processes that listen on TCP ports (Linux and macOS),
//! and reading its answer.

use vstd::prelude::*;
use crate::lookup::LaunchFailure;
use crate::text::{
    add_new, all_ascii_digits, all_digits, char_views, chars_of, decimal, decimal_string, dedup,
    lemma_concat_contains, lemma_dedup_contains, lemma_dedup_no_duplicates, lemma_split_lines_concat,
    lemma_split_lines_nonempty, split_lines, string_views, strings_of, trim, trim_bounds,
    lemma_decimal_digits, lemma_digits_exclude, lemma_split_lines_single, lemma_split_on_concat,
    lemma_split_on_single, lemma_trim_digits, split_on,
};

verus! {

/// The PID on one line of `lsof -t` output: the line without surrounding white
/// space, when that is a non-empty run of ASCII digits.
pub open spec fn lsof_line_pid(line: Seq<char>) -> Option<Seq<char>> {
    let t = trim(line);
    if t.len() > 0 && all_ascii_digits(t) {
        Some(t)
    } else {
        None
    }
}

/// The PIDs on `lines`, line by line in order, repeats included.
pub open spec fn lsof_pids_of_lines(lines: Seq<Seq<char>>) -> Seq<Seq<char>>
    decreases lines.len(),
{
    if lines.len() == 0 {
        Seq::empty()
    } else {
        let prev = lsof_pids_of_lines(lines.drop_last());
        match lsof_line_pid(lines.last()) {
            Some(pid) => prev.push(pid),
            None => prev,
        }
    }
}

/// The PIDs that `lsof -t` output lists, each once, in the order of first appearance.
pub open spec fn lsof_pids(out: Seq<char>) -> Seq<Seq<char>> {
    dedup(lsof_pids_of_lines(split_lines(out)))
}

/// The ports in decimal, separated by commas, as `lsof -i` takes them.
pub open spec fn port_list(ports: Seq<u16>) -> Seq<char>
    decreases ports.len(),
{
    if ports.len() == 0 {
        Seq::empty()
    } else if ports.len() == 1 {
        decimal(ports[0] as nat)
    } else {
        port_list(ports.drop_last()) + seq![','] + decimal(ports.last() as nat)
    }
}

/// The arguments of the one `lsof` run that looks up all the ports: PIDs only,
/// TCP sockets on the listed ports, in the LISTEN state.
pub open spec fn lsof_arguments_for(ports_string: Seq<char>) -> Seq<Seq<char>> {
    seq!["-t"@, "-iTCP:"@ + ports_string, "-sTCP:LISTEN"@]
}

/// The message for a failed start of `lsof`: an installation hint when the
/// program was not found, else the ports and the cause.
pub open spec fn lsof_failure(not_found: bool, ports_string: Seq<char>, cause: Seq<char>) -> Seq<
    char,
> {
    if not_found {
        "lsof was not found, but portcull needs it to look up ports on Linux/macOS. Install it with your package manager (e.g. `apt install lsof`, `dnf install lsof` or `apk add lsof`) and try again."@
    } else {
        "Failed to execute lsof for ports "@ + ports_string + ": "@ + cause
    }
}

/// The ports in decimal, separated by commas.
pub fn lsof_port_list(ports: &Vec<u16>) -> (r: String)
    ensures
        r@ == port_list(ports@),
{
    let mut r = String::new();
    let n = ports.len();
    let mut i: usize = 0;
    while i < n
        invariant
            n == ports.len(),
            i <= n,
            r@ == port_list(ports@.take(i as int)),
        decreases n - i,
    {
        let ghost next = ports@.take(i + 1);
        assert(next.drop_last() =~= ports@.take(i as int));
        let d = decimal_string(ports[i] as u64);
        let ghost before = r@;
        if i > 0 {
            proof {
                reveal_strlit(",");
            }
            r.append(",");
            assert(r@ == before + seq![',']);
        }
        r.append(d.as_str());
        assert(next.last() == ports@[i as int]);
        if i == 0 {
            assert(r@ =~= d@);
        }
        i = i + 1;
    }
    assert(ports@.take(n as int) =~= ports@);
    r
}

/// The arguments to run `lsof` with for the comma-separated `ports_string`.
pub fn lsof_arguments(ports_string: &str) -> (r: Vec<String>)
    ensures
        string_views(r@) == lsof_arguments_for(ports_string@),
{
    let mut port_arg = String::from_str("-iTCP:");
    port_arg.append(ports_string);
    let mut r: Vec<String> = Vec::new();
    r.push(String::from_str("-t"));
    r.push(port_arg);
    r.push(String::from_str("-sTCP:LISTEN"));
    assert(string_views(r@) =~= lsof_arguments_for(ports_string@));
    r
}

/// The message for an `lsof` that could not be started: since `lsof` is
/// missing from many minimal systems, a missing program gets an installation
/// hint; any other failure is reported with the ports and its cause.
pub fn lsof_error_message(failure: &LaunchFailure, ports_string: &str) -> (r: String)
    ensures
        r@ == lsof_failure(failure.not_found, ports_string@, failure.cause@),
{
    if failure.not_found {
        String::from_str(
            "lsof was not found, but portcull needs it to look up ports on Linux/macOS. Install it with your package manager (e.g. `apt install lsof`, `dnf install lsof` or `apk add lsof`) and try again.",
        )
    } else {
        let mut r = String::from_str("Failed to execute lsof for ports ");
        r.append(ports_string);
        r.append(": ");
        r.append(failure.cause.as_str());
        r
    }
}

/// The PIDs that `lsof -t` output lists, each once.
pub fn parse_lsof_pids(stdout: &str) -> (r: Vec<String>)
    ensures
        string_views(r@) == lsof_pids(stdout@),
{
    let text = chars_of(stdout);
    let n = text.len();
    let mut found: Vec<Vec<char>> = Vec::new();
    let mut line: Vec<char> = Vec::new();
    let mut i: usize = 0;
    assert(text@.take(0) =~= Seq::<char>::empty());
    while i < n
        invariant
            n == text.len(),
            i <= n,
            line@ == split_lines(text@.take(i as int)).last(),
            char_views(found@) == dedup(
                lsof_pids_of_lines(split_lines(text@.take(i as int)).drop_last()),
            ),
        decreases n - i,
    {
        let c = text[i];
        let ghost prev_lines = split_lines(text@.take(i as int));
        assert(text@.take(i + 1).drop_last() == text@.take(i as int));
        proof {
            lemma_split_lines_nonempty(text@.take(i as int));
        }
        if c == '\n' {
            take_line(&mut found, &line, Ghost(prev_lines.drop_last()));
            line = Vec::new();
            let ghost next_lines = split_lines(text@.take(i + 1));
            assert(next_lines.drop_last() == prev_lines);
            assert(prev_lines == prev_lines.drop_last().push(prev_lines.last()));
        } else {
            line.push(c);
            let ghost next_lines = split_lines(text@.take(i + 1));
            assert(next_lines.drop_last() =~= prev_lines.drop_last());
        }
        i = i + 1;
    }
    let ghost last_lines = split_lines(text@.take(n as int));
    take_line(&mut found, &line, Ghost(last_lines.drop_last()));
    proof {
        lemma_split_lines_nonempty(text@.take(n as int));
        assert(last_lines == last_lines.drop_last().push(last_lines.last()));
        assert(text@.take(n as int) == text@);
    }
    strings_of(&found)
}

/// Adds the PID on `line`, if it has one that `found` lacks.
fn take_line(found: &mut Vec<Vec<char>>, line: &Vec<char>, Ghost(lines): Ghost<Seq<Seq<char>>>)
    requires
        char_views(old(found)@) == dedup(lsof_pids_of_lines(lines)),
    ensures
        char_views(final(found)@) == dedup(lsof_pids_of_lines(lines.push(line@))),
{
    let ghost all = lines.push(line@);
    assert(all.drop_last() =~= lines);
    assert(all.last() == line@);
    let ghost cands = lsof_pids_of_lines(lines);
    let (a, b) = trim_bounds(line);
    if a < b {
        let mut pid: Vec<char> = Vec::new();
        let mut k = a;
        while k < b
            invariant
                a <= k <= b <= line.len(),
                pid@ == line@.subrange(a as int, k as int),
            decreases b - k,
        {
            pid.push(line[k]);
            k = k + 1;
            assert(pid@ =~= line@.subrange(a as int, k as int));
        }
        if all_digits(&pid) {
            assert(cands.push(pid@).drop_last() =~= cands);
            add_new(found, pid);
        }
    }
}

proof fn lemma_lsof_pids_shape(lines: Seq<Seq<char>>, i: int)
    requires
        0 <= i < lsof_pids_of_lines(lines).len(),
    ensures
        ({
            let pid = lsof_pids_of_lines(lines)[i];
            pid.len() > 0 && all_ascii_digits(pid)
        }),
    decreases lines.len(),
{
    if i < lsof_pids_of_lines(lines.drop_last()).len() {
        lemma_lsof_pids_shape(lines.drop_last(), i);
    }
}

/// Every PID that the `lsof` reading reports is a non-empty run of ASCII
/// digits, and none is reported twice.
pub proof fn law_lsof_pids_shape(out: Seq<char>)
    ensures
        lsof_pids(out).no_duplicates(),
        forall|i: int|
            0 <= i < lsof_pids(out).len() ==> {
                let pid = #[trigger] lsof_pids(out)[i];
                pid.len() > 0 && all_ascii_digits(pid)
            },
{
    let cands = lsof_pids_of_lines(split_lines(out));
    lemma_dedup_no_duplicates(cands);
    assert forall|i: int| 0 <= i < dedup(cands).len() implies {
        let pid = #[trigger] dedup(cands)[i];
        pid.len() > 0 && all_ascii_digits(pid)
    } by {
        let pid = dedup(cands)[i];
        assert(dedup(cands).contains(pid));
        lemma_dedup_contains(cands, pid);
        let k = choose|k: int| 0 <= k < cands.len() && cands[k] == pid;
        lemma_lsof_pids_shape(split_lines(out), k);
    }
}

proof fn lemma_lsof_pids_concat(l1: Seq<Seq<char>>, l2: Seq<Seq<char>>)
    ensures
        lsof_pids_of_lines(l1 + l2) == lsof_pids_of_lines(l1) + lsof_pids_of_lines(l2),
    decreases l2.len(),
{
    if l2.len() == 0 {
        assert(l1 + l2 =~= l1);
        assert(lsof_pids_of_lines(l1) + lsof_pids_of_lines(l2) =~= lsof_pids_of_lines(l1));
    } else {
        lemma_lsof_pids_concat(l1, l2.drop_last());
        assert((l1 + l2).drop_last() =~= l1 + l2.drop_last());
        assert((l1 + l2).last() == l2.last());
        let p1 = lsof_pids_of_lines(l1);
        let p2 = lsof_pids_of_lines(l2.drop_last());
        match lsof_line_pid(l2.last()) {
            Some(pid) => {
                assert((p1 + p2).push(pid) =~= p1 + p2.push(pid));
            },
            None => {},
        }
    }
}

/// Each line is read on its own: reading two `lsof` outputs joined by a line
/// break finds exactly the PIDs that reading each finds.
pub proof fn law_lsof_concat(a: Seq<char>, b: Seq<char>)
    ensures
        lsof_pids(a + seq!['\n'] + b).to_set() == lsof_pids(a).to_set().union(lsof_pids(b).to_set()),
{
    lemma_split_lines_concat(a, b);
    let la = split_lines(a);
    let lb = split_lines(b);
    lemma_lsof_pids_concat(la, lb);
    let ca = lsof_pids_of_lines(la);
    let cb = lsof_pids_of_lines(lb);
    let joined = a + seq!['\n'] + b;
    assert forall|x: Seq<char>|
        lsof_pids(joined).to_set().contains(x) <==> lsof_pids(a).to_set().union(
            lsof_pids(b).to_set(),
        ).contains(x) by {
        lemma_dedup_contains(ca + cb, x);
        lemma_dedup_contains(ca, x);
        lemma_dedup_contains(cb, x);
        lemma_concat_contains(ca, cb, x);
    }
    assert(lsof_pids(joined).to_set() =~= lsof_pids(a).to_set().union(lsof_pids(b).to_set()));
}

proof fn lemma_lsof_pids_contains(lines: Seq<Seq<char>>, i: int)
    requires
        0 <= i < lines.len(),
        trim(lines[i]).len() > 0,
        all_ascii_digits(trim(lines[i])),
    ensures
        lsof_pids_of_lines(lines).contains(trim(lines[i])),
    decreases lines.len(),
{
    let prev = lines.drop_last();
    let x = trim(lines[i]);
    let c = lsof_pids_of_lines(prev);
    if i < lines.len() - 1 {
        assert(prev[i] == lines[i]);
        lemma_lsof_pids_contains(prev, i);
        let k = choose|k: int| 0 <= k < c.len() && c[k] == x;
        match lsof_line_pid(lines.last()) {
            Some(v) => {
                assert(c.push(v)[k] == x);
            },
            None => {},
        }
    } else {
        assert(c.push(x)[c.len() as int] == x);
    }
}

/// Every line of `lsof -t` output whose text, white space aside, is a
/// non-empty run of digits, of any length, has that PID reported.
pub proof fn law_lsof_reports_every_pid_line(out: Seq<char>, i: int)
    requires
        0 <= i < split_lines(out).len(),
        trim(split_lines(out)[i]).len() > 0,
        all_ascii_digits(trim(split_lines(out)[i])),
    ensures
        lsof_pids(out).contains(trim(split_lines(out)[i])),
{
    let lines = split_lines(out);
    lemma_lsof_pids_contains(lines, i);
    lemma_dedup_contains(lsof_pids_of_lines(lines), trim(lines[i]));
}

/// The output that names one process, whatever its PID, reads as that PID alone.
pub proof fn law_lsof_single_pid(n: nat)
    ensures
        lsof_pids(decimal(n)) == seq![decimal(n)],
{
    let d = decimal(n);
    lemma_decimal_digits(n);
    lemma_digits_exclude(d, '\n');
    lemma_split_lines_single(d);
    lemma_trim_digits(d);
    let lines = seq![d];
    let e = Seq::<Seq<char>>::empty();
    assert(lines.drop_last() =~= e);
    assert(lsof_pids_of_lines(e).len() == 0);
    assert(lsof_pids_of_lines(e) =~= e);
    assert(lines.last() == d);
    assert(lsof_line_pid(d) == Some(d));
    assert(e.push(d) =~= seq![d]);
    assert(lsof_pids_of_lines(lines) == seq![d]);
    assert(seq![d].drop_last() =~= e);
    assert(dedup(e) == e);
    assert(!e.contains(d));
}

/// The port list names every requested port, in order: cut at its commas, it
/// gives the decimal notation of each port, one field per port.
pub proof fn law_port_list_fields(ports: Seq<u16>)
    requires
        ports.len() > 0,
    ensures
        split_on(port_list(ports), ',') == ports.map_values(|p: u16| decimal(p as nat)),
    decreases ports.len(),
{
    let d = decimal(ports.last() as nat);
    lemma_decimal_digits(ports.last() as nat);
    lemma_digits_exclude(d, ',');
    lemma_split_on_single(d, ',');
    if ports.len() == 1 {
        assert(ports.last() == ports[0]);
        assert(ports.map_values(|p: u16| decimal(p as nat)) =~= seq![d]);
    } else {
        let rest = ports.drop_last();
        law_port_list_fields(rest);
        lemma_split_on_concat(port_list(rest), d, ',');
        assert(port_list(ports) == port_list(rest) + seq![','] + d);
        assert(ports.map_values(|p: u16| decimal(p as nat)) =~= rest.map_values(
            |p: u16| decimal(p as nat),
        ) + seq![d]);
    }
}

} // verus!
