//! Reading the listening sockets out of the text that `netstat -ano` prints on Windows.

use std::collections::HashSet;
use vstd::prelude::*;
use crate::text::{
    add_new, all_ascii_digits, all_digits, char_views, chars_of, dedup, ends_with, ends_with_chars,
    is_text, last_index_of, last_position, lemma_split_lines_nonempty,
    lemma_concat_contains, lemma_dedup_contains, lemma_dedup_no_duplicates,
    lemma_split_lines_concat, lemma_words_nonempty, parse_decimal,
    parse_unsigned, split_lines, string_views, strings_of, words, words_of, decimal,
    lemma_decimal_digits, lemma_digits_exclude, lemma_last_index_before, law_decimal_reads_back,
    is_white_space, is_ascii_digit, lemma_words_concat, lemma_words_single, no_white_space,
};

verus! {

broadcast use vstd::std_specs::hash::group_hash_axioms;

/// The process ID that one row of `netstat -ano`, split into its columns,
/// names as listening on one of `ports`. A row counts when it has exactly the
/// five columns Proto, Local Address, Foreign Address, State and PID; its
/// protocol is `TCP`; its state is `LISTENING` or its foreign address ends in
/// `:0` (only listening sockets have the wildcard foreign address, and the
/// state is translated on localized systems); its PID is neither `0` nor `4`
/// (the kernel's); the text after the last `:` of its local address reads as a
/// port in `ports`; and its PID is all ASCII digits.
pub open spec fn listener_pid(cols: Seq<Seq<char>>, ports: Set<u16>) -> Option<Seq<char>> {
    if cols.len() != 5 || cols[0] != "TCP"@ {
        None
    } else if cols[3] != "LISTENING"@ && !ends_with(cols[2], ":0"@) {
        None
    } else if cols[4] == "0"@ || cols[4] == "4"@ {
        None
    } else {
        match last_index_of(cols[1], ':') {
            None => None,
            Some(pos) => match parse_unsigned(cols[1].skip(pos + 1), 65535) {
                Some(port) => if ports.contains(port as u16) && all_ascii_digits(cols[4]) {
                    Some(cols[4])
                } else {
                    None
                },
                None => None,
            },
        }
    }
}

/// The listener PIDs of `lines`, line by line in order, repeats included.
pub open spec fn listener_pids_of_lines(lines: Seq<Seq<char>>, ports: Set<u16>) -> Seq<Seq<char>>
    decreases lines.len(),
{
    if lines.len() == 0 {
        Seq::empty()
    } else {
        let prev = listener_pids_of_lines(lines.drop_last(), ports);
        match listener_pid(words(lines.last()), ports) {
            Some(pid) => prev.push(pid),
            None => prev,
        }
    }
}

/// The PIDs that the `netstat -ano` output `out` shows listening on one of
/// `ports`, each once, in the order of their first row.
pub open spec fn netstat_listener_pids(out: Seq<char>, ports: Set<u16>) -> Seq<Seq<char>> {
    dedup(listener_pids_of_lines(split_lines(out), ports))
}

/// The listener PID of one row of `netstat -ano` output, split into columns.
pub fn row_listener_pid(cols: &Vec<Vec<char>>, ports: &HashSet<u16>) -> (r: Option<Vec<char>>)
    ensures
        match r {
            Some(pid) => listener_pid(char_views(cols@), ports@) == Some(pid@),
            None => listener_pid(char_views(cols@), ports@) is None,
        },
{
    let ghost c = char_views(cols@);
    assert(forall|k: int| 0 <= k < cols@.len() ==> #[trigger] c[k] == cols@[k]@);
    if cols.len() != 5 || !is_text(&cols[0], "TCP") {
        return None;
    }
    let colon_zero = chars_of(":0");
    if !is_text(&cols[3], "LISTENING") && !ends_with_chars(&cols[2], &colon_zero) {
        return None;
    }
    if is_text(&cols[4], "0") || is_text(&cols[4], "4") {
        return None;
    }
    let local = &cols[1];
    let pos = match last_position(local, ':') {
        Some(pos) => pos,
        None => {
            return None;
        },
    };
    assert(pos < local.len());
    let port = match parse_decimal(local, pos + 1, 65535) {
        Some(port) => port as u16,
        None => {
            return None;
        },
    };
    let pid = &cols[4];
    if !ports.contains(&port) {
        return None;
    }
    if !all_digits(pid) {
        return None;
    }
    Some(pid.clone())
}

/// The PIDs that `netstat -ano` output shows listening on one of
/// `target_ports`, each once. A Windows `netstat` table looks like
/// `  TCP    0.0.0.0:3000   0.0.0.0:0   LISTENING   1111`.
pub fn parse_netstat_listeners(stdout: &str, target_ports: &HashSet<u16>) -> (r: Vec<String>)
    ensures
        string_views(r@) == netstat_listener_pids(stdout@, target_ports@),
{
    let text = chars_of(stdout);
    let n = text.len();
    let mut found: Vec<Vec<char>> = Vec::new();
    let mut line: Vec<char> = Vec::new();
    let mut i: usize = 0;
    assert(text@.take(0) =~= Seq::<char>::empty());
    while i < n
        invariant
            n == text.len(),
            i <= n,
            line@ == split_lines(text@.take(i as int)).last(),
            char_views(found@) == dedup(
                listener_pids_of_lines(
                    split_lines(text@.take(i as int)).drop_last(),
                    target_ports@,
                ),
            ),
        decreases n - i,
    {
        let c = text[i];
        let ghost prev_lines = split_lines(text@.take(i as int));
        assert(text@.take(i + 1).drop_last() == text@.take(i as int));
        proof {
            lemma_split_lines_nonempty(text@.take(i as int));
        }
        if c == '\n' {
            take_row(&mut found, &line, target_ports, Ghost(prev_lines.drop_last()));
            line = Vec::new();
            let ghost next_lines = split_lines(text@.take(i + 1));
            assert(next_lines.drop_last() == prev_lines);
            assert(prev_lines == prev_lines.drop_last().push(prev_lines.last()));
        } else {
            line.push(c);
            let ghost next_lines = split_lines(text@.take(i + 1));
            assert(next_lines.drop_last() =~= prev_lines.drop_last());
        }
        i = i + 1;
    }
    let ghost last_lines = split_lines(text@.take(n as int));
    take_row(&mut found, &line, target_ports, Ghost(last_lines.drop_last()));
    proof {
        let lines = split_lines(text@.take(n as int));
        lemma_split_lines_nonempty(text@.take(n as int));
        assert(lines == lines.drop_last().push(lines.last()));
        assert(text@.take(n as int) == text@);
    }
    strings_of(&found)
}

/// Adds the listener PID of `line`, if it has one that `found` lacks.
fn take_row(
    found: &mut Vec<Vec<char>>,
    line: &Vec<char>,
    ports: &HashSet<u16>,
    Ghost(lines): Ghost<Seq<Seq<char>>>,
)
    requires
        char_views(old(found)@) == dedup(listener_pids_of_lines(lines, ports@)),
    ensures
        char_views(final(found)@) == dedup(listener_pids_of_lines(lines.push(line@), ports@)),
{
    let cols = words_of(line);
    let pid = row_listener_pid(&cols, ports);
    let ghost all = lines.push(line@);
    assert(all.drop_last() =~= lines);
    assert(all.last() == line@);
    let ghost cands = listener_pids_of_lines(lines, ports@);
    match pid {
        Some(pid) => {
            assert(cands.push(pid@).drop_last() =~= cands);
            add_new(found, pid);
        },
        None => {},
    }
}

/// With the ports of two sets asked for, a row names the PID that one of the
/// two sets alone gives.
proof fn lemma_listener_pid_union(cols: Seq<Seq<char>>, p: Set<u16>, q: Set<u16>)
    ensures
        listener_pid(cols, p.union(q)) == if listener_pid(cols, p) is Some {
            listener_pid(cols, p)
        } else {
            listener_pid(cols, q)
        },
{
}

proof fn lemma_listener_pids_union(lines: Seq<Seq<char>>, p: Set<u16>, q: Set<u16>, x: Seq<char>)
    ensures
        listener_pids_of_lines(lines, p.union(q)).contains(x) <==> (listener_pids_of_lines(
            lines,
            p,
        ).contains(x) || listener_pids_of_lines(lines, q).contains(x)),
    decreases lines.len(),
{
    if lines.len() > 0 {
        let prev = lines.drop_last();
        lemma_listener_pids_union(prev, p, q, x);
        let cols = words(lines.last());
        lemma_listener_pid_union(cols, p, q);
        lemma_push_contains(listener_pids_of_lines(prev, p.union(q)), listener_pid(cols, p.union(q)), x);
        lemma_push_contains(listener_pids_of_lines(prev, p), listener_pid(cols, p), x);
        lemma_push_contains(listener_pids_of_lines(prev, q), listener_pid(cols, q), x);
    }
}

/// Membership after pushing an optional element.
proof fn lemma_push_contains(s: Seq<Seq<char>>, e: Option<Seq<char>>, x: Seq<char>)
    ensures
        (match e {
            Some(v) => s.push(v),
            None => s,
        }).contains(x) <==> (s.contains(x) || e == Some(x)),
{
    match e {
        Some(v) => {
            let t = s.push(v);
            if s.contains(x) {
                let i = choose|i: int| 0 <= i < s.len() && s[i] == x;
                assert(t[i] == x);
            }
            if t.contains(x) && v != x {
                let i = choose|i: int| 0 <= i < t.len() && t[i] == x;
                assert(s[i] == x);
            }
            assert(t[s.len() as int] == v);
        },
        None => {},
    }
}

/// Asking for the ports of two sets at once finds exactly the PIDs that
/// asking for each set finds.
pub proof fn law_netstat_ports_union(out: Seq<char>, p: Set<u16>, q: Set<u16>)
    ensures
        netstat_listener_pids(out, p.union(q)).to_set() == netstat_listener_pids(out, p).to_set().union(
            netstat_listener_pids(out, q).to_set(),
        ),
{
    let lines = split_lines(out);
    assert forall|x: Seq<char>|
        netstat_listener_pids(out, p.union(q)).to_set().contains(x) <==> netstat_listener_pids(
            out,
            p,
        ).to_set().union(netstat_listener_pids(out, q).to_set()).contains(x) by {
        lemma_listener_pids_union(lines, p, q, x);
        lemma_dedup_contains(listener_pids_of_lines(lines, p.union(q)), x);
        lemma_dedup_contains(listener_pids_of_lines(lines, p), x);
        lemma_dedup_contains(listener_pids_of_lines(lines, q), x);
    }
    assert(netstat_listener_pids(out, p.union(q)).to_set() =~= netstat_listener_pids(out, p).to_set().union(
        netstat_listener_pids(out, q).to_set(),
    ));
}

proof fn lemma_listener_pids_shape(lines: Seq<Seq<char>>, ports: Set<u16>, i: int)
    requires
        0 <= i < listener_pids_of_lines(lines, ports).len(),
    ensures
        ({
            let pid = listener_pids_of_lines(lines, ports)[i];
            pid.len() > 0 && all_ascii_digits(pid) && pid != "0"@ && pid != "4"@
        }),
    decreases lines.len(),
{
    let prev = listener_pids_of_lines(lines.drop_last(), ports);
    if i < prev.len() {
        lemma_listener_pids_shape(lines.drop_last(), ports, i);
    } else {
        let cols = words(lines.last());
        lemma_words_nonempty(lines.last());
        assert(cols[4].len() > 0);
    }
}

/// Every PID that the netstat reading reports is a non-empty run of ASCII
/// digits, never the kernel's `0` or `4`, and none is reported twice.
pub proof fn law_netstat_pids_shape(out: Seq<char>, ports: Set<u16>)
    ensures
        netstat_listener_pids(out, ports).no_duplicates(),
        forall|i: int|
            0 <= i < netstat_listener_pids(out, ports).len() ==> {
                let pid = #[trigger] netstat_listener_pids(out, ports)[i];
                pid.len() > 0 && all_ascii_digits(pid) && pid != "0"@ && pid != "4"@
            },
{
    let cands = listener_pids_of_lines(split_lines(out), ports);
    lemma_dedup_no_duplicates(cands);
    assert forall|i: int| 0 <= i < dedup(cands).len() implies {
        let pid = #[trigger] dedup(cands)[i];
        pid.len() > 0 && all_ascii_digits(pid) && pid != "0"@ && pid != "4"@
    } by {
        let pid = dedup(cands)[i];
        assert(dedup(cands).contains(pid));
        lemma_dedup_contains(cands, pid);
        let k = choose|k: int| 0 <= k < cands.len() && cands[k] == pid;
        lemma_listener_pids_shape(split_lines(out), ports, k);
    }
}

/// Without ports asked for, nothing is found.
pub proof fn law_netstat_no_ports(out: Seq<char>)
    ensures
        netstat_listener_pids(out, Set::<u16>::empty()).len() == 0,
{
    lemma_no_ports(split_lines(out));
}

proof fn lemma_no_ports(lines: Seq<Seq<char>>)
    ensures
        listener_pids_of_lines(lines, Set::<u16>::empty()).len() == 0,
    decreases lines.len(),
{
    if lines.len() > 0 {
        lemma_no_ports(lines.drop_last());
    }
}

proof fn lemma_listener_pids_concat(l1: Seq<Seq<char>>, l2: Seq<Seq<char>>, ports: Set<u16>)
    ensures
        listener_pids_of_lines(l1 + l2, ports) == listener_pids_of_lines(l1, ports)
            + listener_pids_of_lines(l2, ports),
    decreases l2.len(),
{
    if l2.len() == 0 {
        assert(l1 + l2 =~= l1);
        assert(listener_pids_of_lines(l1, ports) + listener_pids_of_lines(l2, ports)
            =~= listener_pids_of_lines(l1, ports));
    } else {
        lemma_listener_pids_concat(l1, l2.drop_last(), ports);
        assert((l1 + l2).drop_last() =~= l1 + l2.drop_last());
        assert((l1 + l2).last() == l2.last());
        let p1 = listener_pids_of_lines(l1, ports);
        let p2 = listener_pids_of_lines(l2.drop_last(), ports);
        match listener_pid(words(l2.last()), ports) {
            Some(pid) => {
                assert((p1 + p2).push(pid) =~= p1 + p2.push(pid));
            },
            None => {},
        }
    }
}

/// Each row is read on its own: reading two outputs joined by a line break
/// finds exactly the PIDs that reading each finds.
pub proof fn law_netstat_concat(a: Seq<char>, b: Seq<char>, ports: Set<u16>)
    ensures
        netstat_listener_pids(a + seq!['\n'] + b, ports).to_set() == netstat_listener_pids(
            a,
            ports,
        ).to_set().union(netstat_listener_pids(b, ports).to_set()),
{
    lemma_split_lines_concat(a, b);
    let la = split_lines(a);
    let lb = split_lines(b);
    lemma_listener_pids_concat(la, lb, ports);
    let ca = listener_pids_of_lines(la, ports);
    let cb = listener_pids_of_lines(lb, ports);
    let joined = a + seq!['\n'] + b;
    assert forall|x: Seq<char>|
        netstat_listener_pids(joined, ports).to_set().contains(x) <==> netstat_listener_pids(
            a,
            ports,
        ).to_set().union(netstat_listener_pids(b, ports).to_set()).contains(x) by {
        lemma_dedup_contains(ca + cb, x);
        lemma_dedup_contains(ca, x);
        lemma_dedup_contains(cb, x);
        lemma_concat_contains(ca, cb, x);
    }
    assert(netstat_listener_pids(joined, ports).to_set() =~= netstat_listener_pids(a, ports).to_set().union(
        netstat_listener_pids(b, ports).to_set(),
    ));
}

/// A TCP row in the LISTENING state whose local address ends in `:` and the
/// decimal notation of a requested port, whatever port in the whole `u16`
/// range, names its PID (when the PID is digits and not the kernel's).
pub proof fn law_listening_row_names_pid(
    host: Seq<char>,
    foreign: Seq<char>,
    port: u16,
    pid: Seq<char>,
    ports: Set<u16>,
)
    requires
        ports.contains(port),
        pid.len() > 0,
        all_ascii_digits(pid),
        pid != "0"@,
        pid != "4"@,
    ensures
        listener_pid(
            seq!["TCP"@, host + ":"@ + decimal(port as nat), foreign, "LISTENING"@, pid],
            ports,
        ) == Some(pid),
{
    reveal_strlit(":");
    let d = decimal(port as nat);
    let local = host + seq![':'] + d;
    assert(host + ":"@ + d == local);
    lemma_decimal_digits(port as nat);
    lemma_digits_exclude(d, ':');
    lemma_last_index_before(host, ':', d);
    assert(local.skip(host.len() as int + 1) =~= d);
    law_decimal_reads_back(port as nat, 65535);
    let cols = seq!["TCP"@, local, foreign, "LISTENING"@, pid];
    assert(cols[1] == local);
}

proof fn lemma_listener_pids_contains(lines: Seq<Seq<char>>, ports: Set<u16>, i: int)
    requires
        0 <= i < lines.len(),
        listener_pid(words(lines[i]), ports) is Some,
    ensures
        listener_pids_of_lines(lines, ports).contains(listener_pid(words(lines[i]), ports)->0),
    decreases lines.len(),
{
    let prev = lines.drop_last();
    let x = listener_pid(words(lines[i]), ports)->0;
    if i < lines.len() - 1 {
        assert(prev[i] == lines[i]);
        lemma_listener_pids_contains(prev, ports, i);
        let c = listener_pids_of_lines(prev, ports);
        let k = choose|k: int| 0 <= k < c.len() && c[k] == x;
        lemma_push_contains(c, listener_pid(words(lines.last()), ports), x);
    } else {
        lemma_push_contains(
            listener_pids_of_lines(prev, ports),
            listener_pid(words(lines.last()), ports),
            x,
        );
    }
}

/// Every line of the output that names a listener PID has that PID reported.
pub proof fn law_netstat_reports_every_listener(out: Seq<char>, ports: Set<u16>, i: int)
    requires
        0 <= i < split_lines(out).len(),
        listener_pid(words(split_lines(out)[i]), ports) is Some,
    ensures
        netstat_listener_pids(out, ports).contains(
            listener_pid(words(split_lines(out)[i]), ports)->0,
        ),
{
    let lines = split_lines(out);
    lemma_listener_pids_contains(lines, ports, i);
    lemma_dedup_contains(
        listener_pids_of_lines(lines, ports),
        listener_pid(words(lines[i]), ports)->0,
    );
}

/// A line of `netstat -ano` output reading `TCP <host>:<port> <foreign>
/// LISTENING <pid>`, with single spaces between the columns, a requested port
/// in the whole `u16` range, and a digit PID that is not the kernel's, has its
/// PID reported.
pub proof fn law_netstat_finds_listening_line(
    out: Seq<char>,
    ports: Set<u16>,
    i: int,
    host: Seq<char>,
    foreign: Seq<char>,
    port: u16,
    pid: Seq<char>,
)
    requires
        0 <= i < split_lines(out).len(),
        split_lines(out)[i] == "TCP"@ + seq![' '] + (host + ":"@ + decimal(port as nat)) + seq![' ']
            + foreign + seq![' '] + "LISTENING"@ + seq![' '] + pid,
        no_white_space(host),
        foreign.len() > 0,
        no_white_space(foreign),
        ports.contains(port),
        pid.len() > 0,
        all_ascii_digits(pid),
        pid != "0"@,
        pid != "4"@,
    ensures
        netstat_listener_pids(out, ports).contains(pid),
{
    reveal_strlit("TCP");
    reveal_strlit("LISTENING");
    reveal_strlit(":");
    let sp = ' ';
    assert(is_white_space(sp));
    let t = "TCP"@;
    let st = "LISTENING"@;
    let d = decimal(port as nat);
    let local = host + ":"@ + d;
    assert(t =~= seq!['T', 'C', 'P']);
    assert(st =~= seq!['L', 'I', 'S', 'T', 'E', 'N', 'I', 'N', 'G']);
    assert(no_white_space(t));
    assert(no_white_space(st));
    lemma_decimal_digits(port as nat);
    assert(no_white_space(local)) by {
        assert(local =~= host + seq![':'] + d);
        assert forall|k: int| 0 <= k < local.len() implies !is_white_space(#[trigger] local[k]) by {
            if k < host.len() {
                assert(local[k] == host[k]);
            } else if k == host.len() {
                assert(local[k] == ':');
            } else {
                assert(local[k] == d[k - host.len() - 1]);
                assert(is_ascii_digit(d[k - host.len() - 1]));
            }
        }
    }
    assert(no_white_space(pid)) by {
        assert forall|k: int| 0 <= k < pid.len() implies !is_white_space(#[trigger] pid[k]) by {
            assert(is_ascii_digit(pid[k]));
        }
    }
    lemma_words_single(t);
    lemma_words_single(local);
    lemma_words_single(foreign);
    lemma_words_single(st);
    lemma_words_single(pid);
    let x1 = t + seq![sp] + local;
    let x2 = x1 + seq![sp] + foreign;
    let x3 = x2 + seq![sp] + st;
    let line = x3 + seq![sp] + pid;
    lemma_words_concat(t, sp, local);
    lemma_words_concat(x1, sp, foreign);
    lemma_words_concat(x2, sp, st);
    lemma_words_concat(x3, sp, pid);
    let cols = seq![t, local, foreign, st, pid];
    assert(words(line) =~= cols);
    assert(split_lines(out)[i] == line);
    law_listening_row_names_pid(host, foreign, port, pid, ports);
    law_netstat_reports_every_listener(out, ports, i);
}

} // verus!
