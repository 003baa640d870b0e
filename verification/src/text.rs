//! Character-level text handling: whitespace, lines, words and decimal numbers.

use vstd::prelude::*;

verus! {

/// Whether `c` has the Unicode `White_Space` property, which is what
/// `char::is_whitespace` tests.
pub open spec fn is_white_space(c: char) -> bool {
    let n = c as u32;
    ||| 0x09 <= n <= 0x0d
    ||| n == 0x20
    ||| n == 0x85
    ||| n == 0xa0
    ||| n == 0x1680
    ||| 0x2000 <= n <= 0x200a
    ||| n == 0x2028
    ||| n == 0x2029
    ||| n == 0x202f
    ||| n == 0x205f
    ||| n == 0x3000
}

/// The pieces of `s` between `'\n'` characters, in order. There is always at
/// least one piece; a string ending in `'\n'` has an empty last piece.
/// (`str::lines` also drops a `'\r'` before each `'\n'` and a last empty
/// piece; since `'\r'` is white space and an empty line has no words, the
/// lines' words and trimmed texts are the same either way.)
pub open spec fn split_lines(s: Seq<char>) -> Seq<Seq<char>>
    decreases s.len(),
{
    if s.len() == 0 {
        seq![Seq::<char>::empty()]
    } else {
        let prev = split_lines(s.drop_last());
        if s.last() == '\n' {
            prev.push(Seq::<char>::empty())
        } else {
            prev.update(prev.len() - 1, prev.last().push(s.last()))
        }
    }
}

/// The maximal runs of non-white-space characters of `s`, in order: what
/// `str::split_whitespace` yields.
pub open spec fn words(s: Seq<char>) -> Seq<Seq<char>>
    decreases s.len(),
{
    if s.len() == 0 {
        Seq::empty()
    } else {
        let prev = words(s.drop_last());
        let c = s.last();
        if is_white_space(c) {
            prev
        } else if s.len() == 1 || is_white_space(s[s.len() - 2]) {
            prev.push(seq![c])
        } else {
            prev.update(prev.len() - 1, prev.last().push(c))
        }
    }
}

/// `s` without its trailing white space.
pub open spec fn trim_end(s: Seq<char>) -> Seq<char>
    decreases s.len(),
{
    if s.len() > 0 && is_white_space(s.last()) {
        trim_end(s.drop_last())
    } else {
        s
    }
}

/// `s` without its leading white space.
pub open spec fn trim_start(s: Seq<char>) -> Seq<char>
    decreases s.len(),
{
    if s.len() > 0 && is_white_space(s[0]) {
        trim_start(s.drop_first())
    } else {
        s
    }
}

/// `s` without leading and trailing white space: what `str::trim` gives.
pub open spec fn trim(s: Seq<char>) -> Seq<char> {
    trim_end(trim_start(s))
}

/// Whether `c` is one of `'0'` to `'9'`.
pub open spec fn is_ascii_digit(c: char) -> bool {
    '0' <= c <= '9'
}

/// Whether every character of `s` is an ASCII digit (true of the empty string).
pub open spec fn all_ascii_digits(s: Seq<char>) -> bool {
    forall|i: int| 0 <= i < s.len() ==> is_ascii_digit(#[trigger] s[i])
}

/// The value of an ASCII digit.
pub open spec fn digit_value(c: char) -> nat {
    (c as u32 - '0' as u32) as nat
}

/// The number that a string of ASCII digits writes in decimal (0 for the empty string).
pub open spec fn decimal_value(s: Seq<char>) -> nat
    decreases s.len(),
{
    if s.len() == 0 {
        0
    } else {
        decimal_value(s.drop_last()) * 10 + digit_value(s.last())
    }
}

/// What `str::parse` gives for an unsigned integer type whose largest value is
/// `max`: an optional `'+'`, then one or more ASCII digits whose value is at
/// most `max`; anything else is refused.
pub open spec fn parse_unsigned(s: Seq<char>, max: nat) -> Option<nat> {
    let body = if s.len() > 0 && s[0] == '+' {
        s.drop_first()
    } else {
        s
    };
    if body.len() > 0 && all_ascii_digits(body) && decimal_value(body) <= max {
        Some(decimal_value(body))
    } else {
        None
    }
}

/// The ASCII digit for a value below ten.
pub open spec fn digit_char(d: nat) -> char {
    seq!['0', '1', '2', '3', '4', '5', '6', '7', '8', '9'][d as int]
}

/// The decimal notation of `n`, without leading zeros: what `Display` prints
/// for an unsigned integer.
pub open spec fn decimal(n: nat) -> Seq<char>
    decreases n,
{
    if n < 10 {
        seq![digit_char(n)]
    } else {
        decimal(n / 10).push(digit_char(n % 10))
    }
}

/// Whether `s` ends with `suffix`.
pub open spec fn ends_with(s: Seq<char>, suffix: Seq<char>) -> bool {
    s.len() >= suffix.len() && s.skip(s.len() - suffix.len()) == suffix
}

/// Whether `needle` occurs in `s` as a run of consecutive characters.
pub open spec fn has_substring(s: Seq<char>, needle: Seq<char>) -> bool {
    exists|i: int| 0 <= i <= s.len() - needle.len() && #[trigger] s.subrange(i, i + needle.len()) == needle
}

/// The position of the last `c` in `s`, if any.
pub open spec fn last_index_of(s: Seq<char>, c: char) -> Option<int>
    decreases s.len(),
{
    if s.len() == 0 {
        None
    } else if s.last() == c {
        Some(s.len() - 1)
    } else {
        last_index_of(s.drop_last(), c)
    }
}

/// `s` with every repeated element after its first occurrence removed.
pub open spec fn dedup<A>(s: Seq<A>) -> Seq<A>
    decreases s.len(),
{
    if s.len() == 0 {
        s
    } else {
        let prev = dedup(s.drop_last());
        if prev.contains(s.last()) {
            prev
        } else {
            prev.push(s.last())
        }
    }
}

/// The character sequences that a vector of character vectors holds.
pub open spec fn char_views(v: Seq<Vec<char>>) -> Seq<Seq<char>> {
    v.map_values(|w: Vec<char>| w@)
}

/// The character sequences that a vector of strings holds.
pub open spec fn string_views(v: Seq<String>) -> Seq<Seq<char>> {
    v.map_values(|w: String| w@)
}

/// Tests the Unicode `White_Space` property of a character.
pub fn white_space(c: char) -> (r: bool)
    ensures
        r == is_white_space(c),
{
    let n = c as u32;
    (0x09 <= n && n <= 0x0d) || n == 0x20 || n == 0x85 || n == 0xa0 || n == 0x1680 || (0x2000
        <= n && n <= 0x200a) || n == 0x2028 || n == 0x2029 || n == 0x202f || n == 0x205f || n
        == 0x3000
}

/// The characters of a string, in order.
pub fn chars_of(s: &str) -> (r: Vec<char>)
    ensures
        r@ == s@,
{
    let mut r: Vec<char> = Vec::new();
    for c in it: s.chars()
        invariant
            r@ == it.seq().take(it.index() as int),
    {
        r.push(c);
    }
    r
}

/// There is always at least one line.
pub proof fn lemma_split_lines_nonempty(s: Seq<char>)
    ensures
        split_lines(s).len() >= 1,
    decreases s.len(),
{
    if s.len() > 0 {
        lemma_split_lines_nonempty(s.drop_last());
    }
}

proof fn lemma_words_last(s: Seq<char>)
    requires
        s.len() > 0,
        !is_white_space(s.last()),
    ensures
        words(s).len() >= 1,
    decreases s.len(),
{
    if s.len() > 1 && !is_white_space(s[s.len() - 2]) {
        lemma_words_last(s.drop_last());
    }
}

/// The words of `line`: what `split_whitespace` yields.
pub fn words_of(line: &Vec<char>) -> (r: Vec<Vec<char>>)
    ensures
        char_views(r@) == words(line@),
{
    let mut r: Vec<Vec<char>> = Vec::new();
    let mut cur: Vec<char> = Vec::new();
    let n = line.len();
    let mut i: usize = 0;
    while i < n
        invariant
            n == line.len(),
            i <= n,
            cur@.len() == 0 ==> char_views(r@) == words(line@.take(i as int)),
            cur@.len() > 0 ==> char_views(r@).push(cur@) == words(line@.take(i as int)),
            cur@.len() > 0 <==> (i > 0 && !is_white_space(line@[i - 1])),
        decreases n - i,
    {
        let c = line[i];
        let ghost prefix = line@.take(i as int);
        let ghost next = line@.take(i + 1);
        assert(next.drop_last() == prefix);
        assert(next.last() == c);
        if white_space(c) {
            if cur.len() > 0 {
                let ghost before = r@;
                let ghost word = cur@;
                r.push(cur);
                cur = Vec::new();
                assert(char_views(r@) == char_views(before).push(word));
            }
        } else {
            if cur.len() == 0 {
                assert(i == 0 || is_white_space(prefix.last()));
            } else {
                proof {
                    lemma_words_last(prefix);
                }
            }
            let ghost old_cur = cur@;
            cur.push(c);
            assert(char_views(r@).push(cur@) == words(next)) by {
                if old_cur.len() > 0 {
                    assert(words(next) == words(prefix).update(
                        words(prefix).len() - 1,
                        words(prefix).last().push(c),
                    ));
                    assert(char_views(r@).push(old_cur).update(
                        char_views(r@).len() as int,
                        old_cur.push(c),
                    ) =~= char_views(r@).push(cur@));
                } else {
                    assert(cur@ =~= seq![c]);
                }
            }
        }
        i = i + 1;
    }
    if cur.len() > 0 {
        let ghost before = r@;
        let ghost word = cur@;
        r.push(cur);
        assert(char_views(r@) == char_views(before).push(word));
    }
    assert(line@.take(n as int) == line@);
    r
}

proof fn lemma_decimal_value_prefix(s: Seq<char>, k: int)
    requires
        all_ascii_digits(s),
        0 <= k <= s.len(),
    ensures
        decimal_value(s.take(k)) <= decimal_value(s),
    decreases s.len(),
{
    if k < s.len() {
        let p = s.drop_last();
        assert(all_ascii_digits(p)) by {
            assert forall|i: int| 0 <= i < p.len() implies is_ascii_digit(#[trigger] p[i]) by {
                assert(p[i] == s[i]);
            }
        }
        lemma_decimal_value_prefix(p, k);
        assert(p.take(k) == s.take(k));
    } else {
        assert(s.take(k) == s);
    }
}

/// The digit character for a value below ten.
fn digit_to_char(d: u64) -> (c: char)
    requires
        d < 10,
    ensures
        c == digit_char(d as nat),
{
    match d {
        0 => '0',
        1 => '1',
        2 => '2',
        3 => '3',
        4 => '4',
        5 => '5',
        6 => '6',
        7 => '7',
        8 => '8',
        _ => '9',
    }
}

/// The decimal notation of `n`.
pub fn decimal_string(n: u64) -> (r: String)
    ensures
        r@ == decimal(n as nat),
    decreases n,
{
    if n < 10 {
        let mut r = String::new();
        r.push(digit_to_char(n));
        r
    } else {
        let mut r = decimal_string(n / 10);
        r.push(digit_to_char(n % 10));
        r
    }
}

/// Reads the characters of `s` from position `from` on as an unsigned number no
/// greater than `max`, as `str::parse` does for an unsigned integer type.
pub fn parse_decimal(s: &Vec<char>, from: usize, max: u64) -> (r: Option<u64>)
    requires
        from <= s.len(),
    ensures
        match r {
            Some(v) => parse_unsigned(s@.skip(from as int), max as nat) == Some(v as nat),
            None => parse_unsigned(s@.skip(from as int), max as nat) is None,
        },
{
    let ghost text = s@.skip(from as int);
    let n = s.len();
    let mut start = from;
    if from < n && s[from] == '+' {
        start = from + 1;
    }
    let ghost body = s@.skip(start as int);
    assert(body == if text.len() > 0 && text[0] == '+' { text.drop_first() } else { text });
    if start == n {
        return None;
    }
    let mut value: u64 = 0;
    let mut j = start;
    while j < n
        invariant
            n == s.len(),
            start < n,
            start <= j <= n,
            text == s@.skip(from as int),
            body == s@.skip(start as int),
            body == (if text.len() > 0 && text[0] == '+' { text.drop_first() } else { text }),
            all_ascii_digits(s@.subrange(start as int, j as int)),
            value as nat == decimal_value(s@.subrange(start as int, j as int)),
            value <= max,
        decreases n - j,
    {
        let c = s[j];
        let ghost done = s@.subrange(start as int, j as int);
        let ghost next = s@.subrange(start as int, j + 1);
        assert(next.drop_last() == done);
        assert(next == body.take(j + 1 - start));
        if !('0' <= c && c <= '9') {
            assert(body[j - start] == c);
            assert(!is_ascii_digit(body[j - start]));
            return None;
        }
        let d = (c as u32 - 48) as u64;
        assert(d as nat == digit_value(c));
        if d > max || value > (max - d) / 10 {
            assert(value * 10 + d > max) by (nonlinear_arith)
                requires
                    d > max || value > (max - d) / 10,
                    d < 10,
            ;
            proof {
                if all_ascii_digits(body) {
                    lemma_decimal_value_prefix(body, j + 1 - start);
                }
            }
            return None;
        }
        assert(value * 10 + d <= max) by (nonlinear_arith)
            requires
                value <= (max - d) / 10,
                d <= max,
        ;
        value = value * 10 + d;
        j = j + 1;
        assert(all_ascii_digits(next)) by {
            assert forall|i: int| 0 <= i < next.len() implies is_ascii_digit(#[trigger] next[i]) by {
                if i < next.len() - 1 {
                    assert(next[i] == done[i]);
                }
            }
        }
    }
    assert(s@.subrange(start as int, n as int) == body);
    Some(value)
}

/// Whether two character vectors hold the same characters.
pub fn same_chars(a: &Vec<char>, b: &Vec<char>) -> (r: bool)
    ensures
        r == (a@ == b@),
{
    if a.len() != b.len() {
        return false;
    }
    let n = a.len();
    let mut i: usize = 0;
    while i < n
        invariant
            n == a.len(),
            n == b.len(),
            i <= n,
            forall|k: int| 0 <= k < i ==> a@[k] == b@[k],
        decreases n - i,
    {
        if a[i] != b[i] {
            return false;
        }
        i = i + 1;
    }
    assert(a@ =~= b@);
    true
}

/// Whether a character vector holds exactly the characters of `s`.
pub fn is_text(a: &Vec<char>, s: &str) -> (r: bool)
    ensures
        r == (a@ == s@),
{
    let b = chars_of(s);
    same_chars(a, &b)
}

/// Whether `s` ends with `suffix`.
pub fn ends_with_chars(s: &Vec<char>, suffix: &Vec<char>) -> (r: bool)
    ensures
        r == ends_with(s@, suffix@),
{
    if s.len() < suffix.len() {
        return false;
    }
    let off = s.len() - suffix.len();
    let n = suffix.len();
    let mut i: usize = 0;
    while i < n
        invariant
            n == suffix.len(),
            off + n == s.len(),
            i <= n,
            forall|k: int| 0 <= k < i ==> s@[off + k] == suffix@[k],
        decreases n - i,
    {
        if s[off + i] != suffix[i] {
            assert(s@.skip(off as int)[i as int] != suffix@[i as int]);
            return false;
        }
        i = i + 1;
    }
    assert(s@.skip(off as int) =~= suffix@);
    true
}

/// The position of the last `c` in `s`, if any.
pub fn last_position(s: &Vec<char>, c: char) -> (r: Option<usize>)
    ensures
        match r {
            Some(i) => i < s@.len() && last_index_of(s@, c) == Some(i as int),
            None => last_index_of(s@, c) is None,
        },
{
    let mut j = s.len();
    assert(s@.take(j as int) == s@);
    while j > 0
        invariant
            j <= s.len(),
            last_index_of(s@, c) == last_index_of(s@.take(j as int), c),
        decreases j,
    {
        assert(s@.take(j as int).drop_last() == s@.take(j - 1));
        if s[j - 1] == c {
            return Some(j - 1);
        }
        j = j - 1;
    }
    None
}

/// Whether `needle` occurs in `s` as a run of consecutive characters.
pub fn find_substring(s: &Vec<char>, needle: &Vec<char>) -> (r: bool)
    ensures
        r == has_substring(s@, needle@),
{
    if s.len() < needle.len() {
        return false;
    }
    let last = s.len() - needle.len();
    let m = needle.len();
    let mut i: usize = 0;
    while i <= last
        invariant
            last + m == s.len(),
            m == needle.len(),
            forall|k: int| 0 <= k < i ==> #[trigger] s@.subrange(k, k + m) != needle@,
        ensures
            forall|k: int| 0 <= k <= last ==> #[trigger] s@.subrange(k, k + m) != needle@,
        decreases last + 1 - i,
    {
        let mut j: usize = 0;
        let mut same = true;
        while j < m
            invariant
                m == needle.len(),
                i <= last,
                last + m == s.len(),
                j <= m,
                same <==> forall|k: int| 0 <= k < j ==> s@[i + k] == needle@[k],
            decreases m - j,
        {
            if s[i + j] != needle[j] {
                same = false;
            }
            j = j + 1;
        }
        if same {
            assert(s@.subrange(i as int, i + m) =~= needle@);
            return true;
        }
        assert(s@.subrange(i as int, i + m) != needle@) by {
            let k = choose|k: int| 0 <= k < m && s@[i + k] != needle@[k];
            assert(s@.subrange(i as int, i + m)[k] == s@[i + k]);
        }
        if i == last {
            break;
        }
        i = i + 1;
    }
    proof {
        if has_substring(s@, needle@) {
            let k = choose|k: int|
                0 <= k <= s@.len() - needle@.len() && #[trigger] s@.subrange(k, k + needle@.len())
                    == needle@;
            assert(s@.subrange(k, k + m) == needle@);
        }
    }
    false
}

/// The bounds of `v` without its leading and trailing white space.
pub fn trim_bounds(v: &Vec<char>) -> (r: (usize, usize))
    ensures
        r.0 <= r.1 <= v.len(),
        v@.subrange(r.0 as int, r.1 as int) == trim(v@),
{
    let n = v.len();
    let mut a: usize = 0;
    assert(v@.skip(0) == v@);
    while a < n && white_space(v[a])
        invariant
            a <= n,
            n == v.len(),
            trim_start(v@) == trim_start(v@.skip(a as int)),
        decreases n - a,
    {
        assert(v@.skip(a as int).drop_first() == v@.skip(a + 1));
        a = a + 1;
    }
    let ghost t = v@.skip(a as int);
    assert(trim_start(t) == t);
    let mut b = n;
    while b > a && white_space(v[b - 1])
        invariant
            a <= b <= n,
            n == v.len(),
            t == v@.skip(a as int),
            trim_end(t) == trim_end(v@.subrange(a as int, b as int)),
        decreases b,
    {
        assert(v@.subrange(a as int, b as int).drop_last() == v@.subrange(a as int, b - 1));
        b = b - 1;
    }
    assert(trim_end(v@.subrange(a as int, b as int)) == v@.subrange(a as int, b as int));
    (a, b)
}

/// A string holding the characters of `v`.
pub fn string_of(v: &Vec<char>) -> (r: String)
    ensures
        r@ == v@,
{
    let mut r = String::new();
    let n = v.len();
    let mut i: usize = 0;
    while i < n
        invariant
            n == v.len(),
            i <= n,
            r@ == v@.take(i as int),
        decreases n - i,
    {
        r.push(v[i]);
        i = i + 1;
        assert(r@ =~= v@.take(i as int));
    }
    assert(v@.take(n as int) == v@);
    r
}

/// A string holding the characters of `v` from `start` up to `end`.
pub fn string_between(v: &Vec<char>, start: usize, end: usize) -> (r: String)
    requires
        start <= end <= v.len(),
    ensures
        r@ == v@.subrange(start as int, end as int),
{
    let mut r = String::new();
    let mut i: usize = start;
    while i < end
        invariant
            start <= i <= end <= v.len(),
            r@ == v@.subrange(start as int, i as int),
        decreases end - i,
    {
        r.push(v[i]);
        i = i + 1;
        assert(r@ =~= v@.subrange(start as int, i as int));
    }
    r
}

/// Whether `x` is one of the character vectors in `list`.
pub fn holds_chars(list: &Vec<Vec<char>>, x: &Vec<char>) -> (r: bool)
    ensures
        r == char_views(list@).contains(x@),
{
    let n = list.len();
    let mut i: usize = 0;
    while i < n
        invariant
            n == list.len(),
            i <= n,
            forall|k: int| 0 <= k < i ==> char_views(list@)[k] != x@,
        decreases n - i,
    {
        if same_chars(&list[i], x) {
            assert(char_views(list@)[i as int] == x@);
            return true;
        }
        i = i + 1;
    }
    false
}

/// Repeated elements are left out.
pub proof fn lemma_dedup_no_duplicates<A>(s: Seq<A>)
    ensures
        dedup(s).no_duplicates(),
    decreases s.len(),
{
    if s.len() > 0 {
        lemma_dedup_no_duplicates(s.drop_last());
    }
}

/// An element occurs after removing repetitions exactly where it occurred before.
pub proof fn lemma_dedup_contains<A>(s: Seq<A>, x: A)
    ensures
        dedup(s).contains(x) <==> s.contains(x),
    decreases s.len(),
{
    if s.len() > 0 {
        let p = s.drop_last();
        lemma_dedup_contains(p, x);
        if p.contains(x) {
            let i = choose|i: int| 0 <= i < p.len() && p[i] == x;
            assert(s[i] == x);
        }
        if s.contains(x) && x != s.last() {
            let i = choose|i: int| 0 <= i < s.len() && s[i] == x;
            assert(p[i] == x);
        }
        let prev = dedup(p);
        if !prev.contains(s.last()) {
            if prev.contains(x) {
                let i = choose|i: int| 0 <= i < prev.len() && prev[i] == x;
                assert(prev.push(s.last())[i] == x);
            }
            if prev.push(s.last()).contains(x) && x != s.last() {
                let i = choose|i: int| 0 <= i < prev.len() + 1 && prev.push(s.last())[i] == x;
                assert(prev[i] == x);
            }
            assert(prev.push(s.last())[prev.len() as int] == s.last());
        }
        assert(s[s.len() - 1] == s.last());
    }
}

/// Strings holding the character vectors of `v`, in order.
pub fn strings_of(v: &Vec<Vec<char>>) -> (r: Vec<String>)
    ensures
        string_views(r@) == char_views(v@),
{
    let mut r: Vec<String> = Vec::new();
    let n = v.len();
    let mut i: usize = 0;
    while i < n
        invariant
            n == v.len(),
            i <= n,
            string_views(r@) == char_views(v@).take(i as int),
        decreases n - i,
    {
        let s = string_of(&v[i]);
        let ghost before = r@;
        r.push(s);
        assert(r@ == before.push(s));
        assert(string_views(r@) =~= string_views(before).push(v@[i as int]@));
        i = i + 1;
        assert(string_views(r@) =~= char_views(v@).take(i as int));
    }
    assert(char_views(v@).take(n as int) =~= char_views(v@));
    r
}

/// Adds `x` to `found` unless it is there already.
pub fn add_new(found: &mut Vec<Vec<char>>, x: Vec<char>)
    ensures
        char_views(final(found)@) == if char_views(old(found)@).contains(x@) {
            char_views(old(found)@)
        } else {
            char_views(old(found)@).push(x@)
        },
{
    if !holds_chars(found, &x) {
        let ghost before = found@;
        let ghost xv = x@;
        found.push(x);
        assert(char_views(found@) =~= char_views(before).push(xv));
    }
}

/// Whether every character of `v` is an ASCII digit.
pub fn all_digits(v: &Vec<char>) -> (r: bool)
    ensures
        r == all_ascii_digits(v@),
{
    let n = v.len();
    let mut i: usize = 0;
    while i < n
        invariant
            n == v.len(),
            i <= n,
            forall|k: int| 0 <= k < i ==> is_ascii_digit(#[trigger] v@[k]),
        decreases n - i,
    {
        if !('0' <= v[i] && v[i] <= '9') {
            assert(!is_ascii_digit(v@[i as int]));
            return false;
        }
        i = i + 1;
    }
    true
}

/// Words are never empty.
pub proof fn lemma_words_nonempty(s: Seq<char>)
    ensures
        forall|i: int| 0 <= i < words(s).len() ==> #[trigger] words(s)[i].len() > 0,
    decreases s.len(),
{
    if s.len() > 0 {
        let p = s.drop_last();
        lemma_words_nonempty(p);
        let c = s.last();
        if !is_white_space(c) && s.len() > 1 && !is_white_space(s[s.len() - 2]) {
            lemma_words_last(p);
            assert forall|i: int| 0 <= i < words(s).len() implies #[trigger] words(s)[i].len() > 0 by {
                if i < words(p).len() - 1 {
                    assert(words(s)[i] == words(p)[i]);
                }
            }
        } else if !is_white_space(c) {
            assert forall|i: int| 0 <= i < words(s).len() implies #[trigger] words(s)[i].len() > 0 by {
                if i < words(p).len() {
                    assert(words(s)[i] == words(p)[i]);
                }
            }
        }
    }
}

proof fn lemma_digit_char(d: nat)
    requires
        d < 10,
    ensures
        is_ascii_digit(digit_char(d)),
        digit_value(digit_char(d)) == d,
{
    let t = seq!['0', '1', '2', '3', '4', '5', '6', '7', '8', '9'];
    assert(t[0] == '0' && t[1] == '1' && t[2] == '2' && t[3] == '3' && t[4] == '4');
    assert(t[5] == '5' && t[6] == '6' && t[7] == '7' && t[8] == '8' && t[9] == '9');
}

/// The decimal notation is a non-empty run of digits whose value is the number.
pub proof fn lemma_decimal_digits(n: nat)
    ensures
        decimal(n).len() > 0,
        all_ascii_digits(decimal(n)),
        decimal_value(decimal(n)) == n,
    decreases n,
{
    if n < 10 {
        lemma_digit_char(n);
        assert(decimal(n).drop_last() =~= Seq::<char>::empty());
        assert(decimal_value(decimal(n).drop_last()) == 0);
        assert(decimal_value(decimal(n)) == digit_value(decimal(n).last()));
    } else {
        lemma_decimal_digits(n / 10);
        lemma_digit_char(n % 10);
        let s = decimal(n);
        let p = decimal(n / 10);
        assert(s.drop_last() == p);
        assert(s.last() == digit_char(n % 10));
        assert((n / 10) * 10 + n % 10 == n) by (nonlinear_arith);
        assert(decimal_value(s) == decimal_value(p) * 10 + digit_value(s.last()));
        assert forall|i: int| 0 <= i < s.len() implies is_ascii_digit(#[trigger] s[i]) by {
            if i < p.len() {
                assert(s[i] == p[i]);
            }
        }
    }
}

/// Reading back the decimal notation of a number gives the number, when it
/// fits the type read into.
pub proof fn law_decimal_reads_back(n: nat, max: nat)
    requires
        n <= max,
    ensures
        parse_unsigned(decimal(n), max) == Some(n),
{
    lemma_decimal_digits(n);
    assert(is_ascii_digit(decimal(n)[0]));
}

/// Two texts joined by a line break have the lines of the first, then those of
/// the second.
pub proof fn lemma_split_lines_concat(a: Seq<char>, b: Seq<char>)
    ensures
        split_lines(a + seq!['\n'] + b) == split_lines(a) + split_lines(b),
    decreases b.len(),
{
    let s = a + seq!['\n'] + b;
    if b.len() == 0 {
        assert(s.drop_last() =~= a);
        assert(split_lines(a).push(Seq::<char>::empty()) =~= split_lines(a) + split_lines(b));
    } else {
        let b0 = b.drop_last();
        lemma_split_lines_concat(a, b0);
        assert(s.drop_last() =~= a + seq!['\n'] + b0);
        assert(s.last() == b.last());
        let l1 = split_lines(a);
        let l2 = split_lines(b0);
        lemma_split_lines_nonempty(b0);
        if b.last() == '\n' {
            assert((l1 + l2).push(Seq::<char>::empty()) =~= l1 + l2.push(Seq::<char>::empty()));
        } else {
            let w = l2.last().push(b.last());
            assert((l1 + l2).last() == l2.last());
            assert((l1 + l2).update((l1 + l2).len() - 1, w) =~= l1 + l2.update(l2.len() - 1, w));
        }
    }
}

/// An element of two sequences joined is an element of one of them.
pub proof fn lemma_concat_contains<A>(s: Seq<A>, t: Seq<A>, x: A)
    ensures
        (s + t).contains(x) <==> (s.contains(x) || t.contains(x)),
{
    if s.contains(x) {
        let i = choose|i: int| 0 <= i < s.len() && s[i] == x;
        assert((s + t)[i] == x);
    }
    if t.contains(x) {
        let i = choose|i: int| 0 <= i < t.len() && t[i] == x;
        assert((s + t)[s.len() + i] == x);
    }
    if (s + t).contains(x) {
        let i = choose|i: int| 0 <= i < (s + t).len() && (s + t)[i] == x;
        if i < s.len() {
            assert(s[i] == x);
        } else {
            assert(t[i - s.len()] == x);
        }
    }
}

/// The pieces of `s` between the characters `sep`, in order.
pub open spec fn split_on(s: Seq<char>, sep: char) -> Seq<Seq<char>>
    decreases s.len(),
{
    if s.len() == 0 {
        seq![Seq::<char>::empty()]
    } else {
        let prev = split_on(s.drop_last(), sep);
        if s.last() == sep {
            prev.push(Seq::<char>::empty())
        } else {
            prev.update(prev.len() - 1, prev.last().push(s.last()))
        }
    }
}

proof fn lemma_split_on_nonempty(s: Seq<char>, sep: char)
    ensures
        split_on(s, sep).len() >= 1,
    decreases s.len(),
{
    if s.len() > 0 {
        lemma_split_on_nonempty(s.drop_last(), sep);
    }
}

/// A text without the separator is one piece.
pub proof fn lemma_split_on_single(s: Seq<char>, sep: char)
    requires
        !s.contains(sep),
    ensures
        split_on(s, sep) == seq![s],
    decreases s.len(),
{
    if s.len() > 0 {
        let p = s.drop_last();
        assert(!p.contains(sep)) by {
            if p.contains(sep) {
                let i = choose|i: int| 0 <= i < p.len() && p[i] == sep;
                assert(s[i] == sep);
            }
        }
        lemma_split_on_single(p, sep);
        assert(s[s.len() - 1] == s.last());
        assert(p.push(s.last()) =~= s);
        assert(seq![p].update(0, s) =~= seq![s]);
    } else {
        assert(s =~= Seq::<char>::empty());
    }
}

/// Two texts joined by the separator have the pieces of the first, then those
/// of the second.
pub proof fn lemma_split_on_concat(a: Seq<char>, b: Seq<char>, sep: char)
    ensures
        split_on(a + seq![sep] + b, sep) == split_on(a, sep) + split_on(b, sep),
    decreases b.len(),
{
    let s = a + seq![sep] + b;
    if b.len() == 0 {
        assert(s.drop_last() =~= a);
        assert(split_on(a, sep).push(Seq::<char>::empty()) =~= split_on(a, sep) + split_on(b, sep));
    } else {
        let b0 = b.drop_last();
        lemma_split_on_concat(a, b0, sep);
        assert(s.drop_last() =~= a + seq![sep] + b0);
        assert(s.last() == b.last());
        let l1 = split_on(a, sep);
        let l2 = split_on(b0, sep);
        lemma_split_on_nonempty(b0, sep);
        if b.last() == sep {
            assert((l1 + l2).push(Seq::<char>::empty()) =~= l1 + l2.push(Seq::<char>::empty()));
        } else {
            let w = l2.last().push(b.last());
            assert((l1 + l2).last() == l2.last());
            assert((l1 + l2).update((l1 + l2).len() - 1, w) =~= l1 + l2.update(l2.len() - 1, w));
        }
    }
}

/// A text without line breaks is one line.
pub proof fn lemma_split_lines_single(s: Seq<char>)
    requires
        !s.contains('\n'),
    ensures
        split_lines(s) == seq![s],
    decreases s.len(),
{
    if s.len() > 0 {
        let p = s.drop_last();
        assert(!p.contains('\n')) by {
            if p.contains('\n') {
                let i = choose|i: int| 0 <= i < p.len() && p[i] == '\n';
                assert(s[i] == '\n');
            }
        }
        lemma_split_lines_single(p);
        assert(s[s.len() - 1] == s.last());
        assert(p.push(s.last()) =~= s);
        assert(seq![p].update(0, s) =~= seq![s]);
    } else {
        assert(s =~= Seq::<char>::empty());
    }
}

/// A run of digits holds no character other than digits.
pub proof fn lemma_digits_exclude(s: Seq<char>, c: char)
    requires
        all_ascii_digits(s),
        !is_ascii_digit(c),
    ensures
        !s.contains(c),
{
    if s.contains(c) {
        let i = choose|i: int| 0 <= i < s.len() && s[i] == c;
        assert(is_ascii_digit(s[i]));
    }
}

/// The last `c` of a text that ends in `c` followed by no further `c` is that one.
pub proof fn lemma_last_index_before(a: Seq<char>, c: char, b: Seq<char>)
    requires
        !b.contains(c),
    ensures
        last_index_of(a + seq![c] + b, c) == Some(a.len() as int),
    decreases b.len(),
{
    let s = a + seq![c] + b;
    if b.len() == 0 {
        assert(s.last() == c);
    } else {
        let b0 = b.drop_last();
        assert(!b0.contains(c)) by {
            if b0.contains(c) {
                let i = choose|i: int| 0 <= i < b0.len() && b0[i] == c;
                assert(b[i] == c);
            }
        }
        assert(b[b.len() - 1] == b.last());
        assert(s.last() == b.last());
        assert(s.drop_last() =~= a + seq![c] + b0);
        lemma_last_index_before(a, c, b0);
    }
}

/// A run of digits is its own trimmed text.
pub proof fn lemma_trim_digits(s: Seq<char>)
    requires
        all_ascii_digits(s),
    ensures
        trim(s) == s,
{
    if s.len() > 0 {
        assert(is_ascii_digit(s[0]));
        assert(is_ascii_digit(s[s.len() - 1]));
        assert(trim_start(s) == s);
    } else {
        assert(trim_start(s) == s);
    }
}

/// Whether `s` holds no white space.
pub open spec fn no_white_space(s: Seq<char>) -> bool {
    forall|i: int| 0 <= i < s.len() ==> !is_white_space(#[trigger] s[i])
}

/// A non-empty text without white space is one word.
pub proof fn lemma_words_single(s: Seq<char>)
    requires
        s.len() > 0,
        no_white_space(s),
    ensures
        words(s) == seq![s],
    decreases s.len(),
{
    let p = s.drop_last();
    assert(!is_white_space(s[s.len() - 1]));
    if p.len() == 0 {
        assert(p =~= Seq::<char>::empty());
        assert(words(p) =~= Seq::<Seq<char>>::empty());
        assert(s.last() == s[s.len() - 1]);
        assert(seq![s.last()] =~= s);
        assert(Seq::<Seq<char>>::empty().push(seq![s.last()]) =~= seq![s]);
    } else {
        assert(no_white_space(p)) by {
            assert forall|i: int| 0 <= i < p.len() implies !is_white_space(#[trigger] p[i]) by {
                assert(p[i] == s[i]);
            }
        }
        lemma_words_single(p);
        assert(!is_white_space(s[s.len() - 2])) by {
            assert(s[s.len() - 2] == p[p.len() - 1]);
        }
        assert(s.last() == s[s.len() - 1]);
        assert(words(p).last() == p);
        assert(p.push(s.last()) =~= s);
        assert(seq![p].update(0, s) =~= seq![s]);
    }
}

/// Texts joined by a white-space character have the words of the first, then
/// those of the second.
pub proof fn lemma_words_concat(a: Seq<char>, c: char, b: Seq<char>)
    requires
        is_white_space(c),
    ensures
        words(a + seq![c] + b) == words(a) + words(b),
    decreases b.len(),
{
    let s = a + seq![c] + b;
    if b.len() == 0 {
        assert(s.drop_last() =~= a);
        assert(s.last() == c);
        assert(words(a) + words(b) =~= words(a));
    } else {
        let b0 = b.drop_last();
        lemma_words_concat(a, c, b0);
        assert(s.drop_last() =~= a + seq![c] + b0);
        assert(s.last() == b.last());
        let x = b.last();
        let wa = words(a);
        let w0 = words(b0);
        if is_white_space(x) {
        } else if b0.len() == 0 {
            assert(s[s.len() - 2] == c);
            assert(b0 =~= Seq::<char>::empty());
            assert(w0 =~= Seq::<Seq<char>>::empty());
            assert((wa + w0).push(seq![x]) =~= wa + w0.push(seq![x]));
        } else {
            assert(s[s.len() - 2] == b0.last()) by {
                assert(s[s.len() - 2] == b[b.len() - 2]);
                assert(b0.last() == b[b.len() - 2]);
            }
            assert(b[b.len() - 2] == b0.last());
            if is_white_space(b0.last()) {
                assert((wa + w0).push(seq![x]) =~= wa + w0.push(seq![x]));
            } else {
                lemma_words_last(b0);
                let w = w0.last().push(x);
                assert((wa + w0).last() == w0.last());
                assert((wa + w0).update((wa + w0).len() - 1, w) =~= wa + w0.update(w0.len() - 1, w));
            }
        }
    }
}

} // verus!
