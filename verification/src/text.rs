//! Character-level text operations used to read command output and to build commands.
//!
//! Text is handled as sequences of `char`; the specifications here define what trimming,
//! searching, splitting, number parsing and number formatting mean on such sequences.
use vstd::prelude::*;

verus! {

// ───────────────────────── specifications ─────────────────────────

/// The Unicode `White_Space` property, as `char::is_whitespace` decides it.
pub open spec fn is_ws(c: char) -> bool {
    ||| ('\u{9}' <= c && c <= '\u{d}')
    ||| c == ' '
    ||| c == '\u{85}'
    ||| c == '\u{a0}'
    ||| c == '\u{1680}'
    ||| ('\u{2000}' <= c && c <= '\u{200a}')
    ||| c == '\u{2028}'
    ||| c == '\u{2029}'
    ||| c == '\u{202f}'
    ||| c == '\u{205f}'
    ||| c == '\u{3000}'
}

/// `s` without its leading whitespace.
pub open spec fn trim_start(s: Seq<char>) -> Seq<char>
    decreases s.len(),
{
    if s.len() > 0 && is_ws(s[0]) {
        trim_start(s.drop_first())
    } else {
        s
    }
}

/// `s` without its trailing whitespace.
pub open spec fn trim_end(s: Seq<char>) -> Seq<char>
    decreases s.len(),
{
    if s.len() > 0 && is_ws(s.last()) {
        trim_end(s.drop_last())
    } else {
        s
    }
}

/// `s` without leading and trailing whitespace (what `str::trim` returns).
pub open spec fn trim(s: Seq<char>) -> Seq<char> {
    trim_end(trim_start(s))
}

/// `s` without leading and trailing occurrences of `c` (what `str::trim_matches(c)` returns).
pub open spec fn strip_char(s: Seq<char>, c: char) -> Seq<char> {
    strip_char_end(strip_char_start(s, c), c)
}

/// `s` without its leading occurrences of `c`.
pub open spec fn strip_char_start(s: Seq<char>, c: char) -> Seq<char>
    decreases s.len(),
{
    if s.len() > 0 && s[0] == c {
        strip_char_start(s.drop_first(), c)
    } else {
        s
    }
}

/// `s` without its trailing occurrences of `c`.
pub open spec fn strip_char_end(s: Seq<char>, c: char) -> Seq<char>
    decreases s.len(),
{
    if s.len() > 0 && s.last() == c {
        strip_char_end(s.drop_last(), c)
    } else {
        s
    }
}

/// The character of a decimal digit.
pub open spec fn digit_char(d: nat) -> char
    recommends
        d < 10,
{
    (d + 48) as char
}

/// Whether `c` is one of the ASCII digits `0`–`9`.
pub open spec fn is_digit(c: char) -> bool {
    '0' <= c && c <= '9'
}

/// The decimal notation of `n`, without sign or leading zeros.
pub open spec fn decimal(n: nat) -> Seq<char>
    decreases n,
{
    if n < 10 {
        seq![digit_char(n)]
    } else {
        decimal(n / 10).push(digit_char(n % 10))
    }
}

/// The decimal notation of a signed number, with a leading `-` when it is negative.
pub open spec fn signed_decimal(n: int) -> Seq<char> {
    if n < 0 {
        seq!['-'] + decimal((-n) as nat)
    } else {
        decimal(n as nat)
    }
}

/// Every character of `s` is an ASCII digit.
pub open spec fn all_digits(s: Seq<char>) -> bool {
    forall|i: int| 0 <= i < s.len() ==> is_digit(#[trigger] s[i])
}

/// The value of a run of decimal digits.
pub open spec fn digits_value(s: Seq<char>) -> nat
    decreases s.len(),
{
    if s.len() == 0 {
        0
    } else {
        digits_value(s.drop_last()) * 10 + ((s.last() as int - 48) as nat)
    }
}

/// The number that `s` spells for `str::parse` on an unsigned integer type before its range
/// is checked: an optional `+`, then at least one ASCII digit and nothing else.
pub open spec fn unsigned_value(s: Seq<char>) -> Option<nat> {
    let body = if s.len() > 0 && s[0] == '+' { s.drop_first() } else { s };
    if body.len() > 0 && all_digits(body) {
        Some(digits_value(body))
    } else {
        None
    }
}

/// What `str::parse` gives for an unsigned integer type whose greatest value is `max`.
pub open spec fn parse_unsigned(s: Seq<char>, max: nat) -> Option<nat> {
    match unsigned_value(s) {
        Some(v) => if v <= max { Some(v) } else { None },
        None => None,
    }
}

/// `pat` occurs in `s` starting at position `i`.
pub open spec fn occurs_at(s: Seq<char>, pat: Seq<char>, i: int) -> bool {
    &&& 0 <= i
    &&& i + pat.len() <= s.len()
    &&& s.subrange(i, i + pat.len()) == pat
}

/// `pat` occurs somewhere in `s`.
pub open spec fn contains_seq(s: Seq<char>, pat: Seq<char>) -> bool {
    exists|i: int| occurs_at(s, pat, i)
}

/// `s` begins with `p`.
pub open spec fn starts_with(s: Seq<char>, p: Seq<char>) -> bool {
    p.len() <= s.len() && s.take(p.len() as int) == p
}

/// `s` ends with `p`.
pub open spec fn ends_with(s: Seq<char>, p: Seq<char>) -> bool {
    p.len() <= s.len() && s.skip(s.len() - p.len()) == p
}

/// The first position at or after `i` where `pat` occurs in `s`.
pub open spec fn find_from(s: Seq<char>, pat: Seq<char>, i: int) -> Option<int>
    decreases s.len() + 1 - i,
{
    if i < 0 || i + pat.len() > s.len() {
        None
    } else if occurs_at(s, pat, i) {
        Some(i)
    } else {
        find_from(s, pat, i + 1)
    }
}

/// The number of non-overlapping occurrences of a non-empty `pat` in `s` at or after `i`,
/// taken from left to right (what `str::matches(..).count()` counts).
pub open spec fn count_from(s: Seq<char>, pat: Seq<char>, i: int) -> nat
    decreases s.len() - i,
{
    if i < 0 || pat.len() == 0 || i + pat.len() > s.len() {
        0
    } else if occurs_at(s, pat, i) {
        1 + count_from(s, pat, i + pat.len())
    } else {
        count_from(s, pat, i + 1)
    }
}

/// The pieces of `s` between the occurrences of `sep` (what `str::split(sep)` yields).
pub open spec fn split_on(s: Seq<char>, sep: char) -> Seq<Seq<char>>
    decreases s.len(),
{
    match find_from(s, seq![sep], 0) {
        Some(i) => {
            proof {
                lemma_find_from_bounds(s, seq![sep], 0);
            }
            seq![s.take(i)] + split_on(s.skip(i + 1), sep)
        },
        None => seq![s],
    }
}

/// The last position of `c` in `s`.
pub open spec fn rfind_char(s: Seq<char>, c: char) -> Option<int>
    decreases s.len(),
{
    if s.len() == 0 {
        None
    } else if s.last() == c {
        Some(s.len() - 1)
    } else {
        rfind_char(s.drop_last(), c)
    }
}

/// One line of text without its line ending (a trailing `\r` is removed with the `\n`).
pub open spec fn line_body(l: Seq<char>) -> Seq<char> {
    if l.len() > 0 && l.last() == '\r' {
        l.drop_last()
    } else {
        l
    }
}

/// The lines of `s`, as `str::lines` yields them: pieces ended by `\n` (a `\r` just before
/// the `\n` is dropped too), where a final piece is yielded only when it is not empty.
pub open spec fn lines(s: Seq<char>) -> Seq<Seq<char>>
    decreases s.len(),
{
    if s.len() == 0 {
        seq![]
    } else {
        match find_from(s, seq!['\n'], 0) {
            Some(i) => {
                proof {
                    lemma_find_from_bounds(s, seq!['\n'], 0);
                }
                seq![line_body(s.take(i))] + lines(s.skip(i + 1))
            },
            None => seq![line_body(s)],
        }
    }
}

/// The pieces of `parts` joined with `sep` between each two.
pub open spec fn join(parts: Seq<Seq<char>>, sep: Seq<char>) -> Seq<char>
    decreases parts.len(),
{
    if parts.len() == 0 {
        seq![]
    } else if parts.len() == 1 {
        parts[0]
    } else {
        join(parts.drop_last(), sep) + sep + parts.last()
    }
}

/// ASCII lower-case form of one character (other characters are kept).
pub open spec fn ascii_lower(c: char) -> char {
    if 'A' <= c && c <= 'Z' {
        ((c as int) + 32) as char
    } else {
        c
    }
}

/// Equality up to ASCII case (what `str::eq_ignore_ascii_case` decides).
pub open spec fn eq_ignore_ascii_case(a: Seq<char>, b: Seq<char>) -> bool {
    a.len() == b.len() && forall|i: int| 0 <= i < a.len() ==> ascii_lower(#[trigger] a[i])
        == ascii_lower(b[i])
}

// ───────────────────────── lemmas ─────────────────────────

pub proof fn lemma_find_from_bounds(s: Seq<char>, pat: Seq<char>, i: int)
    ensures
        find_from(s, pat, i) matches Some(j) ==> i <= j && occurs_at(s, pat, j),
    decreases s.len() + 1 - i,
{
    if i < 0 || i + pat.len() > s.len() {
    } else if occurs_at(s, pat, i) {
    } else {
        lemma_find_from_bounds(s, pat, i + 1);
    }
}

/// A search from `i` finds nothing before a later position `k` when no occurrence starts in
/// between.
proof fn lemma_find_from_skip(s: Seq<char>, pat: Seq<char>, i: int, k: int)
    requires
        0 <= i <= k,
        forall|j: int| i <= j < k ==> !occurs_at(s, pat, j),
    ensures
        find_from(s, pat, i) == find_from(s, pat, k),
    decreases k - i,
{
    if i < k {
        if i + pat.len() > s.len() {
            lemma_find_none_past_end(s, pat, k);
        } else {
            lemma_find_from_skip(s, pat, i + 1, k);
        }
    }
}

proof fn lemma_find_none_past_end(s: Seq<char>, pat: Seq<char>, k: int)
    requires
        k + pat.len() > s.len(),
    ensures
        find_from(s, pat, k) is None,
{
}

// ───────────────────────── conversions ─────────────────────────

/// The characters of a string slice.
pub fn chars_of(s: &str) -> (v: Vec<char>)
    ensures
        v@ == s@,
{
    let mut v: Vec<char> = Vec::new();
    for c in it: s.chars()
        invariant
            v@ == it.seq().take(it.index() as int),
            it.seq() == s@,
    {
        v.push(c);
    }
    v
}

/// Builds a `String` holding exactly the characters of `cs` (`String: FromIterator<char>`).
#[verifier::external_body]
pub(crate) fn string_of(cs: &[char]) -> (r: String)
    ensures
        r@ == cs@,
{
    cs.iter().collect::<String>()
}

/// A new `String` with the characters of `s`.
pub fn owned(s: &str) -> (r: String)
    ensures
        r@ == s@,
{
    s.to_string()
}

/// Appends the characters of `b` to `a`.
pub fn push_str(a: &mut String, b: &str)
    ensures
        final(a)@ == old(a)@ + b@,
{
    a.append(b);
}

/// Whether two string slices hold the same characters (`<str as PartialEq>::eq`).
#[verifier::external_body]
pub(crate) fn str_eq(a: &str, b: &str) -> (r: bool)
    ensures
        r == (a@ == b@),
{
    a == b
}

/// The ASCII digit for `d`.
pub fn digit(d: u64) -> (c: char)
    requires
        d < 10,
    ensures
        c == digit_char(d as nat),
{
    if d == 0 { '0' }
    else if d == 1 { '1' }
    else if d == 2 { '2' }
    else if d == 3 { '3' }
    else if d == 4 { '4' }
    else if d == 5 { '5' }
    else if d == 6 { '6' }
    else if d == 7 { '7' }
    else if d == 8 { '8' }
    else { '9' }
}

proof fn lemma_decimal_len(n: nat)
    ensures
        decimal(n).len() >= 1,
        n < 10 ==> decimal(n).len() == 1,
    decreases n,
{
    if n >= 10 {
        lemma_decimal_len(n / 10);
    }
}

/// Appends one character to `s` (`String::push`).
#[verifier::external_body]
pub(crate) fn push_char(s: &mut String, c: char)
    ensures
        final(s)@ == old(s)@.push(c),
{
    s.push(c);
}

/// The decimal notation of `n` (what `u64::to_string` writes).
pub fn decimal_text(n: u64) -> (r: String)
    ensures
        r@ == decimal(n as nat),
    decreases n,
{
    if n < 10 {
        let mut r = String::new();
        push_char(&mut r, digit(n));
        assert(r@ =~= decimal(n as nat));
        r
    } else {
        let mut r = decimal_text(n / 10);
        push_char(&mut r, digit(n % 10));
        r
    }
}

/// The decimal notation of a signed number (what `i64::to_string` writes).
pub fn signed_decimal_text(n: i64) -> (r: String)
    ensures
        r@ == signed_decimal(n as int),
{
    if n < 0 {
        let m: u64 = (0i128 - (n as i128)) as u64;
        let mut r = String::new();
        push_char(&mut r, '-');
        let d = decimal_text(m);
        push_str(&mut r, d.as_str());
        r
    } else {
        decimal_text(n as u64)
    }
}

// ───────────────────────── trimming ─────────────────────────

/// Whether `c` has the Unicode `White_Space` property (`char::is_whitespace`).
pub fn is_whitespace(c: char) -> (r: bool)
    ensures
        r == is_ws(c),
{
    ('\u{9}' <= c && c <= '\u{d}') || c == ' ' || c == '\u{85}' || c == '\u{a0}' || c == '\u{1680}'
        || ('\u{2000}' <= c && c <= '\u{200a}') || c == '\u{2028}' || c == '\u{2029}' || c
        == '\u{202f}' || c == '\u{205f}' || c == '\u{3000}'
}

proof fn lemma_trim_start_step(s: Seq<char>, i: int)
    requires
        0 <= i < s.len(),
        is_ws(s[i]),
    ensures
        trim_start(s.skip(i)) == trim_start(s.skip(i + 1)),
{
    assert(s.skip(i).drop_first() =~= s.skip(i + 1));
}

proof fn lemma_trim_end_step(s: Seq<char>, j: int)
    requires
        0 < j <= s.len(),
        is_ws(s[j - 1]),
    ensures
        trim_end(s.take(j)) == trim_end(s.take(j - 1)),
{
    assert(s.take(j).drop_last() =~= s.take(j - 1));
}

/// The characters of `s` without leading and trailing whitespace (`str::trim`).
pub fn trim_chars(s: &[char]) -> (r: Vec<char>)
    ensures
        r@ == trim(s@),
{
    let n = s.len();
    let mut i: usize = 0;
    assert(s@.skip(0) =~= s@);
    while i < n && is_whitespace(s[i])
        invariant
            i <= n == s@.len(),
            trim_start(s@) == trim_start(s@.skip(i as int)),
        decreases n - i,
    {
        proof {
            lemma_trim_start_step(s@, i as int);
        }
        i = i + 1;
    }
    // `s[i..]` starts with a non-space or is empty, so it is its own trimmed start.
    let ghost mid = s@.skip(i as int);
    assert(trim_start(s@) == mid);
    let mut j: usize = n;
    assert(mid.take(mid.len() as int) =~= mid);
    while j > i && is_whitespace(s[j - 1])
        invariant
            i <= j <= n == s@.len(),
            mid == s@.skip(i as int),
            trim_end(mid) == trim_end(mid.take(j - i)),
        decreases j,
    {
        proof {
            lemma_trim_end_step(mid, (j - i) as int);
        }
        j = j - 1;
    }
    let mut r: Vec<char> = Vec::new();
    let mut k: usize = i;
    while k < j
        invariant
            i <= k <= j <= n == s@.len(),
            r@ == s@.subrange(i as int, k as int),
        decreases j - k,
    {
        r.push(s[k]);
        assert(r@ =~= s@.subrange(i as int, k + 1));
        k = k + 1;
    }
    assert(mid.take(j - i) =~= r@);
    r
}

/// The characters of `s` without leading and trailing copies of `c` (`str::trim_matches(c)`).
pub fn strip_char_chars(s: &[char], c: char) -> (r: Vec<char>)
    ensures
        r@ == strip_char(s@, c),
{
    let n = s.len();
    let mut i: usize = 0;
    assert(s@.skip(0) =~= s@);
    while i < n && s[i] == c
        invariant
            i <= n == s@.len(),
            strip_char_start(s@, c) == strip_char_start(s@.skip(i as int), c),
        decreases n - i,
    {
        assert(s@.skip(i as int).drop_first() =~= s@.skip(i + 1));
        i = i + 1;
    }
    let ghost mid = s@.skip(i as int);
    let mut j: usize = n;
    assert(mid.take(mid.len() as int) =~= mid);
    while j > i && s[j - 1] == c
        invariant
            i <= j <= n == s@.len(),
            mid == s@.skip(i as int),
            strip_char_end(mid, c) == strip_char_end(mid.take(j - i), c),
        decreases j,
    {
        assert(mid.take(j - i).drop_last() =~= mid.take(j - i - 1));
        j = j - 1;
    }
    let mut r: Vec<char> = Vec::new();
    let mut k: usize = i;
    while k < j
        invariant
            i <= k <= j <= n == s@.len(),
            r@ == s@.subrange(i as int, k as int),
        decreases j - k,
    {
        r.push(s[k]);
        assert(r@ =~= s@.subrange(i as int, k + 1));
        k = k + 1;
    }
    assert(mid.take(j - i) =~= r@);
    r
}

/// `str::trim` on a string slice.
pub fn trim_str(s: &str) -> (r: String)
    ensures
        r@ == trim(s@),
{
    let cs = chars_of(s);
    let t = trim_chars(cs.as_slice());
    string_of(t.as_slice())
}

// ───────────────────────── searching ─────────────────────────

/// Whether `pat` occurs in `s` at position `i`.
pub fn matches_at(s: &[char], pat: &[char], i: usize) -> (r: bool)
    ensures
        r == occurs_at(s@, pat@, i as int),
{
    if i > s.len() || pat.len() > s.len() - i {
        return false;
    }
    let n = s.len();
    let mut k: usize = 0;
    while k < pat.len()
        invariant
            n == s@.len(),
            i + pat@.len() <= s@.len(),
            k <= pat@.len(),
            forall|t: int| 0 <= t < k ==> s@[i + t] == pat@[t],
        decreases pat.len() - k,
    {
        if s[i + k] != pat[k] {
            assert(s@.subrange(i as int, i + pat@.len())[k as int] != pat@[k as int]);
            return false;
        }
        k = k + 1;
    }
    assert(s@.subrange(i as int, i + pat@.len()) =~= pat@);
    true
}

/// A search that starts at a position where the pattern occurs finds that position, so any
/// occurrence at or after `k` makes the search from `k` succeed.
pub proof fn lemma_find_from_complete(s: Seq<char>, pat: Seq<char>, k: int, i: int)
    requires
        0 <= k <= i,
        occurs_at(s, pat, i),
    ensures
        find_from(s, pat, k) is Some,
    decreases i - k,
{
    if k < i && !occurs_at(s, pat, k) {
        lemma_find_from_complete(s, pat, k + 1, i);
    }
}

/// The first position at or after `from` where `pat` occurs in `s`.
pub fn find_chars(s: &[char], pat: &[char], from: usize) -> (r: Option<usize>)
    ensures
        match r {
            Some(i) => find_from(s@, pat@, from as int) == Some(i as int),
            None => find_from(s@, pat@, from as int) is None,
        },
{
    let n = s.len();
    let mut i: usize = from;
    while i <= n && pat.len() <= n - i
        invariant
            n == s@.len(),
            from <= i,
            find_from(s@, pat@, from as int) == find_from(s@, pat@, i as int),
        decreases n + 1 - i,
    {
        if matches_at(s, pat, i) {
            return Some(i);
        }
        if i == n {
            assert(find_from(s@, pat@, i + 1) is None);
            return None;
        }
        i = i + 1;
    }
    None
}

/// Whether `pat` occurs anywhere in `s` (`str::contains`).
pub fn contains_chars(s: &[char], pat: &[char]) -> (r: bool)
    ensures
        r == contains_seq(s@, pat@),
{
    match find_chars(s, pat, 0) {
        Some(i) => {
            proof {
                lemma_find_from_bounds(s@, pat@, 0);
            }
            true
        },
        None => {
            proof {
                if contains_seq(s@, pat@) {
                    let i = choose|i: int| occurs_at(s@, pat@, i);
                    lemma_find_from_complete(s@, pat@, 0, i);
                }
            }
            false
        },
    }
}

/// `str::contains` on string slices.
pub fn contains_str(s: &str, pat: &str) -> (r: bool)
    ensures
        r == contains_seq(s@, pat@),
{
    let a = chars_of(s);
    let b = chars_of(pat);
    contains_chars(a.as_slice(), b.as_slice())
}

/// Whether `s` begins with `p` (`str::starts_with`).
pub fn starts_with_chars(s: &[char], p: &[char]) -> (r: bool)
    ensures
        r == starts_with(s@, p@),
{
    let r = matches_at(s, p, 0);
    assert(s@.subrange(0, p@.len() as int) =~= s@.take(p@.len() as int));
    r
}

/// Whether `s` ends with `p` (`str::ends_with`).
pub fn ends_with_chars(s: &[char], p: &[char]) -> (r: bool)
    ensures
        r == ends_with(s@, p@),
{
    if p.len() > s.len() {
        return false;
    }
    let r = matches_at(s, p, s.len() - p.len());
    assert(s@.subrange(s@.len() - p@.len(), s@.len() as int) =~= s@.skip(s@.len() - p@.len()));
    r
}

/// `str::ends_with` on string slices.
pub fn ends_with_str(s: &str, p: &str) -> (r: bool)
    ensures
        r == ends_with(s@, p@),
{
    let a = chars_of(s);
    let b = chars_of(p);
    ends_with_chars(a.as_slice(), b.as_slice())
}

/// `str::starts_with` on string slices.
pub fn starts_with_str(s: &str, p: &str) -> (r: bool)
    ensures
        r == starts_with(s@, p@),
{
    let a = chars_of(s);
    let b = chars_of(p);
    starts_with_chars(a.as_slice(), b.as_slice())
}

/// The number of non-overlapping occurrences of a non-empty `pat` in `s`
/// (`str::matches(pat).count()`).
pub fn count_matches_chars(s: &[char], pat: &[char]) -> (r: usize)
    requires
        pat@.len() > 0,
    ensures
        r == count_from(s@, pat@, 0),
{
    let mut i: usize = 0;
    let mut count: usize = 0;
    while i <= s.len() && pat.len() <= s.len() - i
        invariant
            pat@.len() > 0,
            count <= i,
            count + count_from(s@, pat@, i as int) == count_from(s@, pat@, 0),
        decreases s.len() + 1 - i,
    {
        if matches_at(s, pat, i) {
            count = count + 1;
            i = i + pat.len();
        } else {
            i = i + 1;
        }
    }
    count
}


// ───────────────────────── numbers ─────────────────────────

proof fn lemma_digits_value_prefix(s: Seq<char>, k: int)
    requires
        0 <= k <= s.len(),
        all_digits(s),
    ensures
        digits_value(s.take(k)) <= digits_value(s),
    decreases s.len() - k,
{
    if k < s.len() {
        lemma_digits_value_prefix(s, k + 1);
        assert(s.take(k + 1).drop_last() =~= s.take(k));
        assert(is_digit(s[k]));
    }
    assert(s.take(s.len() as int) =~= s);
}

/// `str::parse` into an unsigned integer type whose greatest value is `max`.
pub fn parse_unsigned_chars(s: &[char], max: u64) -> (r: Option<u64>)
    ensures
        match r {
            Some(v) => parse_unsigned(s@, max as nat) == Some(v as nat),
            None => parse_unsigned(s@, max as nat) is None,
        },
{
    let start: usize = if s.len() > 0 && s[0] == '+' { 1 } else { 0 };
    let ghost body = if s@.len() > 0 && s@[0] == '+' { s@.drop_first() } else { s@ };
    assert(body =~= s@.skip(start as int));
    if start == s.len() {
        return None;
    }
    let mut acc: u64 = 0;
    let mut big = false;
    let mut i: usize = start;
    assert(body.take(0) =~= seq![]);
    while i < s.len()
        invariant
            start <= i <= s@.len(),
            body == s@.skip(start as int),
            body == (if s@.len() > 0 && s@[0] == '+' { s@.drop_first() } else { s@ }),
            all_digits(body.take(i - start)),
            !big ==> acc as nat == digits_value(body.take(i - start)) && acc <= max,
            big ==> digits_value(body.take(i - start)) > max,
        decreases s.len() - i,
    {
        let c = s[i];
        if !('0' <= c && c <= '9') {
            assert(body[i - start] == c);
            assert(!is_digit(body[i - start]));
            assert(!all_digits(body));
            return None;
        }
        let ghost prev = body.take(i - start);
        assert(body.take(i - start + 1).drop_last() =~= prev);
        assert(body.take(i - start + 1).last() == c);
        let d: u64 = (c as u32 - 48) as u64;
        assert(d == c as int - 48);
        if !big {
            if d > max || acc > (max - d) / 10 {
                big = true;
                assert(acc * 10 + d > max) by (nonlinear_arith)
                    requires
                        d > max || acc > (max - d) / 10,
                        d <= 9,
                ;
            } else {
                assert(acc * 10 + d <= max) by (nonlinear_arith)
                    requires
                        acc <= (max - d) / 10,
                        d <= max,
                ;
                acc = acc * 10 + d;
            }
        } else {
            assert(digits_value(body.take(i - start + 1)) >= digits_value(prev)) by (nonlinear_arith)
                requires
                    digits_value(body.take(i - start + 1)) == digits_value(prev) * 10 + d,
            ;
        }
        i = i + 1;
    }
    assert(body.take(body.len() as int) =~= body);
    if big {
        None
    } else {
        Some(acc)
    }
}

// ───────────────────────── splitting ─────────────────────────

/// The characters of `s` from position `a` up to, not including, `b`.
pub fn slice_chars(s: &[char], a: usize, b: usize) -> (r: Vec<char>)
    requires
        a <= b <= s@.len(),
    ensures
        r@ == s@.subrange(a as int, b as int),
{
    let mut r: Vec<char> = Vec::new();
    let mut k: usize = a;
    while k < b
        invariant
            a <= k <= b <= s@.len(),
            r@ == s@.subrange(a as int, k as int),
        decreases b - k,
    {
        r.push(s[k]);
        assert(r@ =~= s@.subrange(a as int, k + 1));
        k = k + 1;
    }
    r
}

/// The split of `s` at the first occurrence of `pat` (what `str::split_once` gives).
pub open spec fn split_once(s: Seq<char>, pat: Seq<char>) -> Option<(Seq<char>, Seq<char>)> {
    match find_from(s, pat, 0) {
        Some(i) => Some((s.take(i), s.skip(i + pat.len()))),
        None => None,
    }
}

/// The split of `s` at the last occurrence of `c` (what `str::rsplit_once` gives).
pub open spec fn rsplit_once(s: Seq<char>, c: char) -> Option<(Seq<char>, Seq<char>)> {
    match rfind_char(s, c) {
        Some(i) => Some((s.take(i), s.skip(i + 1))),
        None => None,
    }
}

/// `str::split_once` on character sequences.
pub fn split_once_chars(s: &[char], pat: &[char]) -> (r: Option<(Vec<char>, Vec<char>)>)
    ensures
        match r {
            Some((a, b)) => split_once(s@, pat@) == Some((a@, b@)),
            None => split_once(s@, pat@) is None,
        },
{
    match find_chars(s, pat, 0) {
        Some(i) => {
            proof {
                lemma_find_from_bounds(s@, pat@, 0);
            }
            assert(occurs_at(s@, pat@, i as int));
            let n = s.len();
            assert(i + pat@.len() <= n);
            let a = slice_chars(s, 0, i);
            let b = slice_chars(s, i + pat.len(), s.len());
            assert(a@ =~= s@.take(i as int));
            assert(b@ =~= s@.skip(i + pat@.len()));
            Some((a, b))
        },
        None => None,
    }
}

/// The last position of `c` in `s`.
pub fn rfind_char_chars(s: &[char], c: char) -> (r: Option<usize>)
    ensures
        match r {
            Some(i) => rfind_char(s@, c) == Some(i as int),
            None => rfind_char(s@, c) is None,
        },
{
    let mut j: usize = s.len();
    assert(s@.take(s@.len() as int) =~= s@);
    while j > 0
        invariant
            j <= s@.len(),
            rfind_char(s@, c) == rfind_char(s@.take(j as int), c),
        decreases j,
    {
        if s[j - 1] == c {
            assert(s@.take(j as int).last() == c);
            return Some(j - 1);
        }
        assert(s@.take(j as int).drop_last() =~= s@.take(j - 1));
        j = j - 1;
    }
    None
}

/// `str::rsplit_once(c)` on character sequences.
pub fn rsplit_once_char(s: &[char], c: char) -> (r: Option<(Vec<char>, Vec<char>)>)
    ensures
        match r {
            Some((a, b)) => rsplit_once(s@, c) == Some((a@, b@)),
            None => rsplit_once(s@, c) is None,
        },
{
    match rfind_char_chars(s, c) {
        Some(i) => {
            proof {
                lemma_rfind_bounds(s@, c);
            }
            let n = s.len();
            assert(i < n);
            let a = slice_chars(s, 0, i);
            let b = slice_chars(s, i + 1, s.len());
            assert(a@ =~= s@.take(i as int));
            assert(b@ =~= s@.skip(i + 1));
            Some((a, b))
        },
        None => None,
    }
}

pub proof fn lemma_rfind_bounds(s: Seq<char>, c: char)
    ensures
        rfind_char(s, c) matches Some(i) ==> 0 <= i < s.len() && s[i] == c,
    decreases s.len(),
{
    if s.len() > 0 && s.last() != c {
        lemma_rfind_bounds(s.drop_last(), c);
    }
}

/// Whether the pieces `parts` are, one for one, the character sequences `specs`.
pub open spec fn pieces_are(parts: Seq<Vec<char>>, specs: Seq<Seq<char>>) -> bool {
    parts.len() == specs.len() && forall|i: int| 0 <= i < parts.len() ==> (#[trigger] parts[i])@
        == specs[i]
}

proof fn lemma_split_step(s: Seq<char>, sep: char, start: int, i: int)
    requires
        0 <= start <= i < s.len(),
        s[i] == sep,
        forall|j: int| start <= j < i ==> s[j] != sep,
    ensures
        split_on(s.skip(start), sep) == seq![s.subrange(start, i)] + split_on(s.skip(i + 1), sep),
{
    let t = s.skip(start);
    let pat = seq![sep];
    assert forall|j: int| 0 <= j < i - start implies !occurs_at(t, pat, j) by {
        assert(t.subrange(j, j + 1)[0] == s[start + j]);
    }
    lemma_find_from_skip(t, pat, 0, i - start);
    assert(t.subrange(i - start, i - start + 1) =~= pat);
    assert(find_from(t, pat, i - start) == Some(i - start));
    assert(t.take(i - start) =~= s.subrange(start, i));
    assert(t.skip(i - start + 1) =~= s.skip(i + 1));
}

proof fn lemma_split_last(s: Seq<char>, sep: char, start: int)
    requires
        0 <= start <= s.len(),
        forall|j: int| start <= j < s.len() ==> s[j] != sep,
    ensures
        split_on(s.skip(start), sep) == seq![s.skip(start)],
{
    let t = s.skip(start);
    let pat = seq![sep];
    assert forall|j: int| 0 <= j < t.len() implies !occurs_at(t, pat, j) by {
        assert(t.subrange(j, j + 1)[0] == s[start + j]);
    }
    lemma_find_from_skip(t, pat, 0, t.len() as int);
    lemma_find_none_past_end(t, pat, t.len() as int);
}

/// The pieces of `s` between the occurrences of `sep` (`str::split(sep)`).
pub fn split_char(s: &[char], sep: char) -> (r: Vec<Vec<char>>)
    ensures
        pieces_are(r@, split_on(s@, sep)),
{
    let mut r: Vec<Vec<char>> = Vec::new();
    let mut start: usize = 0;
    let mut i: usize = 0;
    assert(s@.skip(0) =~= s@);
    assert(pieces_are(r@, seq![]) && seq![] + split_on(s@.skip(0), sep) == split_on(s@, sep)) by {
        assert(seq![] + split_on(s@.skip(0), sep) =~= split_on(s@, sep));
    }
    while i < s.len()
        invariant
            start <= i <= s@.len(),
            forall|j: int| start <= j < i ==> s@[j] != sep,
            exists|done: Seq<Seq<char>>|
                pieces_are(r@, done) && done + split_on(s@.skip(start as int), sep) == split_on(
                    s@,
                    sep,
                ),
        decreases s.len() - i,
    {
        if s[i] == sep {
            let ghost done = choose|done: Seq<Seq<char>>|
                pieces_are(r@, done) && done + split_on(s@.skip(start as int), sep) == split_on(
                    s@,
                    sep,
                );
            proof {
                lemma_split_step(s@, sep, start as int, i as int);
            }
            let piece = slice_chars(s, start, i);
            r.push(piece);
            let ghost done2 = done.push(s@.subrange(start as int, i as int));
            assert(pieces_are(r@, done2)) by {
                assert forall|k: int| 0 <= k < r@.len() implies (#[trigger] r@[k])@ == done2[k] by {
                    if k < done.len() {
                    }
                }
            }
            assert(done2 + split_on(s@.skip(i + 1), sep) =~= done + split_on(
                s@.skip(start as int),
                sep,
            ));
            start = i + 1;
        }
        i = i + 1;
    }
    let ghost done = choose|done: Seq<Seq<char>>|
        pieces_are(r@, done) && done + split_on(s@.skip(start as int), sep) == split_on(s@, sep);
    proof {
        lemma_split_last(s@, sep, start as int);
    }
    let piece = slice_chars(s, start, s.len());
    r.push(piece);
    let ghost done2 = done.push(s@.skip(start as int));
    assert(pieces_are(r@, done2)) by {
        assert forall|k: int| 0 <= k < r@.len() implies (#[trigger] r@[k])@ == done2[k] by {
            if k < done.len() {
            }
        }
        assert(s@.subrange(start as int, s@.len() as int) =~= s@.skip(start as int));
    }
    assert(done2 =~= done + split_on(s@.skip(start as int), sep));
    r
}


// ───────────────────────── building text ─────────────────────────

/// The concatenation of three texts.
pub fn concat3(a: &str, b: &str, c: &str) -> (r: String)
    ensures
        r@ == a@ + b@ + c@,
{
    let mut r = owned(a);
    push_str(&mut r, b);
    push_str(&mut r, c);
    r
}

/// `str::trim` on the characters of `s`, as a `String`.
pub fn trimmed_string(s: &[char]) -> (r: String)
    ensures
        r@ == trim(s@),
{
    let t = trim_chars(s);
    string_of(t.as_slice())
}


/// The character sequences of a list of strings.
pub open spec fn views(parts: Seq<String>) -> Seq<Seq<char>> {
    parts.map_values(|p: String| p@)
}

/// The strings of `parts` with `sep` between each two (`[String]::join`).
pub fn join_strings(parts: &[String], sep: &str) -> (r: String)
    ensures
        r@ == join(views(parts@), sep@),
{
    let mut r = String::new();
    let mut i: usize = 0;
    assert(views(parts@.take(0)) =~= seq![]);
    while i < parts.len()
        invariant
            i <= parts@.len(),
            r@ == join(views(parts@.take(i as int)), sep@),
        decreases parts.len() - i,
    {
        let ghost prev = views(parts@.take(i as int));
        let ghost next = views(parts@.take(i + 1));
        assert(next.drop_last() =~= prev);
        assert(next.last() == parts@[i as int]@);
        if i == 0 {
            assert(r@ =~= seq![]);
            push_str(&mut r, parts[i].as_str());
            assert(next.len() == 1);
            assert(r@ =~= next[0]);
        } else {
            push_str(&mut r, sep);
            push_str(&mut r, parts[i].as_str());
        }
        i = i + 1;
    }
    assert(parts@.take(parts@.len() as int) =~= parts@);
    r
}


proof fn lemma_lines_step(s: Seq<char>, start: int, i: int)
    requires
        0 <= start <= i < s.len(),
        s[i] == '\n',
        forall|j: int| start <= j < i ==> s[j] != '\n',
    ensures
        lines(s.skip(start)) == seq![line_body(s.subrange(start, i))] + lines(s.skip(i + 1)),
{
    let t = s.skip(start);
    let pat = seq!['\n'];
    assert forall|j: int| 0 <= j < i - start implies !occurs_at(t, pat, j) by {
        assert(t.subrange(j, j + 1)[0] == s[start + j]);
    }
    lemma_find_from_skip(t, pat, 0, i - start);
    assert(t.subrange(i - start, i - start + 1) =~= pat);
    assert(find_from(t, pat, i - start) == Some(i - start));
    assert(t.take(i - start) =~= s.subrange(start, i));
    assert(t.skip(i - start + 1) =~= s.skip(i + 1));
}

proof fn lemma_lines_last(s: Seq<char>, start: int)
    requires
        0 <= start < s.len(),
        forall|j: int| start <= j < s.len() ==> s[j] != '\n',
    ensures
        lines(s.skip(start)) == seq![line_body(s.skip(start))],
{
    let t = s.skip(start);
    let pat = seq!['\n'];
    assert forall|j: int| 0 <= j < t.len() implies !occurs_at(t, pat, j) by {
        assert(t.subrange(j, j + 1)[0] == s[start + j]);
    }
    lemma_find_from_skip(t, pat, 0, t.len() as int);
    lemma_find_none_past_end(t, pat, t.len() as int);
}

/// `line_body` on a piece of text.
fn line_body_chars(s: &[char], a: usize, b: usize) -> (r: Vec<char>)
    requires
        a <= b <= s@.len(),
    ensures
        r@ == line_body(s@.subrange(a as int, b as int)),
{
    if b > a && s[b - 1] == '\r' {
        let r = slice_chars(s, a, b - 1);
        assert(r@ =~= s@.subrange(a as int, b as int).drop_last());
        r
    } else {
        slice_chars(s, a, b)
    }
}

/// The lines of `s` (`str::lines`).
pub fn lines_chars(s: &[char]) -> (r: Vec<Vec<char>>)
    ensures
        pieces_are(r@, lines(s@)),
{
    let mut r: Vec<Vec<char>> = Vec::new();
    let mut start: usize = 0;
    let mut i: usize = 0;
    assert(s@.skip(0) =~= s@);
    assert(pieces_are(r@, seq![]) && seq![] + lines(s@.skip(0)) == lines(s@)) by {
        assert(seq![] + lines(s@.skip(0)) =~= lines(s@));
    }
    while i < s.len()
        invariant
            start <= i <= s@.len(),
            forall|j: int| start <= j < i ==> s@[j] != '\n',
            exists|done: Seq<Seq<char>>|
                pieces_are(r@, done) && done + lines(s@.skip(start as int)) == lines(s@),
        decreases s.len() - i,
    {
        if s[i] == '\n' {
            let ghost done = choose|done: Seq<Seq<char>>|
                pieces_are(r@, done) && done + lines(s@.skip(start as int)) == lines(s@);
            proof {
                lemma_lines_step(s@, start as int, i as int);
            }
            let piece = line_body_chars(s, start, i);
            r.push(piece);
            let ghost done2 = done.push(line_body(s@.subrange(start as int, i as int)));
            assert(pieces_are(r@, done2)) by {
                assert forall|k: int| 0 <= k < r@.len() implies (#[trigger] r@[k])@ == done2[k] by {
                    if k < done.len() {
                    }
                }
            }
            assert(done2 + lines(s@.skip(i + 1)) =~= done + lines(s@.skip(start as int)));
            start = i + 1;
        }
        i = i + 1;
    }
    let ghost done = choose|done: Seq<Seq<char>>|
        pieces_are(r@, done) && done + lines(s@.skip(start as int)) == lines(s@);
    if start < s.len() {
        proof {
            lemma_lines_last(s@, start as int);
        }
        let piece = line_body_chars(s, start, s.len());
        r.push(piece);
        let ghost done2 = done.push(line_body(s@.skip(start as int)));
        assert(pieces_are(r@, done2)) by {
            assert forall|k: int| 0 <= k < r@.len() implies (#[trigger] r@[k])@ == done2[k] by {
                if k < done.len() {
                }
            }
            assert(s@.subrange(start as int, s@.len() as int) =~= s@.skip(start as int));
        }
        assert(done2 =~= done + lines(s@.skip(start as int)));
    } else {
        assert(s@.skip(start as int) =~= seq![]);
        assert(done =~= done + lines(s@.skip(start as int)));
    }
    r
}


/// ASCII lower-case form of one character.
pub fn to_ascii_lower(c: char) -> (r: char)
    ensures
        r == ascii_lower(c),
{
    if 'A' <= c && c <= 'Z' {
        let b: u8 = c as u8;
        assert(b == c as int);
        (b + 32) as char
    } else {
        c
    }
}

/// Whether two texts are equal up to ASCII case (`str::eq_ignore_ascii_case`).
pub fn eq_ignore_ascii_case_chars(a: &[char], b: &[char]) -> (r: bool)
    ensures
        r == eq_ignore_ascii_case(a@, b@),
{
    if a.len() != b.len() {
        return false;
    }
    let mut i: usize = 0;
    while i < a.len()
        invariant
            a@.len() == b@.len(),
            i <= a@.len(),
            forall|k: int| 0 <= k < i ==> ascii_lower(#[trigger] a@[k]) == ascii_lower(b@[k]),
        decreases a.len() - i,
    {
        if to_ascii_lower(a[i]) != to_ascii_lower(b[i]) {
            return false;
        }
        i = i + 1;
    }
    true
}


// ───────────────────────── Unicode case ─────────────────────────

/// The lower-case form that `str::to_lowercase` gives a text.
pub uninterp spec fn lowercase_of(s: Seq<char>) -> Seq<char>;

/// The upper-case form that `str::to_uppercase` gives a text.
pub uninterp spec fn uppercase_of(s: Seq<char>) -> Seq<char>;

/// The lower-case form of a text (`str::to_lowercase`, by the Unicode case tables).
#[verifier::external_body]
pub(crate) fn to_lowercase_text(s: &str) -> (r: String)
    ensures
        r@ == lowercase_of(s@),
{
    s.to_lowercase()
}

/// The upper-case form of a text (`str::to_uppercase`, by the Unicode case tables).
#[verifier::external_body]
pub(crate) fn to_uppercase_text(s: &str) -> (r: String)
    ensures
        r@ == uppercase_of(s@),
{
    s.to_uppercase()
}


// ───────────────────────── words ─────────────────────────

/// The leading run of non-whitespace characters of `s`.
pub open spec fn take_word(s: Seq<char>) -> Seq<char>
    decreases s.len(),
{
    if s.len() == 0 || is_ws(s[0]) {
        seq![]
    } else {
        seq![s[0]] + take_word(s.drop_first())
    }
}

/// `s` after its leading run of non-whitespace characters.
pub open spec fn drop_word(s: Seq<char>) -> Seq<char>
    decreases s.len(),
{
    if s.len() == 0 || is_ws(s[0]) {
        s
    } else {
        drop_word(s.drop_first())
    }
}

/// The `n`-th whitespace-separated word of `s`, counting from 0
/// (`str::split_whitespace().nth(n)`).
pub open spec fn nth_word(s: Seq<char>, n: nat) -> Option<Seq<char>>
    decreases s.len(), n,
{
    let t = trim_start(s);
    if t.len() == 0 {
        None
    } else if n == 0 {
        Some(take_word(t))
    } else {
        proof {
            lemma_trim_start_len(s);
            lemma_drop_word_shorter(t);
        }
        nth_word(drop_word(t), (n - 1) as nat)
    }
}

pub proof fn lemma_drop_word_shorter(s: Seq<char>)
    requires
        s.len() > 0,
        !is_ws(s[0]),
    ensures
        drop_word(s).len() < s.len(),
    decreases s.len(),
{
    lemma_drop_word_len(s.drop_first());
}

proof fn lemma_drop_word_len(s: Seq<char>)
    ensures
        drop_word(s).len() <= s.len(),
        take_word(s).len() + drop_word(s).len() == s.len(),
        s == take_word(s) + drop_word(s),
        drop_word(s).len() > 0 ==> is_ws(drop_word(s)[0]),
    decreases s.len(),
{
    if s.len() > 0 && !is_ws(s[0]) {
        lemma_drop_word_len(s.drop_first());
        assert(s =~= seq![s[0]] + s.drop_first());
        assert(seq![s[0]] + take_word(s.drop_first()) + drop_word(s.drop_first()) =~= seq![s[0]]
            + (take_word(s.drop_first()) + drop_word(s.drop_first())));
    }
}

pub proof fn lemma_trim_start_len(s: Seq<char>)
    ensures
        trim_start(s).len() <= s.len(),
        trim_start(s).len() > 0 ==> !is_ws(trim_start(s)[0]),
    decreases s.len(),
{
    if s.len() > 0 && is_ws(s[0]) {
        lemma_trim_start_len(s.drop_first());
    }
}

/// The position of the first non-whitespace character at or after `i`, or the end.
fn skip_ws_from(s: &[char], i: usize) -> (r: usize)
    requires
        i <= s@.len(),
    ensures
        i <= r <= s@.len(),
        trim_start(s@.skip(i as int)) == s@.skip(r as int),
{
    let mut j = i;
    while j < s.len() && is_whitespace(s[j])
        invariant
            i <= j <= s@.len(),
            trim_start(s@.skip(i as int)) == trim_start(s@.skip(j as int)),
        decreases s.len() - j,
    {
        assert(s@.skip(j as int).drop_first() =~= s@.skip(j + 1));
        j = j + 1;
    }
    j
}

/// The position of the first whitespace character at or after `i`, or the end.
fn skip_word_from(s: &[char], i: usize) -> (r: usize)
    requires
        i <= s@.len(),
    ensures
        i <= r <= s@.len(),
        drop_word(s@.skip(i as int)) == s@.skip(r as int),
        take_word(s@.skip(i as int)) == s@.subrange(i as int, r as int),
{
    let mut j = i;
    while j < s.len() && !is_whitespace(s[j])
        invariant
            i <= j <= s@.len(),
            drop_word(s@.skip(i as int)) == drop_word(s@.skip(j as int)),
            take_word(s@.skip(i as int)) == s@.subrange(i as int, j as int) + take_word(
                s@.skip(j as int),
            ),
        decreases s.len() - j,
    {
        assert(s@.skip(j as int).drop_first() =~= s@.skip(j + 1));
        assert(s@.subrange(i as int, j as int) + (seq![s@[j as int]] + take_word(s@.skip(j + 1)))
            =~= s@.subrange(i as int, j + 1) + take_word(s@.skip(j + 1)));
        j = j + 1;
    }
    assert(s@.subrange(i as int, j as int) + seq![] =~= s@.subrange(i as int, j as int));
    j
}

/// The `n`-th whitespace-separated word of `s` (`str::split_whitespace().nth(n)`).
pub fn nth_word_chars(s: &[char], n: usize) -> (r: Option<Vec<char>>)
    ensures
        match r {
            Some(w) => nth_word(s@, n as nat) == Some(w@),
            None => nth_word(s@, n as nat) is None,
        },
{
    let mut i: usize = 0;
    let mut k: usize = 0;
    assert(s@.skip(0) =~= s@);
    while k < n
        invariant
            i <= s@.len(),
            k <= n,
            nth_word(s@, n as nat) == nth_word(s@.skip(i as int), (n - k) as nat),
        decreases n - k,
    {
        let a = skip_ws_from(s, i);
        if a == s.len() {
            assert(s@.skip(a as int) =~= seq![]);
            return None;
        }
        let b = skip_word_from(s, a);
        proof {
            lemma_trim_start_len(s@.skip(i as int));
        }
        i = b;
        k = k + 1;
    }
    let a = skip_ws_from(s, i);
    if a == s.len() {
        assert(s@.skip(a as int) =~= seq![]);
        return None;
    }
    let b = skip_word_from(s, a);
    let w = slice_chars(s, a, b);
    Some(w)
}


// ───────────────────────── facts about decimal notation ─────────────────────────

/// The decimal notation of a number is a non-empty run of digits that reads back as the
/// number.
pub proof fn lemma_decimal_reads_back(n: nat)
    ensures
        decimal(n).len() > 0,
        all_digits(decimal(n)),
        digits_value(decimal(n)) == n,
    decreases n,
{
    assert(digit_char(n % 10) as int == n % 10 + 48);
    if n < 10 {
        assert(decimal(n) =~= seq![digit_char(n)]);
        assert(decimal(n).drop_last() =~= seq![]);
        assert(decimal(n).last() == digit_char(n));
        assert(n % 10 == n);
        assert(digits_value(seq![]) == 0);
        assert(digits_value(decimal(n)) == digits_value(decimal(n).drop_last()) * 10 + ((
        decimal(n).last() as int - 48) as nat));
    }
    if n >= 10 {
        lemma_decimal_reads_back(n / 10);
        let d = decimal(n / 10);
        let s = d.push(digit_char(n % 10));
        assert(s.drop_last() =~= d);
        assert(s.last() == digit_char(n % 10));
        assert(digits_value(s) == digits_value(d) * 10 + n % 10);
        assert(n == (n / 10) * 10 + n % 10);
        assert(decimal(n) == s);
        assert forall|i: int| 0 <= i < s.len() implies is_digit(#[trigger] s[i]) by {
            if i < d.len() {
                assert(s[i] == d[i]);
            }
        }
    }
}

/// Text without whitespace at its ends is its own trimmed form.
pub proof fn lemma_trim_digits(s: Seq<char>)
    requires
        s.len() > 0,
        all_digits(s),
    ensures
        trim(s) == s,
{
    assert(is_digit(s[0]));
    assert(trim_start(s) == s);
    assert(is_digit(s[s.len() - 1]));
    assert(s.last() == s[s.len() - 1]);
}

/// A run of digits reads as its value.
pub proof fn lemma_parse_digits(s: Seq<char>, max: nat)
    requires
        s.len() > 0,
        all_digits(s),
        digits_value(s) <= max,
    ensures
        parse_unsigned(s, max) == Some(digits_value(s)),
{
    assert(is_digit(s[0]));
}

/// A text with a character that is not a digit (past an optional leading `+`) reads as no
/// unsigned number.
pub proof fn lemma_parse_non_digit(s: Seq<char>, i: int, max: nat)
    requires
        0 < i < s.len(),
        !is_digit(s[i]),
    ensures
        parse_unsigned(s, max) is None,
{
    if s[0] == '+' {
        assert(s.drop_first()[i - 1] == s[i]);
    } else {
        assert(!is_digit(s[i]));
    }
}

/// Splitting `a`, `sep`, `b` at `sep`, where neither `a` nor `b` holds `sep`, gives `a` and
/// `b`.
pub proof fn lemma_split_two(a: Seq<char>, sep: char, b: Seq<char>)
    requires
        forall|i: int| 0 <= i < a.len() ==> a[i] != sep,
        forall|i: int| 0 <= i < b.len() ==> b[i] != sep,
    ensures
        split_on(a + seq![sep] + b, sep) == seq![a, b],
{
    let s = a + seq![sep] + b;
    assert forall|j: int| 0 <= j < a.len() implies s[j] != sep by {
        assert(s[j] == a[j]);
    }
    assert(s[a.len() as int] == sep);
    lemma_split_step(s, sep, 0, a.len() as int);
    assert(s.skip(0) =~= s);
    assert(s.subrange(0, a.len() as int) =~= a);
    assert(s.skip(a.len() + 1int) =~= b);
    assert forall|j: int| 0 <= j < b.len() implies b[j] != sep by {}
    assert(b.skip(0) =~= b);
    lemma_split_last(b, sep, 0);
    assert(seq![a] + seq![b] =~= seq![a, b]);
}

} // verus!
