//! Text as sequences of characters.
//!
//! Every rule of this crate is stated over `Seq<char>`, the view of `str` and
//! `String`. Executable code works on `Vec<char>` and turns the result back
//! into a `String` at the end.

use crate::digits::{is_decimal_digit, is_decimal_digit_char};
use vstd::prelude::*;

verus! {

/// `String::push` appends exactly one character to the end of the string.
pub assume_specification[ String::push ](s: &mut String, ch: char)
    ensures
        final(s)@ == old(s)@.push(ch),
;

/// The characters of `s`, in order.
pub fn chars_of(s: &str) -> (v: Vec<char>)
    ensures
        v@ == s@,
{
    let mut v: Vec<char> = Vec::new();
    for c in it: s.chars()
        invariant
            v@ == it.seq().take(it.index() as int),
    {
        v.push(c);
    }
    v
}

/// The string made of the characters `v[from..to]`.
pub fn string_of_range(v: &Vec<char>, from: usize, to: usize) -> (s: String)
    requires
        from <= to <= v.len(),
    ensures
        s@ == v@.subrange(from as int, to as int),
{
    let mut s = String::new();
    let mut i: usize = from;
    while i < to
        invariant
            from <= i <= to <= v.len(),
            s@ == v@.subrange(from as int, i as int),
        decreases to - i,
    {
        s.push(v[i]);
        i += 1;
    }
    s
}

/// The string made of all the characters of `v`.
pub fn string_of(v: &Vec<char>) -> (s: String)
    ensures
        s@ == v@,
{
    let s = string_of_range(v, 0, v.len());
    s
}

/// A copy of the characters `v[from..to]`.
pub fn copy_range(v: &Vec<char>, from: usize, to: usize) -> (r: Vec<char>)
    requires
        from <= to <= v.len(),
    ensures
        r@ == v@.subrange(from as int, to as int),
{
    let mut r: Vec<char> = Vec::new();
    let mut i: usize = from;
    while i < to
        invariant
            from <= i <= to <= v.len(),
            r@ == v@.subrange(from as int, i as int),
        decreases to - i,
    {
        r.push(v[i]);
        i += 1;
    }
    r
}

/// Appends the characters of `v` to `out`.
pub fn append(out: &mut Vec<char>, v: &Vec<char>)
    ensures
        final(out)@ == old(out)@ + v@,
{
    let mut i: usize = 0;
    while i < v.len()
        invariant
            i <= v.len(),
            out@ == old(out)@ + v@.take(i as int),
        decreases v.len() - i,
    {
        out.push(v[i]);
        i += 1;
    }
}

/// Whether `a` and `b` hold the same characters.
pub fn same_chars(a: &Vec<char>, b: &Vec<char>) -> (r: bool)
    ensures
        r == (a@ == b@),
{
    if a.len() != b.len() {
        return false;
    }
    let mut i: usize = 0;
    while i < a.len()
        invariant
            i <= a.len(),
            a.len() == b.len(),
            a@.take(i as int) == b@.take(i as int),
        decreases a.len() - i,
    {
        if a[i] != b[i] {
            return false;
        }
        i += 1;
    }
    assert(a@.take(a@.len() as int) =~= a@);
    assert(b@.take(b@.len() as int) =~= b@);
    true
}

/// Whether two strings hold the same characters.
pub fn same_text(a: &str, b: &str) -> (r: bool)
    ensures
        r == (a@ == b@),
{
    let x = chars_of(a);
    let y = chars_of(b);
    same_chars(&x, &y)
}

/// Whether `c` has the Unicode property `White_Space`.
pub open spec fn is_space(c: char) -> bool {
    let u = c as u32;
    ||| 0x09 <= u <= 0x0D
    ||| u == 0x20
    ||| u == 0x85
    ||| u == 0xA0
    ||| u == 0x1680
    ||| 0x2000 <= u <= 0x200A
    ||| u == 0x2028
    ||| u == 0x2029
    ||| u == 0x202F
    ||| u == 0x205F
    ||| u == 0x3000
}

/// Whether `c` is an ASCII letter.
pub open spec fn is_ascii_letter(c: char) -> bool {
    ('a' <= c <= 'z') || ('A' <= c <= 'Z')
}

/// Whether `c` is an ASCII decimal digit.
pub open spec fn is_ascii_digit(c: char) -> bool {
    '0' <= c <= '9'
}

/// The sets of characters that the scanners of this crate run over.
#[derive(Clone, Copy, Debug)]
pub enum CharClass {
    /// Unicode white space.
    Space,
    /// Anything but white space.
    NonSpace,
    /// Anything but a line feed.
    NotLineFeed,
    /// ASCII letters, ASCII digits and `-`.
    HeaderName,
    /// Decimal digits of any script and `.`.
    Version,
    /// Anything but `}`.
    NotCloseBrace,
    /// ASCII digits.
    Digit,
    /// Anything but `;`.
    NotSemicolon,
}

impl CharClass {
    /// Whether `c` belongs to the class.
    pub open spec fn has(self, c: char) -> bool {
        match self {
            CharClass::Space => is_space(c),
            CharClass::NonSpace => !is_space(c),
            CharClass::NotLineFeed => c != '\n',
            CharClass::HeaderName => is_ascii_letter(c) || is_ascii_digit(c) || c == '-',
            CharClass::Version => is_decimal_digit(c) || c == '.',
            CharClass::NotCloseBrace => c != '}',
            CharClass::Digit => is_ascii_digit(c),
            CharClass::NotSemicolon => c != ';',
        }
    }

    /// Whether `c` belongs to the class.
    pub fn contains(&self, c: char) -> (r: bool)
        ensures
            r == self.has(c),
    {
        match self {
            CharClass::Space => is_space_char(c),
            CharClass::NonSpace => !is_space_char(c),
            CharClass::NotLineFeed => c != '\n',
            CharClass::HeaderName => {
                ('a' <= c && c <= 'z') || ('A' <= c && c <= 'Z') || ('0' <= c && c <= '9') || c
                    == '-'
            },
            CharClass::Version => is_decimal_digit_char(c) || c == '.',
            CharClass::NotCloseBrace => c != '}',
            CharClass::Digit => '0' <= c && c <= '9',
            CharClass::NotSemicolon => c != ';',
        }
    }
}

/// Whether `c` is white space.
pub fn is_space_char(c: char) -> (r: bool)
    ensures
        r == is_space(c),
{
    let u: u32 = c as u32;
    (0x09 <= u && u <= 0x0D) || u == 0x20 || u == 0x85 || u == 0xA0 || u == 0x1680 || (0x2000 <= u
        && u <= 0x200A) || u == 0x2028 || u == 0x2029 || u == 0x202F || u == 0x205F || u == 0x3000
}

/// The number of characters from position `from` on that belong to `class`,
/// up to the first one that does not.
pub open spec fn run_len(s: Seq<char>, from: int, class: CharClass) -> nat
    decreases s.len() - from,
{
    if 0 <= from < s.len() && class.has(s[from]) {
        1 + run_len(s, from + 1, class)
    } else {
        0
    }
}

/// The position at which the run of `class` that starts at `from` ends.
pub open spec fn run_end(s: Seq<char>, from: int, class: CharClass) -> int {
    from + run_len(s, from, class)
}

/// A run ends inside the text, holds only characters of its class, and is
/// followed by a character outside the class or by the end of the text.
pub proof fn lemma_run_end(s: Seq<char>, from: int, class: CharClass)
    requires
        0 <= from <= s.len(),
    ensures
        from <= run_end(s, from, class) <= s.len(),
        forall|i: int| from <= i < run_end(s, from, class) ==> class.has(#[trigger] s[i]),
        run_end(s, from, class) < s.len() ==> !class.has(s[run_end(s, from, class)]),
    decreases s.len() - from,
{
    if from < s.len() && class.has(s[from]) {
        lemma_run_end(s, from + 1, class);
    }
}

/// A position `to` is the end of the run from `from` as soon as everything
/// before it is in the class and it is itself not.
pub proof fn lemma_run_end_is(s: Seq<char>, from: int, to: int, class: CharClass)
    requires
        0 <= from <= to <= s.len(),
        forall|i: int| from <= i < to ==> class.has(#[trigger] s[i]),
        to < s.len() ==> !class.has(s[to]),
    ensures
        run_end(s, from, class) == to,
    decreases to - from,
{
    if from < to {
        lemma_run_end_is(s, from + 1, to, class);
    }
}

/// The end of the run of `class` in `v` that starts at `from`.
pub fn scan(v: &Vec<char>, from: usize, class: CharClass) -> (to: usize)
    requires
        from <= v.len(),
    ensures
        to == run_end(v@, from as int, class),
        from <= to <= v.len(),
{
    let mut i: usize = from;
    while i < v.len() && class.contains(v[i])
        invariant
            from <= i <= v.len(),
            forall|j: int| from <= j < i ==> class.has(#[trigger] v@[j]),
        decreases v.len() - i,
    {
        i += 1;
    }
    proof {
        lemma_run_end_is(v@, from as int, i as int, class);
    }
    i
}

/// The length of `s` without its trailing white space.
pub open spec fn trimmed_len(s: Seq<char>) -> nat
    decreases s.len(),
{
    if s.len() > 0 && is_space(s.last()) {
        trimmed_len(s.drop_last())
    } else {
        s.len()
    }
}

/// `s` without its leading white space.
pub open spec fn trim_start(s: Seq<char>) -> Seq<char> {
    s.skip(run_end(s, 0, CharClass::Space))
}

/// `s` without its trailing white space.
pub open spec fn trim_end(s: Seq<char>) -> Seq<char> {
    s.take(trimmed_len(s) as int)
}

/// `s` without its leading and trailing white space.
pub open spec fn trim(s: Seq<char>) -> Seq<char> {
    trim_end(trim_start(s))
}

/// Whether `s` holds nothing but white space.
pub open spec fn is_blank(s: Seq<char>) -> bool {
    trim(s).len() == 0
}

/// A length `n` is the trimmed length as soon as everything from it on is
/// white space and the character before it is not.
pub proof fn lemma_trimmed_len_is(s: Seq<char>, n: int)
    requires
        0 <= n <= s.len(),
        forall|i: int| n <= i < s.len() ==> is_space(#[trigger] s[i]),
        n > 0 ==> !is_space(s[n - 1]),
    ensures
        trimmed_len(s) == n,
    decreases s.len(),
{
    if s.len() > n {
        let t = s.drop_last();
        assert forall|i: int| n <= i < t.len() implies is_space(#[trigger] t[i]) by {
            assert(t[i] == s[i]);
        }
        lemma_trimmed_len_is(t, n);
    }
}

/// The length of what is left of `v[from..to]` once its trailing white space
/// is cut off, as a position in `v`.
pub fn scan_back(v: &Vec<char>, from: usize, to: usize) -> (k: usize)
    requires
        from <= to <= v.len(),
    ensures
        from <= k <= to,
        k - from == trimmed_len(v@.subrange(from as int, to as int)),
{
    let mut k: usize = to;
    while k > from && is_space_char(v[k - 1])
        invariant
            from <= k <= to <= v.len(),
            forall|j: int| k <= j < to ==> is_space(#[trigger] v@[j]),
        decreases k,
    {
        k -= 1;
    }
    proof {
        let s = v@.subrange(from as int, to as int);
        assert forall|i: int| k - from <= i < s.len() implies is_space(#[trigger] s[i]) by {
            assert(s[i] == v@[from + i]);
        }
        lemma_trimmed_len_is(s, k - from);
    }
    k
}

/// `v` without its leading and trailing white space.
pub fn trimmed(v: &Vec<char>) -> (r: Vec<char>)
    ensures
        r@ == trim(v@),
{
    let a = scan(v, 0, CharClass::Space);
    let b = scan_back(v, a, v.len());
    proof {
        let s = v@.skip(a as int);
        assert(s =~= v@.subrange(a as int, v@.len() as int));
        assert(s.take(b - a) =~= v@.subrange(a as int, b as int));
    }
    copy_range(v, a, b)
}

/// `v` without its trailing white space.
pub fn trimmed_end(v: &Vec<char>) -> (r: Vec<char>)
    ensures
        r@ == trim_end(v@),
{
    let b = scan_back(v, 0, v.len());
    assert(v@.subrange(0, v@.len() as int) =~= v@);
    copy_range(v, 0, b)
}

/// Whether `s` holds `p` from position `at` on.
pub open spec fn has_at(s: Seq<char>, at: int, p: Seq<char>) -> bool {
    0 <= at && at + p.len() <= s.len() && s.subrange(at, at + p.len()) == p
}

/// Whether `v` holds the characters of `p` from position `at` on.
pub fn holds_at(v: &Vec<char>, at: usize, p: &str) -> (r: bool)
    requires
        at <= v.len(),
    ensures
        r == has_at(v@, at as int, p@),
{
    let n = p.unicode_len();
    if n > v.len() - at {
        return false;
    }
    let mut i: usize = 0;
    while i < n
        invariant
            i <= n,
            n == p@.len(),
            at + n <= v.len(),
            v@.subrange(at as int, at + i) == p@.take(i as int),
        decreases n - i,
    {
        let c = p.get_char(i);
        if v[at + i] != c {
            proof {
                let w = v@.subrange(at as int, at + n);
                assert(w[i as int] != p@[i as int]);
            }
            return false;
        }
        assert(v@.subrange(at as int, at + i + 1) =~= v@.subrange(at as int, at + i).push(
            v@[at + i],
        ));
        assert(p@.take(i + 1) =~= p@.take(i as int).push(p@[i as int]));
        i += 1;
    }
    assert(p@.take(n as int) =~= p@);
    true
}

/// A run counted in what is left after `from` characters is the run counted
/// from position `from`.
pub proof fn lemma_run_end_skip(s: Seq<char>, from: int, class: CharClass)
    requires
        0 <= from <= s.len(),
    ensures
        from + run_end(s.skip(from), 0, class) == run_end(s, from, class),
{
    let to = run_end(s, from, class);
    lemma_run_end(s, from, class);
    let rest = s.skip(from);
    assert forall|i: int| 0 <= i < to - from implies class.has(#[trigger] rest[i]) by {
        assert(rest[i] == s[from + i]);
    }
    lemma_run_end_is(rest, 0, to - from, class);
}

/// `l` without one carriage return at its end.
pub open spec fn strip_cr(l: Seq<char>) -> Seq<char> {
    if l.len() > 0 && l.last() == '\r' {
        l.drop_last()
    } else {
        l
    }
}

/// The first line of a text that is not empty: what stands before the first
/// line feed, without a carriage return just before it; the whole text where
/// it holds no line feed.
pub open spec fn first_line(s: Seq<char>) -> Seq<char> {
    let k = run_end(s, 0, CharClass::NotLineFeed);
    if k < s.len() {
        strip_cr(s.take(k))
    } else {
        s
    }
}

/// What follows the first line and its line feed.
pub open spec fn after_first_line(s: Seq<char>) -> Seq<char> {
    let k = run_end(s, 0, CharClass::NotLineFeed);
    if k < s.len() {
        s.skip(k + 1)
    } else {
        Seq::empty()
    }
}

/// The lines of a text. A line ends at a line feed or at a carriage return
/// and a line feed; the end of the text ends the last line, and a line feed
/// at the end of the text starts no further line.
pub open spec fn lines(s: Seq<char>) -> Seq<Seq<char>>
    decreases s.len(),
{
    if s.len() == 0 {
        Seq::empty()
    } else {
        seq![first_line(s)] + lines(after_first_line(s))
    }
}

/// The texts `ls` put together, with `sep` between two of them.
pub open spec fn joined(ls: Seq<Seq<char>>, sep: char) -> Seq<char>
    decreases ls.len(),
{
    if ls.len() == 0 {
        Seq::empty()
    } else if ls.len() == 1 {
        ls[0]
    } else {
        joined(ls.drop_last(), sep) + seq![sep] + ls.last()
    }
}

/// The lines put together again, with one line feed between two of them.
pub open spec fn join_lines(ls: Seq<Seq<char>>) -> Seq<char> {
    joined(ls, '\n')
}

/// What each of the vectors holds.
pub open spec fn lines_of(v: Seq<Vec<char>>) -> Seq<Seq<char>> {
    v.map_values(|l: Vec<char>| l@)
}

/// The line of `v` that starts at `pos`, and the position after it.
pub fn next_line(v: &Vec<char>, pos: usize) -> (r: (Vec<char>, usize))
    requires
        pos < v.len(),
    ensures
        pos < r.1 <= v.len(),
        r.0@ == first_line(v@.skip(pos as int)),
        v@.skip(r.1 as int) == after_first_line(v@.skip(pos as int)),
{
    let k = scan(v, pos, CharClass::NotLineFeed);
    proof {
        lemma_run_end_skip(v@, pos as int, CharClass::NotLineFeed);
    }
    if k < v.len() {
        let end = if k > pos && v[k - 1] == '\r' {
            k - 1
        } else {
            k
        };
        (copy_range(v, pos, end), k + 1)
    } else {
        (copy_range(v, pos, k), k)
    }
}

/// The texts `ls` put together, with `sep` between two of them.
pub fn join(ls: &Vec<Vec<char>>, sep: char) -> (r: Vec<char>)
    ensures
        r@ == joined(lines_of(ls@), sep),
{
    let mut r: Vec<char> = Vec::new();
    let mut i: usize = 0;
    while i < ls.len()
        invariant
            i <= ls.len(),
            r@ == joined(lines_of(ls@).take(i as int), sep),
        decreases ls.len() - i,
    {
        let ghost before = lines_of(ls@).take(i as int);
        let ghost now = lines_of(ls@).take(i + 1);
        assert(now.drop_last() =~= before);
        if i > 0 {
            r.push(sep);
        }
        append(&mut r, &ls[i]);
        i += 1;
    }
    assert(lines_of(ls@).take(ls@.len() as int) =~= lines_of(ls@));
    r
}

/// What an optional string holds.
pub open spec fn text_of(o: Option<String>) -> Option<Seq<char>> {
    match o {
        Some(s) => Some(s@),
        None => None,
    }
}

/// What each of the pairs holds.
pub open spec fn pairs_of(v: Seq<(String, String)>) -> Seq<(Seq<char>, Seq<char>)> {
    v.map_values(|p: (String, String)| (p.0@, p.1@))
}

/// What each of the strings holds.
pub open spec fn texts_of(v: Seq<String>) -> Seq<Seq<char>> {
    v.map_values(|s: String| s@)
}

/// The character of the decimal digit `d`.
pub open spec fn digit(d: nat) -> char {
    if d == 0 {
        '0'
    } else if d == 1 {
        '1'
    } else if d == 2 {
        '2'
    } else if d == 3 {
        '3'
    } else if d == 4 {
        '4'
    } else if d == 5 {
        '5'
    } else if d == 6 {
        '6'
    } else if d == 7 {
        '7'
    } else if d == 8 {
        '8'
    } else {
        '9'
    }
}

/// The number `n` in decimal digits, without leading zeros.
pub open spec fn decimal(n: nat) -> Seq<char>
    decreases n,
{
    if n < 10 {
        seq![digit(n)]
    } else {
        decimal(n / 10).push(digit(n % 10))
    }
}

/// The character of the decimal digit `d`.
pub fn digit_char(d: u64) -> (c: char)
    requires
        d < 10,
    ensures
        c == digit(d as nat),
{
    if d == 0 {
        '0'
    } else if d == 1 {
        '1'
    } else if d == 2 {
        '2'
    } else if d == 3 {
        '3'
    } else if d == 4 {
        '4'
    } else if d == 5 {
        '5'
    } else if d == 6 {
        '6'
    } else if d == 7 {
        '7'
    } else if d == 8 {
        '8'
    } else {
        '9'
    }
}

/// Appends the decimal digits of `n` to `out`.
pub fn push_decimal(out: &mut Vec<char>, n: u64)
    ensures
        final(out)@ == old(out)@ + decimal(n as nat),
    decreases n,
{
    if n >= 10 {
        push_decimal(out, n / 10);
    }
    out.push(digit_char(n % 10));
}

/// The number `n` in decimal digits.
pub fn decimal_chars(n: u64) -> (r: Vec<char>)
    ensures
        r@ == decimal(n as nat),
{
    let mut r: Vec<char> = Vec::new();
    push_decimal(&mut r, n);
    r
}

/// The number `n` in decimal digits.
pub fn decimal_string(n: u64) -> (r: String)
    ensures
        r@ == decimal(n as nat),
{
    string_of(&decimal_chars(n))
}

/// The first position at or after `from` at which `s` holds `p`, or -1.
pub open spec fn find(s: Seq<char>, p: Seq<char>, from: int) -> int
    decreases s.len() + 1 - from,
{
    if from < 0 || from + p.len() > s.len() {
        -1
    } else if has_at(s, from, p) {
        from
    } else {
        find(s, p, from + 1)
    }
}

/// Whether `s` holds `p` somewhere.
pub open spec fn contains_text(s: Seq<char>, p: Seq<char>) -> bool {
    find(s, p, 0) >= 0
}

/// The first position at or after `from` at which `v` holds the characters
/// of `p`.
pub fn find_in(v: &Vec<char>, p: &Vec<char>, from: usize) -> (r: Option<usize>)
    requires
        from <= v.len(),
    ensures
        match r {
            Some(k) => k == find(v@, p@, from as int) && from <= k && k + p.len() <= v.len(),
            None => find(v@, p@, from as int) == -1,
        },
{
    if p.len() > v.len() {
        return None;
    }
    let last = v.len() - p.len();
    let mut at: usize = from;
    while at <= last
        invariant
            from <= at,
            last == v.len() - p.len(),
            find(v@, p@, from as int) == find(v@, p@, at as int),
        decreases last - at,
    {
        if same_chars(&copy_range(v, at, at + p.len()), p) {
            return Some(at);
        }
        if at == last {
            assert(find(v@, p@, at + 1) == -1);
            return None;
        }
        at += 1;
    }
    None
}

/// `c` in lower case where it is an ASCII letter in upper case; else `c`.
pub open spec fn ascii_lower(c: char) -> char {
    if 'A' <= c <= 'Z' {
        ((c as u8) + 32) as char
    } else {
        c
    }
}

/// `c` in lower case where it is an ASCII letter in upper case; else `c`.
pub fn ascii_lower_char(c: char) -> (r: char)
    ensures
        r == ascii_lower(c),
{
    if 'A' <= c && c <= 'Z' {
        ((c as u8) + 32) as char
    } else {
        c
    }
}

/// Whether `s` holds, from position `at` on, the text `p` in upper or lower
/// case; `p` is in lower case.
pub open spec fn has_at_ignoring_case(s: Seq<char>, at: int, p: Seq<char>) -> bool {
    &&& 0 <= at
    &&& at + p.len() <= s.len()
    &&& forall|i: int| 0 <= i < p.len() ==> ascii_lower(#[trigger] s[at + i]) == p[i]
}

/// Whether `v` holds, from position `at` on, the characters of `p` in upper
/// or lower case.
pub fn holds_at_ignoring_case(v: &Vec<char>, at: usize, p: &str) -> (r: bool)
    requires
        at <= v.len(),
    ensures
        r == has_at_ignoring_case(v@, at as int, p@),
{
    let n = p.unicode_len();
    if n > v.len() - at {
        return false;
    }
    let mut i: usize = 0;
    while i < n
        invariant
            i <= n,
            n == p@.len(),
            at + n <= v.len(),
            forall|j: int| 0 <= j < i ==> ascii_lower(#[trigger] v@[at + j]) == p@[j],
        decreases n - i,
    {
        if ascii_lower_char(v[at + i]) != p.get_char(i) {
            return false;
        }
        i += 1;
    }
    true
}

/// The text in lower case, as `str::to_lowercase` gives it.
pub uninterp spec fn lowercase(s: Seq<char>) -> Seq<char>;

/// `str::to_lowercase`: the text with each character in its lower case as
/// Unicode defines it. The result depends on the text alone.
#[verifier::external_body]
pub(crate) fn to_lowercase(s: &str) -> (r: String)
    ensures
        r@ == lowercase(s@),
{
    s.to_lowercase()
}

/// Whether `s` ends with `p`.
pub open spec fn ends_with(s: Seq<char>, p: Seq<char>) -> bool {
    has_at(s, s.len() - p.len(), p)
}

/// The lines of a text in two parts, the first of which is empty or ends in
/// a line feed, are the lines of the first part and then those of the
/// second.
pub proof fn lemma_lines_of_two_parts(a: Seq<char>, b: Seq<char>)
    requires
        a.len() > 0 ==> a.last() == '\n',
    ensures
        lines(a + b) == lines(a) + lines(b),
    decreases a.len(),
{
    if a.len() == 0 {
        assert(a + b =~= b);
        assert(lines(a) + lines(b) =~= lines(b));
    } else {
        let whole = a + b;
        let k = run_end(a, 0, CharClass::NotLineFeed);
        lemma_run_end(a, 0, CharClass::NotLineFeed);
        assert(k < a.len()) by {
            if k == a.len() {
                assert(CharClass::NotLineFeed.has(a[a.len() - 1]));
            }
        }
        assert forall|i: int| 0 <= i < k implies CharClass::NotLineFeed.has(
            #[trigger] whole[i],
        ) by {
            assert(whole[i] == a[i]);
        }
        assert(whole[k] == a[k]);
        lemma_run_end_is(whole, 0, k, CharClass::NotLineFeed);
        assert(whole.take(k) =~= a.take(k));
        let rest = a.skip(k + 1);
        assert(whole.skip(k + 1) =~= rest + b);
        if rest.len() > 0 {
            assert(rest.last() == a.last());
        }
        lemma_lines_of_two_parts(rest, b);
        assert(lines(whole) =~= lines(a) + lines(b));
    }
}

/// A text that starts with a line without line feed and without carriage
/// return at its end, followed by a line feed, has this line as its first
/// line and the lines of the rest after it.
pub proof fn lemma_lines_after_a_line(line: Seq<char>, rest: Seq<char>)
    requires
        forall|i: int| 0 <= i < line.len() ==> #[trigger] line[i] != '\n',
        line.len() > 0 ==> line.last() != '\r',
    ensures
        lines(line + seq!['\n'] + rest) == seq![line] + lines(rest),
{
    let whole = line + seq!['\n'] + rest;
    let k = line.len() as int;
    assert forall|i: int| 0 <= i < k implies CharClass::NotLineFeed.has(#[trigger] whole[i]) by {
        assert(whole[i] == line[i]);
    }
    assert(whole[k] == '\n');
    lemma_run_end_is(whole, 0, k, CharClass::NotLineFeed);
    assert(whole.take(k) =~= line);
    assert(whole.skip(k + 1) =~= rest);
}

} // verus!
