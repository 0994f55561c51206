//! The shapes that one line of a request file can have.
//!
//! Each shape is a spec function over the line's characters. The scanner
//! applies them to a line without its leading and trailing white space; they
//! are defined for every text that holds no line feed.

use crate::parser::{Header, HeaderModel, HttpMethod};
use crate::text::{
    copy_range, has_at, holds_at, run_end, scan, string_of, string_of_range, trim, trimmed,
    CharClass,
};
use vstd::prelude::*;

verus! {

/// A blank line or a comment: nothing, or a start with `//` or `#`.
pub open spec fn is_ignorable(t: Seq<char>) -> bool {
    t.len() == 0 || has_at(t, 0, "//"@) || has_at(t, 0, "#"@)
}

/// A separator between requests: a start with `###`.
pub open spec fn is_separator(t: Seq<char>) -> bool {
    has_at(t, 0, "###"@)
}

/// The name that a separator gives to the request after it: what follows
/// `###`, without the white space around it, unless that is nothing.
pub open spec fn separator_name(t: Seq<char>) -> Option<Seq<char>> {
    let rest = trim(t.skip("###"@.len() as int));
    if rest.len() > 0 {
        Some(rest)
    } else {
        None
    }
}

/// A marker of a stored response: `<>` and white space after it.
pub open spec fn is_history(t: Seq<char>) -> bool {
    let n = "<>"@.len() as int;
    has_at(t, 0, "<>"@) && n < t.len() && CharClass::Space.has(t[n])
}

/// The opening of a handler: `>`, any white space, `{%`, and nothing after
/// it but white space.
pub open spec fn is_handler_open(t: Seq<char>) -> bool {
    let a = run_end(t, ">"@.len() as int, CharClass::Space);
    let b = a + "{%"@.len();
    has_at(t, 0, ">"@) && has_at(t, a, "{%"@) && run_end(t, b, CharClass::Space) == t.len()
}

/// The closing of a handler: `%}` with nothing but white space around it.
pub open spec fn is_handler_close(t: Seq<char>) -> bool {
    let a = run_end(t, 0, CharClass::Space);
    let b = a + "%}"@.len();
    has_at(t, a, "%}"@) && run_end(t, b, CharClass::Space) == t.len()
}

/// The method whose keyword the line starts with.
pub open spec fn leading_method(t: Seq<char>) -> Option<HttpMethod> {
    if has_at(t, 0, HttpMethod::Get.text()) {
        Some(HttpMethod::Get)
    } else if has_at(t, 0, HttpMethod::Post.text()) {
        Some(HttpMethod::Post)
    } else if has_at(t, 0, HttpMethod::Put.text()) {
        Some(HttpMethod::Put)
    } else if has_at(t, 0, HttpMethod::Patch.text()) {
        Some(HttpMethod::Patch)
    } else if has_at(t, 0, HttpMethod::Delete.text()) {
        Some(HttpMethod::Delete)
    } else if has_at(t, 0, HttpMethod::Head.text()) {
        Some(HttpMethod::Head)
    } else if has_at(t, 0, HttpMethod::Options.text()) {
        Some(HttpMethod::Options)
    } else {
        None
    }
}

/// Whether the line ends, from position `c` on, in white space, `HTTP/` and
/// one or more digits and dots; the digits may be those of any script.
pub open spec fn is_version_tail(t: Seq<char>, c: int) -> bool {
    let d = run_end(t, c, CharClass::Space);
    let v = d + "HTTP/"@.len();
    let e = run_end(t, v, CharClass::Version);
    c < d && has_at(t, d, "HTTP/"@) && v < e && e == t.len()
}

/// A request line: a method, white space, a target without white space, and
/// then either nothing or a protocol version. Gives the method and the target.
pub open spec fn request_line(t: Seq<char>) -> Option<(HttpMethod, Seq<char>)> {
    match leading_method(t) {
        None => None,
        Some(m) => {
            let a = m.text().len() as int;
            let b = run_end(t, a, CharClass::Space);
            let c = run_end(t, b, CharClass::NonSpace);
            if a < b && b < c && (c == t.len() || is_version_tail(t, c)) {
                Some((m, t.subrange(b, c)))
            } else {
                None
            }
        },
    }
}

/// A header line: a name of ASCII letters, digits and `-`, any white space,
/// `:`, and at least one character after it. The value is what follows the
/// colon, without the white space around it.
pub open spec fn header_line(t: Seq<char>) -> Option<HeaderModel> {
    let a = run_end(t, 0, CharClass::HeaderName);
    let b = run_end(t, a, CharClass::Space);
    if 0 < a && b + 1 < t.len() && t[b] == ':' {
        Some(HeaderModel { name: t.take(a), value: trim(t.skip(b + 1)) })
    } else {
        None
    }
}

/// The last position in `[lo, hi)` that holds `=`, or `lo - 1`.
pub open spec fn last_equals(t: Seq<char>, lo: int, hi: int) -> int
    decreases hi - lo,
{
    if hi <= lo {
        lo - 1
    } else if t[hi - 1] == '=' {
        hi - 1
    } else {
        last_equals(t, lo, hi - 1)
    }
}

/// The position of the `=` that parts name and value in a declaration.
///
/// The name is the longest start of the first word after `@` that an `=` and
/// at least one more character follow. So the whole word is the name where
/// white space and `=` come after it; else the name ends before the last `=`
/// inside the word, the line's last character not counted.
pub open spec fn declaration_split(t: Seq<char>) -> Option<int> {
    let r = run_end(t, 1, CharClass::NonSpace);
    let e = run_end(t, r, CharClass::Space);
    let hi = if r < t.len() - 1 {
        r
    } else {
        t.len() - 1
    };
    if t.len() == 0 || t[0] != '@' || r <= 1 {
        None
    } else if e + 1 < t.len() && t[e] == '=' {
        Some(e)
    } else if last_equals(t, 2, hi) >= 2 {
        Some(last_equals(t, 2, hi))
    } else {
        None
    }
}

/// A declaration of a variable: `@`, a name without white space, `=`, and a
/// value. Gives the name and the value, the value without the white space
/// around it.
pub open spec fn declaration(t: Seq<char>) -> Option<(Seq<char>, Seq<char>)> {
    match declaration_split(t) {
        None => None,
        Some(k) => {
            let r = run_end(t, 1, CharClass::NonSpace);
            let end = if k < r {
                k
            } else {
                r
            };
            Some((t.subrange(1, end), trim(t.skip(k + 1))))
        },
    }
}

/// Whether the line is blank or a comment.
pub fn check_ignorable(t: &Vec<char>) -> (r: bool)
    ensures
        r == is_ignorable(t@),
{
    t.len() == 0 || holds_at(t, 0, "//") || holds_at(t, 0, "#")
}

/// Whether the line is a separator.
pub fn check_separator(t: &Vec<char>) -> (r: bool)
    ensures
        r == is_separator(t@),
{
    holds_at(t, 0, "###")
}

/// The name that the separator `t` gives.
pub fn read_separator_name(t: &Vec<char>) -> (r: Option<String>)
    requires
        is_separator(t@),
    ensures
        r is Some == separator_name(t@) is Some,
        r is Some ==> r->0@ == separator_name(t@)->0,
{
    let n = "###".unicode_len();
    let rest = copy_range(t, n, t.len());
    let name = trimmed(&rest);
    if name.len() > 0 {
        Some(string_of(&name))
    } else {
        None
    }
}

/// Whether the line marks a stored response.
pub fn check_history(t: &Vec<char>) -> (r: bool)
    ensures
        r == is_history(t@),
{
    let n = "<>".unicode_len();
    holds_at(t, 0, "<>") && n < t.len() && CharClass::Space.contains(t[n])
}

/// Whether the line opens a handler.
pub fn check_handler_open(t: &Vec<char>) -> (r: bool)
    ensures
        r == is_handler_open(t@),
{
    if !holds_at(t, 0, ">") {
        return false;
    }
    let a = scan(t, ">".unicode_len(), CharClass::Space);
    if !holds_at(t, a, "{%") {
        return false;
    }
    let b = a + "{%".unicode_len();
    scan(t, b, CharClass::Space) == t.len()
}

/// Whether the line closes a handler.
pub fn check_handler_close(t: &Vec<char>) -> (r: bool)
    ensures
        r == is_handler_close(t@),
{
    let a = scan(t, 0, CharClass::Space);
    if !holds_at(t, a, "%}") {
        return false;
    }
    let b = a + "%}".unicode_len();
    scan(t, b, CharClass::Space) == t.len()
}

/// The method whose keyword the line starts with.
pub fn read_method(t: &Vec<char>) -> (r: Option<HttpMethod>)
    ensures
        r == leading_method(t@),
{
    if holds_at(t, 0, HttpMethod::Get.as_str()) {
        Some(HttpMethod::Get)
    } else if holds_at(t, 0, HttpMethod::Post.as_str()) {
        Some(HttpMethod::Post)
    } else if holds_at(t, 0, HttpMethod::Put.as_str()) {
        Some(HttpMethod::Put)
    } else if holds_at(t, 0, HttpMethod::Patch.as_str()) {
        Some(HttpMethod::Patch)
    } else if holds_at(t, 0, HttpMethod::Delete.as_str()) {
        Some(HttpMethod::Delete)
    } else if holds_at(t, 0, HttpMethod::Head.as_str()) {
        Some(HttpMethod::Head)
    } else if holds_at(t, 0, HttpMethod::Options.as_str()) {
        Some(HttpMethod::Options)
    } else {
        None
    }
}

/// Whether the line ends in a protocol version from position `c` on.
pub fn check_version_tail(t: &Vec<char>, c: usize) -> (r: bool)
    requires
        c <= t.len(),
    ensures
        r == is_version_tail(t@, c as int),
{
    let d = scan(t, c, CharClass::Space);
    if !(c < d) || !holds_at(t, d, "HTTP/") {
        return false;
    }
    let v = d + "HTTP/".unicode_len();
    let e = scan(t, v, CharClass::Version);
    v < e && e == t.len()
}

/// The method and the target of a request line.
pub fn read_request_line(t: &Vec<char>) -> (r: Option<(HttpMethod, String)>)
    ensures
        match (r, request_line(t@)) {
            (Some(found), Some(wanted)) => found.0 == wanted.0 && found.1@ == wanted.1,
            (None, None) => true,
            _ => false,
        },
{
    match read_method(t) {
        None => None,
        Some(m) => {
            let a = m.as_str().unicode_len();
            let b = scan(t, a, CharClass::Space);
            let c = scan(t, b, CharClass::NonSpace);
            if a < b && b < c && (c == t.len() || check_version_tail(t, c)) {
                Some((m, string_of_range(t, b, c)))
            } else {
                None
            }
        },
    }
}

/// The name and the value of a header line.
pub fn read_header_line(t: &Vec<char>) -> (r: Option<Header>)
    ensures
        r is Some == header_line(t@) is Some,
        r is Some ==> r->0@ == header_line(t@)->0,
{
    let a = scan(t, 0, CharClass::HeaderName);
    let b = scan(t, a, CharClass::Space);
    if 0 < a && b < t.len() && b + 1 < t.len() && t[b] == ':' {
        let rest = copy_range(t, b + 1, t.len());
        let value = trimmed(&rest);
        Some(Header { name: string_of_range(t, 0, a), value: string_of(&value) })
    } else {
        None
    }
}

/// The last position in `[lo, hi)` that holds `=`.
fn find_last_equals(t: &Vec<char>, lo: usize, hi: usize) -> (r: Option<usize>)
    requires
        1 <= lo,
        hi <= t.len(),
    ensures
        match r {
            Some(k) => k == last_equals(t@, lo as int, hi as int) && lo <= k < hi,
            None => last_equals(t@, lo as int, hi as int) == lo - 1,
        },
{
    let mut k: usize = hi;
    while k > lo
        invariant
            k <= hi <= t.len(),
            last_equals(t@, lo as int, hi as int) == last_equals(t@, lo as int, k as int),
        decreases k,
    {
        if t[k - 1] == '=' {
            return Some(k - 1);
        }
        k -= 1;
    }
    None
}

/// The position of the `=` that parts name and value in a declaration.
fn find_declaration_split(t: &Vec<char>) -> (r: Option<usize>)
    ensures
        r is Some == declaration_split(t@) is Some,
        r is Some ==> r->0 == declaration_split(t@)->0 && 1 < r->0 && r->0 + 1 < t.len(),
{
    if t.len() == 0 || t[0] != '@' {
        return None;
    }
    let r = scan(t, 1, CharClass::NonSpace);
    if r <= 1 {
        return None;
    }
    let e = scan(t, r, CharClass::Space);
    if e < t.len() && e + 1 < t.len() && t[e] == '=' {
        return Some(e);
    }
    let hi = if r < t.len() - 1 {
        r
    } else {
        t.len() - 1
    };
    find_last_equals(t, 2, hi)
}

/// The name and the value of a declaration.
pub fn read_declaration(t: &Vec<char>) -> (r: Option<(String, String)>)
    ensures
        match (r, declaration(t@)) {
            (Some(found), Some(wanted)) => found.0@ == wanted.0 && found.1@ == wanted.1,
            (None, None) => true,
            _ => false,
        },
{
    match find_declaration_split(t) {
        None => None,
        Some(k) => {
            let r = scan(t, 1, CharClass::NonSpace);
            let end = if k < r {
                k
            } else {
                r
            };
            let rest = copy_range(t, k + 1, t.len());
            let value = trimmed(&rest);
            Some((string_of_range(t, 1, end), string_of(&value)))
        },
    }
}

} // verus!
