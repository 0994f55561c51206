//! What the report of a run says, before it is printed.

use crate::js::runtime::TestResult;
use crate::parser::ParsedRequest;
use crate::text::{
    append, chars_of, decimal, lines, next_line, push_decimal, string_of, texts_of,
};
use vstd::prelude::*;

verus! {

/// How a status is shown.
#[derive(Debug, Clone, Copy, PartialEq, Eq, Structural)]
pub enum StatusClass {
    /// 200 to 299.
    Success,
    /// 300 to 399.
    Redirect,
    /// Any other status.
    Failure,
}

/// How the status `status` is shown.
pub open spec fn class_of(status: int) -> StatusClass {
    if 200 <= status <= 299 {
        StatusClass::Success
    } else if 300 <= status <= 399 {
        StatusClass::Redirect
    } else {
        StatusClass::Failure
    }
}

/// How the status `status` is shown.
pub fn status_class(status: u16) -> (r: StatusClass)
    ensures
        r == class_of(status as int),
{
    if 200 <= status && status <= 299 {
        StatusClass::Success
    } else if 300 <= status && status <= 399 {
        StatusClass::Redirect
    } else {
        StatusClass::Failure
    }
}

/// The number of lines of a body that are shown.
pub const PREVIEW_LINES: usize = 30;

/// The start of a body: the lines that are shown, and the number of lines
/// that are not.
#[derive(Debug, Clone)]
pub struct Preview {
    pub lines: Vec<String>,
    pub hidden: usize,
}

/// The lines of `text` that are shown: the first 30.
pub open spec fn shown_lines(text: Seq<char>) -> Seq<Seq<char>> {
    if lines(text).len() > PREVIEW_LINES {
        lines(text).take(PREVIEW_LINES as int)
    } else {
        lines(text)
    }
}

/// The number of lines of `text` that are not shown.
pub open spec fn hidden_lines(text: Seq<char>) -> int {
    if lines(text).len() > PREVIEW_LINES {
        lines(text).len() - PREVIEW_LINES
    } else {
        0
    }
}

/// The start of the body `display`.
pub fn preview(display: &str) -> (r: Preview)
    ensures
        texts_of(r.lines@) == shown_lines(display@),
        r.hidden == hidden_lines(display@),
{
    let text = chars_of(display);
    let mut shown: Vec<String> = Vec::new();
    let mut hidden: usize = 0;
    let mut pos: usize = 0;
    let ghost mut done: Seq<Seq<char>> = Seq::empty();
    assert(text@.skip(0) =~= text@);
    while pos < text.len()
        invariant
            pos <= text.len(),
            lines(text@) == done + lines(text@.skip(pos as int)),
            done.len() <= pos,
            done.len() <= PREVIEW_LINES ==> texts_of(shown@) == done && hidden == 0,
            done.len() > PREVIEW_LINES ==> texts_of(shown@) == done.take(PREVIEW_LINES as int)
                && hidden == done.len() - PREVIEW_LINES,
        decreases text.len() - pos,
    {
        let (line, next) = next_line(&text, pos);
        if shown.len() < PREVIEW_LINES {
            shown.push(string_of(&line));
        } else {
            hidden += 1;
        }
        proof {
            done = done.push(line@);
        }
        pos = next;
    }
    Preview { lines: shown, hidden }
}

/// The note under a body of which `hidden` lines are not shown.
pub open spec fn hidden_note(hidden: nat) -> Seq<char> {
    "... ("@ + decimal(hidden) + " more lines)"@
}

/// The note under a body of which `hidden` lines are not shown.
pub fn hidden_lines_note(hidden: usize) -> (r: String)
    ensures
        r@ == hidden_note(hidden as nat),
{
    let mut out = chars_of("... (");
    push_decimal(&mut out, hidden as u64);
    append(&mut out, &chars_of(" more lines)"));
    string_of(&out)
}

/// The name under which a request without a name is shown.
pub open spec fn unnamed() -> Seq<char> {
    "Unnamed request"@
}

/// The name under which `request` is shown.
pub fn display_name(request: &ParsedRequest) -> (r: String)
    ensures
        r@ == match request@.name {
            Some(name) => name,
            None => unnamed(),
        },
{
    match &request.name {
        Some(name) => name.clone(),
        None => "Unnamed request".to_owned(),
    }
}

/// The label of the request with the number `index`.
pub fn index_label(index: usize) -> (r: String)
    ensures
        r@ == "["@ + decimal(index as nat) + "]"@,
{
    let mut out = chars_of("[");
    push_decimal(&mut out, index as u64);
    append(&mut out, &chars_of("]"));
    string_of(&out)
}

/// The reason that is shown for a failure: the one recorded with it, or
/// `Assertion failed`.
pub fn failure_reason(result: &TestResult) -> (r: String)
    ensures
        r@ == match result@.failure_message {
            Some(reason) => reason,
            None => "Assertion failed"@,
        },
{
    match &result.failure_message {
        Some(reason) => reason.clone(),
        None => "Assertion failed".to_owned(),
    }
}

/// The last line of the report.
pub open spec fn summary(total: nat, passed: nat, failed: nat, errors: nat) -> Seq<char> {
    "Requests: "@ + decimal(total) + "  |  Tests passed: "@ + decimal(passed)
        + "  |  Tests failed: "@ + decimal(failed) + "  |  Errors: "@ + decimal(errors)
}

/// The last line of the report.
pub fn summary_line(total: usize, passed: usize, failed: usize, errors: usize) -> (r: String)
    ensures
        r@ == summary(total as nat, passed as nat, failed as nat, errors as nat),
{
    let mut out = chars_of("Requests: ");
    push_decimal(&mut out, total as u64);
    append(&mut out, &chars_of("  |  Tests passed: "));
    push_decimal(&mut out, passed as u64);
    append(&mut out, &chars_of("  |  Tests failed: "));
    push_decimal(&mut out, failed as u64);
    append(&mut out, &chars_of("  |  Errors: "));
    push_decimal(&mut out, errors as u64);
    string_of(&out)
}

} // verus!
