//! The view of a response that a handler is given.

use crate::text::{
    chars_of, copy_range, has_at_ignoring_case, holds_at_ignoring_case, lemma_run_end, lowercase,
    pairs_of, run_end, same_text, scan, string_of, text_of, texts_of, to_lowercase, trim, trimmed,
    CharClass,
};
use vstd::prelude::*;

verus! {

#[verifier::external_type_specification]
#[verifier::external_body]
pub struct ExJsonValue(serde_json::Value);

/// Whether `serde_json::from_str` reads `text` as one JSON value.
pub uninterp spec fn is_json(text: Seq<char>) -> bool;

/// `serde_json::from_str` with `serde_json::Value` as its target: the value
/// that the text is, where the whole text is one JSON value, and nothing
/// where it is not. Whether it is depends on the text alone.
#[verifier::external_body]
fn parse_json(text: &str) -> (r: Option<serde_json::Value>)
    ensures
        r is Some == is_json(text@),
{
    serde_json::from_str(text).ok()
}

/// A content type: the type itself and the character set it names.
#[derive(Debug, Clone)]
pub struct ContentType {
    pub mime_type: String,
    pub charset: Option<String>,
}

/// What a content type holds.
pub struct ContentTypeModel {
    pub mime_type: Seq<char>,
    pub charset: Option<Seq<char>>,
}

impl View for ContentType {
    type V = ContentTypeModel;

    open spec fn view(&self) -> ContentTypeModel {
        ContentTypeModel { mime_type: self.mime_type@, charset: text_of(self.charset) }
    }
}

/// The character set that one part of a content type names: what follows
/// `charset=`, written in upper or lower case, at the start of the part.
/// White space around the part and around the name is left out.
pub open spec fn charset_of_part(part: Seq<char>) -> Option<Seq<char>> {
    let t = trim(part);
    if has_at_ignoring_case(t, 0, "charset="@) {
        Some(trim(t.skip("charset="@.len() as int)))
    } else {
        None
    }
}

/// The character set that the first part from position `from` on names
/// which names one; the parts are what stands between two `;`.
pub open spec fn charset_from(s: Seq<char>, from: int) -> Option<Seq<char>>
    decreases s.len() - from,
{
    if from < 0 || from > s.len() {
        None
    } else {
        let end = run_end(s, from, CharClass::NotSemicolon);
        match charset_of_part(s.subrange(from, end)) {
            Some(c) => Some(c),
            None => if end < s.len() {
                charset_from(s, end + 1)
            } else {
                None
            },
        }
    }
}

/// The content type that the header value `s` gives. The type is the part
/// before the first `;` without the white space around it. The character
/// set is looked for in the parts after the first.
pub open spec fn content_type(s: Seq<char>) -> ContentTypeModel {
    let end = run_end(s, 0, CharClass::NotSemicolon);
    ContentTypeModel {
        mime_type: trim(s.take(end)),
        charset: if end < s.len() {
            charset_from(s, end + 1)
        } else {
            None
        },
    }
}

/// The character set that the part `v[from..to]` names.
fn read_charset(v: &Vec<char>, from: usize, to: usize) -> (r: Option<String>)
    requires
        from <= to <= v.len(),
    ensures
        text_of(r) == charset_of_part(v@.subrange(from as int, to as int)),
{
    let t = trimmed(&copy_range(v, from, to));
    if holds_at_ignoring_case(&t, 0, "charset=") {
        let rest = copy_range(&t, "charset=".unicode_len(), t.len());
        Some(string_of(&trimmed(&rest)))
    } else {
        None
    }
}

/// The content type that the header value `value` gives.
pub fn parse_content_type(value: &str) -> (r: ContentType)
    ensures
        r@ == content_type(value@),
{
    let v = chars_of(value);
    let end = scan(&v, 0, CharClass::NotSemicolon);
    let first = copy_range(&v, 0, end);
    let mime_type = string_of(&trimmed(&first));
    let mut charset: Option<String> = None;
    let mut at: usize = end;
    proof {
        lemma_run_end(v@, 0, CharClass::NotSemicolon);
    }
    while at < v.len()
        invariant_except_break
            at <= v.len(),
            at < v.len() ==> v@[at as int] == ';',
            charset is None,
            content_type(v@).charset == if at < v.len() {
                charset_from(v@, at + 1)
            } else {
                None
            },
        ensures
            content_type(v@).charset == text_of(charset),
        decreases v.len() - at,
    {
        let from = at + 1;
        let to = scan(&v, from, CharClass::NotSemicolon);
        proof {
            lemma_run_end(v@, from as int, CharClass::NotSemicolon);
        }
        let found = read_charset(&v, from, to);
        if found.is_some() {
            charset = found;
            break ;
        }
        at = to;
    }
    ContentType { mime_type, charset }
}

/// The values, in order, of the headers among `pairs` whose name is `name`;
/// names are the same where they are the same in lower case.
pub open spec fn values_named(pairs: Seq<(Seq<char>, Seq<char>)>, name: Seq<char>) -> Seq<
    Seq<char>,
>
    decreases pairs.len(),
{
    if pairs.len() == 0 {
        Seq::empty()
    } else {
        let front = values_named(pairs.drop_last(), name);
        if lowercase(pairs.last().0) == lowercase(name) {
            front.push(pairs.last().1)
        } else {
            front
        }
    }
}

/// The first of the values of the headers named `name`.
pub open spec fn value_named(pairs: Seq<(Seq<char>, Seq<char>)>, name: Seq<char>) -> Option<
    Seq<char>,
> {
    let all = values_named(pairs, name);
    if all.len() > 0 {
        Some(all[0])
    } else {
        None
    }
}

/// The values, in order, of the headers among `pairs` whose name is `name`.
pub fn header_values(pairs: &Vec<(String, String)>, name: &str) -> (r: Vec<String>)
    ensures
        texts_of(r@) == values_named(pairs_of(pairs@), name@),
{
    let wanted = to_lowercase(name);
    let mut out: Vec<String> = Vec::new();
    let mut i: usize = 0;
    while i < pairs.len()
        invariant
            i <= pairs.len(),
            wanted@ == lowercase(name@),
            texts_of(out@) == values_named(pairs_of(pairs@).take(i as int), name@),
        decreases pairs.len() - i,
    {
        let ghost all = pairs_of(pairs@);
        assert(all.take(i + 1).drop_last() =~= all.take(i as int));
        let here = to_lowercase(pairs[i].0.as_str());
        if same_text(here.as_str(), wanted.as_str()) {
            out.push(pairs[i].1.clone());
        }
        i += 1;
    }
    assert(pairs_of(pairs@).take(pairs@.len() as int) =~= pairs_of(pairs@));
    out
}

/// The first of the values of the headers named `name`.
pub fn header_value(pairs: &Vec<(String, String)>, name: &str) -> (r: Option<String>)
    ensures
        text_of(r) == value_named(pairs_of(pairs@), name@),
{
    let all = header_values(pairs, name);
    if all.len() > 0 {
        Some(all[0].clone())
    } else {
        None
    }
}

/// A response as a handler sees it.
#[derive(Debug, Clone)]
pub struct HttpResponse {
    pub status: u16,
    /// The headers in the order in which they came; a name may occur twice.
    pub headers: Vec<(String, String)>,
    pub body_raw: String,
    /// The body as a JSON value, where it is one.
    pub body_json: Option<serde_json::Value>,
    /// What the first `content-type` header says, where there is one.
    pub content_type: Option<ContentType>,
    pub elapsed_ms: u128,
}

/// What a response holds; of the JSON value only that there is one.
pub struct ResponseModel {
    pub status: int,
    pub headers: Seq<(Seq<char>, Seq<char>)>,
    pub body: Seq<char>,
    pub structured: bool,
    pub content_type: Option<ContentTypeModel>,
    pub elapsed_ms: int,
}

impl View for HttpResponse {
    type V = ResponseModel;

    open spec fn view(&self) -> ResponseModel {
        ResponseModel {
            status: self.status as int,
            headers: pairs_of(self.headers@),
            body: self.body_raw@,
            structured: self.body_json is Some,
            content_type: match self.content_type {
                Some(c) => Some(c@),
                None => None,
            },
            elapsed_ms: self.elapsed_ms as int,
        }
    }
}

/// The view of the response that was received with the status `status`, the
/// headers `headers` and the body `body` after `elapsed_ms` milliseconds.
pub open spec fn response_of(
    status: int,
    headers: Seq<(Seq<char>, Seq<char>)>,
    body: Seq<char>,
    elapsed_ms: int,
) -> ResponseModel {
    ResponseModel {
        status,
        headers,
        body,
        structured: is_json(body),
        content_type: match value_named(headers, "content-type"@) {
            Some(v) => Some(content_type(v)),
            None => None,
        },
        elapsed_ms,
    }
}

impl HttpResponse {
    /// The view of a response that was received. The body is read as JSON
    /// where it is JSON; where it is not, the view has the text alone.
    pub fn build(status: u16, headers: Vec<(String, String)>, body_raw: String, elapsed_ms: u128) -> (r:
        HttpResponse)
        ensures
            r@ == response_of(status as int, pairs_of(headers@), body_raw@, elapsed_ms as int),
    {
        let content_type = match header_value(&headers, "content-type") {
            Some(v) => Some(parse_content_type(v.as_str())),
            None => None,
        };
        let body_json = parse_json(body_raw.as_str());
        HttpResponse { status, headers, body_raw, body_json, content_type, elapsed_ms }
    }

    /// The first value of the header `name`, whatever the case of the name.
    pub fn header_value(&self, name: &str) -> (r: Option<String>)
        ensures
            text_of(r) == value_named(self@.headers, name@),
    {
        header_value(&self.headers, name)
    }

    /// All values of the header `name`, in the order in which they came,
    /// whatever the case of the name.
    pub fn header_values(&self, name: &str) -> (r: Vec<String>)
        ensures
            texts_of(r@) == values_named(self@.headers, name@),
    {
        header_values(&self.headers, name)
    }
}

} // verus!
