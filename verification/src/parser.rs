//! The request-file parser: a line scanner with four states.

use crate::error::AppError;
use crate::line::{
    check_handler_close, check_handler_open, check_history, check_ignorable, check_separator,
    declaration, header_line, is_handler_close, is_handler_open, is_history, is_ignorable,
    is_separator, read_declaration, read_header_line, read_request_line, read_separator_name,
    request_line, separator_name,
};
use crate::text::{
    chars_of, copy_range, is_blank, join, join_lines, lemma_lines_after_a_line,
    lemma_lines_of_two_parts, lines, lines_of, next_line, pairs_of, same_text, string_of, text_of,
    trim, trim_end, trimmed, trimmed_end,
};
use vstd::prelude::*;

verus! {

/// The request methods that a request line may start with.
#[derive(Debug, Clone, Copy, PartialEq, Eq, Structural)]
pub enum HttpMethod {
    Get,
    Post,
    Put,
    Patch,
    Delete,
    Head,
    Options,
}

/// The method whose keyword is `s`, if there is one.
pub open spec fn method_named(s: Seq<char>) -> Option<HttpMethod> {
    if s == "GET"@ {
        Some(HttpMethod::Get)
    } else if s == "POST"@ {
        Some(HttpMethod::Post)
    } else if s == "PUT"@ {
        Some(HttpMethod::Put)
    } else if s == "PATCH"@ {
        Some(HttpMethod::Patch)
    } else if s == "DELETE"@ {
        Some(HttpMethod::Delete)
    } else if s == "HEAD"@ {
        Some(HttpMethod::Head)
    } else if s == "OPTIONS"@ {
        Some(HttpMethod::Options)
    } else {
        None
    }
}

impl HttpMethod {
    /// The keyword of the method, in upper case.
    pub open spec fn text(self) -> Seq<char> {
        match self {
            HttpMethod::Get => "GET"@,
            HttpMethod::Post => "POST"@,
            HttpMethod::Put => "PUT"@,
            HttpMethod::Patch => "PATCH"@,
            HttpMethod::Delete => "DELETE"@,
            HttpMethod::Head => "HEAD"@,
            HttpMethod::Options => "OPTIONS"@,
        }
    }

    /// The method whose keyword is exactly `s`; the keywords are upper case.
    pub fn from_str(s: &str) -> (r: Option<Self>)
        ensures
            r == method_named(s@),
    {
        if same_text(s, "GET") {
            Some(HttpMethod::Get)
        } else if same_text(s, "POST") {
            Some(HttpMethod::Post)
        } else if same_text(s, "PUT") {
            Some(HttpMethod::Put)
        } else if same_text(s, "PATCH") {
            Some(HttpMethod::Patch)
        } else if same_text(s, "DELETE") {
            Some(HttpMethod::Delete)
        } else if same_text(s, "HEAD") {
            Some(HttpMethod::Head)
        } else if same_text(s, "OPTIONS") {
            Some(HttpMethod::Options)
        } else {
            None
        }
    }

    /// The keyword of the method.
    pub fn as_str(&self) -> (r: &'static str)
        ensures
            r@ == self.text(),
    {
        match self {
            HttpMethod::Get => "GET",
            HttpMethod::Post => "POST",
            HttpMethod::Put => "PUT",
            HttpMethod::Patch => "PATCH",
            HttpMethod::Delete => "DELETE",
            HttpMethod::Head => "HEAD",
            HttpMethod::Options => "OPTIONS",
        }
    }
}

/// The keywords are seven different texts.
pub proof fn lemma_method_keywords()
    ensures
        "GET"@ == seq!['G', 'E', 'T'],
        "POST"@ == seq!['P', 'O', 'S', 'T'],
        "PUT"@ == seq!['P', 'U', 'T'],
        "PATCH"@ == seq!['P', 'A', 'T', 'C', 'H'],
        "DELETE"@ == seq!['D', 'E', 'L', 'E', 'T', 'E'],
        "HEAD"@ == seq!['H', 'E', 'A', 'D'],
        "OPTIONS"@ == seq!['O', 'P', 'T', 'I', 'O', 'N', 'S'],
{
    reveal_strlit("GET");
    reveal_strlit("POST");
    reveal_strlit("PUT");
    reveal_strlit("PATCH");
    reveal_strlit("DELETE");
    reveal_strlit("HEAD");
    reveal_strlit("OPTIONS");
}

/// Reading the keyword of a method gives the method back.
pub proof fn lemma_method_round_trip(m: HttpMethod)
    ensures
        method_named(m.text()) == Some(m),
{
    lemma_method_keywords();
}

/// One header of a request: a name and a value.
#[derive(Debug, Clone)]
pub struct Header {
    pub name: String,
    pub value: String,
}

/// What a header holds.
pub struct HeaderModel {
    pub name: Seq<char>,
    pub value: Seq<char>,
}

impl View for Header {
    type V = HeaderModel;

    open spec fn view(&self) -> HeaderModel {
        HeaderModel { name: self.name@, value: self.value@ }
    }
}

/// One request of a request file.
#[derive(Debug, Clone)]
pub struct ParsedRequest {
    /// The name that the separator before the request gave it.
    pub name: Option<String>,
    pub method: HttpMethod,
    /// The target, in which placeholders may still stand.
    pub url: String,
    /// The headers in the order of the file; a name may occur twice.
    pub headers: Vec<Header>,
    /// The body without its trailing white space, if it has one.
    pub body: Option<String>,
    /// The text of the response handler as it stands in the file, if it has one.
    pub response_handler: Option<String>,
    /// The number of the request line, the first line of the file being 1.
    pub line_number: usize,
}

/// What a request holds.
#[verifier::ext_equal]
pub struct RequestModel {
    pub name: Option<Seq<char>>,
    pub method: HttpMethod,
    pub url: Seq<char>,
    pub headers: Seq<HeaderModel>,
    pub body: Option<Seq<char>>,
    pub response_handler: Option<Seq<char>>,
    pub line_number: nat,
}

/// What each of the headers holds.
pub open spec fn headers_of(v: Seq<Header>) -> Seq<HeaderModel> {
    v.map_values(|h: Header| h@)
}

impl View for ParsedRequest {
    type V = RequestModel;

    open spec fn view(&self) -> RequestModel {
        RequestModel {
            name: text_of(self.name),
            method: self.method,
            url: self.url@,
            headers: headers_of(self.headers@),
            body: text_of(self.body),
            response_handler: text_of(self.response_handler),
            line_number: self.line_number as nat,
        }
    }
}

/// What each of the requests holds.
pub open spec fn requests_of(v: Seq<ParsedRequest>) -> Seq<RequestModel> {
    v.map_values(|r: ParsedRequest| r@)
}

/// What a request file holds: its requests and the variables it declares,
/// both in the order of the file.
pub struct ParseResult {
    pub requests: Vec<ParsedRequest>,
    pub in_place_vars: Vec<(String, String)>,
}

/// What a parse result holds.
#[verifier::ext_equal]
pub struct ParseModel {
    pub requests: Seq<RequestModel>,
    pub in_place_vars: Seq<(Seq<char>, Seq<char>)>,
}

impl View for ParseResult {
    type V = ParseModel;

    open spec fn view(&self) -> ParseModel {
        ParseModel {
            requests: requests_of(self.requests@),
            in_place_vars: pairs_of(self.in_place_vars@),
        }
    }
}

/// The four states of the scanner.
#[derive(Debug, Clone, Copy, PartialEq, Eq, Structural)]
pub enum ScanMode {
    /// Between requests: separators, declarations and a request line are read.
    AwaitingRequest,
    /// After a request line: headers are read.
    ReadingHeaders,
    /// After the blank line that ends the headers: the body is read.
    ReadingBody,
    /// Inside a response handler.
    ReadingHandler,
}

/// The request line that opened the request which is being read.
pub struct Opening {
    pub method: HttpMethod,
    pub url: Seq<char>,
    pub line_number: nat,
}

/// The body of a request whose body lines are `ls`: the lines joined,
/// without the trailing white space; none where nothing else is left.
pub open spec fn body_of(ls: Seq<Seq<char>>) -> Option<Seq<char>> {
    let text = join_lines(ls);
    if is_blank(text) {
        None
    } else {
        Some(trim_end(text))
    }
}

/// The handler of a request whose handler lines are `ls`: the lines joined,
/// unchanged; none where they hold nothing but white space.
pub open spec fn handler_of(ls: Seq<Seq<char>>) -> Option<Seq<char>> {
    let text = join_lines(ls);
    if is_blank(text) {
        None
    } else {
        Some(text)
    }
}

/// The scanner between two lines.
#[verifier::ext_equal]
pub struct ScannerModel {
    pub mode: ScanMode,
    /// The name that the next request to be closed gets.
    pub name: Option<Seq<char>>,
    /// The request line of the request that is being read.
    pub opening: Option<Opening>,
    pub headers: Seq<HeaderModel>,
    pub body: Seq<Seq<char>>,
    pub handler: Seq<Seq<char>>,
    /// The requests that are closed.
    pub requests: Seq<RequestModel>,
    pub declarations: Seq<(Seq<char>, Seq<char>)>,
}

impl ScannerModel {
    /// The scanner before the first line.
    pub open spec fn initial() -> ScannerModel {
        ScannerModel {
            mode: ScanMode::AwaitingRequest,
            name: None,
            opening: None,
            headers: Seq::empty(),
            body: Seq::empty(),
            handler: Seq::empty(),
            requests: Seq::empty(),
            declarations: Seq::empty(),
        }
    }

    /// What holds of the scanner between any two lines: a request line is
    /// remembered exactly while a request is read, headers are held only
    /// then, body lines only once the headers have ended, and handler lines
    /// only inside a handler.
    pub open spec fn consistent(self) -> bool {
        match self.mode {
            ScanMode::AwaitingRequest => self.opening is None && self.headers.len() == 0
                && self.body.len() == 0 && self.handler.len() == 0,
            ScanMode::ReadingHeaders => self.opening is Some && self.body.len() == 0
                && self.handler.len() == 0,
            ScanMode::ReadingBody => self.opening is Some && self.handler.len() == 0,
            ScanMode::ReadingHandler => self.opening is Some,
        }
    }

    /// The scanner in another state.
    pub open spec fn moved(self, mode: ScanMode) -> ScannerModel {
        ScannerModel { mode, ..self }
    }

    /// The scanner after a separator: a separator with a name replaces the
    /// name that is remembered, one without a name leaves it.
    pub open spec fn named(self, name: Option<Seq<char>>) -> ScannerModel {
        match name {
            Some(n) => ScannerModel { name: Some(n), ..self },
            None => self,
        }
    }

    /// The scanner after the request that is being read is closed. The
    /// request joins the closed ones, under the name that is remembered, and
    /// takes that name and the headers with it. The lines of body and handler
    /// are dropped in any case.
    pub open spec fn closed(self) -> ScannerModel {
        match self.opening {
            Some(o) => ScannerModel {
                mode: self.mode,
                name: None,
                opening: None,
                headers: Seq::empty(),
                body: Seq::empty(),
                handler: Seq::empty(),
                requests: self.requests.push(
                    RequestModel {
                        name: self.name,
                        method: o.method,
                        url: o.url,
                        headers: self.headers,
                        body: body_of(self.body),
                        response_handler: handler_of(self.handler),
                        line_number: o.line_number,
                    },
                ),
                declarations: self.declarations,
            },
            None => ScannerModel { body: Seq::empty(), handler: Seq::empty(), ..self },
        }
    }

    /// The scanner after a line between requests.
    pub open spec fn step_awaiting(self, t: Seq<char>, number: nat) -> ScannerModel {
        if is_ignorable(t) {
            if is_separator(t) {
                self.named(separator_name(t))
            } else {
                self
            }
        } else if declaration(t) is Some {
            ScannerModel { declarations: self.declarations.push(declaration(t)->0), ..self }
        } else if is_history(t) {
            self
        } else {
            match request_line(t) {
                Some(found) => ScannerModel {
                    mode: ScanMode::ReadingHeaders,
                    opening: Some(Opening { method: found.0, url: found.1, line_number: number }),
                    ..self
                },
                None => self,
            }
        }
    }

    /// The scanner after a line among the headers.
    pub open spec fn step_headers(self, t: Seq<char>) -> ScannerModel {
        if t.len() == 0 {
            self.moved(ScanMode::ReadingBody)
        } else if is_handler_open(t) {
            self.moved(ScanMode::ReadingHandler)
        } else if is_separator(t) {
            self.closed().named(separator_name(t)).moved(ScanMode::AwaitingRequest)
        } else if is_history(t) {
            self.closed().moved(ScanMode::AwaitingRequest)
        } else {
            match header_line(t) {
                Some(h) => ScannerModel { headers: self.headers.push(h), ..self },
                None => self,
            }
        }
    }

    /// The scanner after a line of the body; `line` is the line as it stands.
    pub open spec fn step_body(self, line: Seq<char>, t: Seq<char>) -> ScannerModel {
        if is_handler_open(t) {
            self.moved(ScanMode::ReadingHandler)
        } else if is_separator(t) {
            self.closed().named(separator_name(t)).moved(ScanMode::AwaitingRequest)
        } else if is_history(t) {
            self.closed().moved(ScanMode::AwaitingRequest)
        } else {
            ScannerModel { body: self.body.push(line), ..self }
        }
    }

    /// The scanner after a line of the handler; `line` is the line as it stands.
    pub open spec fn step_handler(self, line: Seq<char>, t: Seq<char>) -> ScannerModel {
        if is_handler_close(t) {
            self.closed().moved(ScanMode::AwaitingRequest)
        } else {
            ScannerModel { handler: self.handler.push(line), ..self }
        }
    }

    /// The scanner after the line `line`, which is line `number` of the file.
    /// The shape of a line is that of the line without the white space
    /// around it; body and handler keep the line as it stands.
    pub open spec fn step(self, line: Seq<char>, number: nat) -> ScannerModel {
        let t = trim(line);
        match self.mode {
            ScanMode::AwaitingRequest => self.step_awaiting(t, number),
            ScanMode::ReadingHeaders => self.step_headers(t),
            ScanMode::ReadingBody => self.step_body(line, t),
            ScanMode::ReadingHandler => self.step_handler(line, t),
        }
    }

    /// The scanner after the lines `ls`, the first of which is line `number`.
    pub open spec fn run(self, ls: Seq<Seq<char>>, number: nat) -> ScannerModel
        decreases ls.len(),
    {
        if ls.len() == 0 {
            self
        } else {
            self.step(ls[0], number).run(ls.drop_first(), number + 1)
        }
    }

    /// What was read once the input has ended: a request that is still being
    /// read is closed as a separator would close it.
    pub open spec fn result(self) -> ParseModel {
        ParseModel { requests: self.closed().requests, in_place_vars: self.declarations }
    }
}

/// What a request file with the text `text` holds.
pub open spec fn parse(text: Seq<char>) -> ParseModel {
    ScannerModel::initial().run(lines(text), 1).result()
}

/// The request line of the request that is being read.
struct Start {
    method: HttpMethod,
    url: String,
    line_number: usize,
}

/// The line scanner of the parser. It is fed the lines of a file one by one
/// and hands out what it read at the end.
pub struct Scanner {
    mode: ScanMode,
    name: Option<String>,
    start: Option<Start>,
    headers: Vec<Header>,
    body: Vec<Vec<char>>,
    handler: Vec<Vec<char>>,
    requests: Vec<ParsedRequest>,
    declarations: Vec<(String, String)>,
}

impl View for Scanner {
    type V = ScannerModel;

    closed spec fn view(&self) -> ScannerModel {
        ScannerModel {
            mode: self.mode,
            name: text_of(self.name),
            opening: match self.start {
                Some(s) => Some(
                    Opening { method: s.method, url: s.url@, line_number: s.line_number as nat },
                ),
                None => None,
            },
            headers: headers_of(self.headers@),
            body: lines_of(self.body@),
            handler: lines_of(self.handler@),
            requests: requests_of(self.requests@),
            declarations: pairs_of(self.declarations@),
        }
    }
}

/// The body that the lines `ls` make.
fn make_body(ls: &Vec<Vec<char>>) -> (r: Option<String>)
    ensures
        text_of(r) == body_of(lines_of(ls@)),
{
    let text = join(ls, '\n');
    if trimmed(&text).len() == 0 {
        None
    } else {
        Some(string_of(&trimmed_end(&text)))
    }
}

/// The handler that the lines `ls` make.
fn make_handler(ls: &Vec<Vec<char>>) -> (r: Option<String>)
    ensures
        text_of(r) == handler_of(lines_of(ls@)),
{
    let text = join(ls, '\n');
    if trimmed(&text).len() == 0 {
        None
    } else {
        Some(string_of(&text))
    }
}

impl Scanner {
    /// A scanner that has read nothing.
    pub fn new() -> (r: Scanner)
        ensures
            r@ == ScannerModel::initial(),
    {
        Scanner {
            mode: ScanMode::AwaitingRequest,
            name: None,
            start: None,
            headers: Vec::new(),
            body: Vec::new(),
            handler: Vec::new(),
            requests: Vec::new(),
            declarations: Vec::new(),
        }
    }

    /// The state that the scanner is in.
    pub fn mode(&self) -> (r: ScanMode)
        ensures
            r == self@.mode,
    {
        self.mode
    }

    fn rename(&mut self, name: Option<String>)
        ensures
            final(self)@ == old(self)@.named(text_of(name)),
    {
        if name.is_some() {
            self.name = name;
        }
    }

    fn close(&mut self)
        ensures
            final(self)@ == old(self)@.closed(),
    {
        if let Some(s) = self.start.take() {
            let body = make_body(&self.body);
            let response_handler = make_handler(&self.handler);
            let name = self.name.take();
            let mut headers: Vec<Header> = Vec::new();
            std::mem::swap(&mut headers, &mut self.headers);
            self.requests.push(
                ParsedRequest {
                    name,
                    method: s.method,
                    url: s.url,
                    headers,
                    body,
                    response_handler,
                    line_number: s.line_number,
                },
            );
        }
        self.body = Vec::new();
        self.handler = Vec::new();
    }

    fn feed_awaiting(&mut self, t: &Vec<char>, number: usize)
        ensures
            final(self)@ == old(self)@.step_awaiting(t@, number as nat),
    {
        if check_ignorable(t) {
            if check_separator(t) {
                let name = read_separator_name(t);
                self.rename(name);
            }
        } else {
            if let Some(d) = read_declaration(t) {
                self.declarations.push(d);
            } else if !check_history(t) {
                if let Some(found) = read_request_line(t) {
                    self.start = Some(
                        Start { method: found.0, url: found.1, line_number: number },
                    );
                    self.mode = ScanMode::ReadingHeaders;
                }
            }
        }
    }

    fn end_request(&mut self, t: &Vec<char>)
        requires
            is_separator(t@) || is_history(t@),
        ensures
            is_separator(t@) ==> final(self)@ == old(self)@.closed().named(
                separator_name(t@),
            ).moved(ScanMode::AwaitingRequest),
            !is_separator(t@) ==> final(self)@ == old(self)@.closed().moved(
                ScanMode::AwaitingRequest,
            ),
    {
        self.close();
        if check_separator(t) {
            let name = read_separator_name(t);
            self.rename(name);
        }
        self.mode = ScanMode::AwaitingRequest;
    }

    fn feed_headers(&mut self, t: &Vec<char>)
        ensures
            final(self)@ == old(self)@.step_headers(t@),
    {
        if t.len() == 0 {
            self.mode = ScanMode::ReadingBody;
        } else if check_handler_open(t) {
            self.mode = ScanMode::ReadingHandler;
        } else if check_separator(t) || check_history(t) {
            self.end_request(t);
        } else {
            if let Some(h) = read_header_line(t) {
                self.headers.push(h);
            }
        }
    }

    fn feed_body(&mut self, line: &Vec<char>, t: &Vec<char>)
        ensures
            final(self)@ == old(self)@.step_body(line@, t@),
    {
        if check_handler_open(t) {
            self.mode = ScanMode::ReadingHandler;
        } else if check_separator(t) || check_history(t) {
            self.end_request(t);
        } else {
            let kept = copy_range(line, 0, line.len());
            assert(kept@ =~= line@);
            self.body.push(kept);
        }
    }

    fn feed_handler(&mut self, line: &Vec<char>, t: &Vec<char>)
        ensures
            final(self)@ == old(self)@.step_handler(line@, t@),
    {
        if check_handler_close(t) {
            self.close();
            self.mode = ScanMode::AwaitingRequest;
        } else {
            let kept = copy_range(line, 0, line.len());
            assert(kept@ =~= line@);
            self.handler.push(kept);
        }
    }

    /// Reads one line, given as its characters.
    pub fn feed_chars(&mut self, line: &Vec<char>, number: usize)
        ensures
            final(self)@ == old(self)@.step(line@, number as nat),
    {
        let t = trimmed(line);
        match self.mode {
            ScanMode::AwaitingRequest => self.feed_awaiting(&t, number),
            ScanMode::ReadingHeaders => self.feed_headers(&t),
            ScanMode::ReadingBody => self.feed_body(line, &t),
            ScanMode::ReadingHandler => self.feed_handler(line, &t),
        }
    }

    /// Reads one line, which is line `number` of the file.
    pub fn feed(&mut self, line: &str, number: usize)
        ensures
            final(self)@ == old(self)@.step(line@, number as nat),
    {
        let chars = chars_of(line);
        self.feed_chars(&chars, number);
    }

    /// Ends the input and hands out what was read.
    pub fn finish(self) -> (r: ParseResult)
        ensures
            r@ == self@.result(),
    {
        let mut s = self;
        s.close();
        ParseResult { requests: s.requests, in_place_vars: s.declarations }
    }
}

/// Reads a request file. Every text is accepted: a line of no known shape is
/// passed over, and so is a request without a request line.
pub fn parse_http_file(content: &str) -> (r: Result<ParseResult, AppError>)
    ensures
        r is Ok,
        r->Ok_0@ == parse(content@),
{
    let text = chars_of(content);
    let mut scanner = Scanner::new();
    let mut pos: usize = 0;
    let mut count: usize = 0;
    assert(text@.skip(0) =~= text@);
    while pos < text.len()
        invariant
            count <= pos <= text.len(),
            ScannerModel::initial().run(lines(text@), 1) == scanner@.run(
                lines(text@.skip(pos as int)),
                (count + 1) as nat,
            ),
        decreases text.len() - pos,
    {
        let (line, next) = next_line(&text, pos);
        count += 1;
        let ghost rest = lines(text@.skip(pos as int));
        scanner.feed_chars(&line, count);
        assert(rest.drop_first() =~= lines(text@.skip(next as int)));
        pos = next;
    }
    Ok(scanner.finish())
}

/// Every line leaves the scanner consistent.
pub proof fn lemma_step_consistent(st: ScannerModel, line: Seq<char>, number: nat)
    requires
        st.consistent(),
    ensures
        st.step(line, number).consistent(),
{
}

/// The scanner is consistent after any lines, from its start on.
pub proof fn lemma_run_consistent(st: ScannerModel, ls: Seq<Seq<char>>, number: nat)
    requires
        st.consistent(),
    ensures
        st.run(ls, number).consistent(),
    decreases ls.len(),
{
    if ls.len() > 0 {
        lemma_step_consistent(st, ls[0], number);
        lemma_run_consistent(st.step(ls[0], number), ls.drop_first(), number + 1);
    }
}

/// Reading lines in two parts is reading them in one.
pub proof fn lemma_run_of_two_parts(
    st: ScannerModel,
    first: Seq<Seq<char>>,
    second: Seq<Seq<char>>,
    number: nat,
)
    ensures
        st.run(first + second, number) == st.run(first, number).run(second, number + first.len()),
    decreases first.len(),
{
    if first.len() == 0 {
        assert(first + second =~= second);
    } else {
        assert((first + second)[0] == first[0]);
        assert((first + second).drop_first() =~= first.drop_first() + second);
        lemma_run_of_two_parts(st.step(first[0], number), first.drop_first(), second, number + 1);
    }
}

/// A handler that no line closes runs to the end of the input. While the
/// scanner reads a handler, every line that is no closing mark is kept as
/// it stands, and the end of the input closes the request with all these
/// lines as its handler.
pub proof fn lemma_unclosed_handler(st: ScannerModel, ls: Seq<Seq<char>>, number: nat)
    requires
        st.mode == ScanMode::ReadingHandler,
        st.opening is Some,
        forall|i: int| 0 <= i < ls.len() ==> !is_handler_close(trim(#[trigger] ls[i])),
    ensures
        st.run(ls, number) == (ScannerModel { handler: st.handler + ls, ..st }),
        st.run(ls, number).result().requests == st.requests.push(
            RequestModel {
                name: st.name,
                method: st.opening->0.method,
                url: st.opening->0.url,
                headers: st.headers,
                body: body_of(st.body),
                response_handler: handler_of(st.handler + ls),
                line_number: st.opening->0.line_number,
            },
        ),
    decreases ls.len(),
{
    if ls.len() == 0 {
        assert(st.handler + ls =~= st.handler);
    } else {
        let next = st.step(ls[0], number);
        assert(next == (ScannerModel { handler: st.handler.push(ls[0]), ..st }));
        let rest = ls.drop_first();
        assert forall|i: int| 0 <= i < rest.len() implies !is_handler_close(
            trim(#[trigger] rest[i]),
        ) by {
            assert(rest[i] == ls[i + 1]);
        }
        lemma_unclosed_handler(next, rest, number + 1);
        assert(next.handler + rest =~= st.handler + ls);
    }
}

/// A handler that is opened and never closed is everything from the line
/// after its opening to the end of the file. `head` is the file up to the
/// opening, in whole lines, and ends inside a request; `open` is the
/// opening line; `tail` is what follows it and holds no closing line. The
/// file then adds one request to those of `head`, and its handler is made
/// of all the lines of `tail`.
pub proof fn lemma_unterminated_handler(head: Seq<char>, open: Seq<char>, tail: Seq<char>)
    requires
        head.len() > 0 ==> head.last() == '\n',
        forall|i: int| 0 <= i < open.len() ==> #[trigger] open[i] != '\n' && open[i] != '\r',
        is_handler_open(trim(open)),
        ScannerModel::initial().run(lines(head), 1).mode == ScanMode::ReadingHeaders
            || ScannerModel::initial().run(lines(head), 1).mode == ScanMode::ReadingBody,
        forall|i: int|
            0 <= i < lines(tail).len() ==> !is_handler_close(trim(#[trigger] lines(tail)[i])),
    ensures
        ({
            let before = ScannerModel::initial().run(lines(head), 1);
            let found = parse(head + (open + seq!['\n'] + tail)).requests;
            &&& before.opening is Some
            &&& found.len() == before.requests.len() + 1
            &&& found.take(before.requests.len() as int) == before.requests
            &&& found.last().response_handler == handler_of(lines(tail))
            &&& found.last().body == body_of(before.body)
            &&& found.last().line_number == before.opening->0.line_number
        }),
{
    let start = ScannerModel::initial();
    let before = start.run(lines(head), 1);
    let rest = open + seq!['\n'] + tail;
    lemma_lines_of_two_parts(head, rest);
    lemma_lines_after_a_line(open, tail);
    lemma_run_of_two_parts(start, lines(head), lines(rest), 1);
    lemma_run_consistent(start, lines(head), 1);
    let number = (1 + lines(head).len()) as nat;
    let opened = before.step(open, number);
    assert(lines(rest)[0] == open);
    assert(lines(rest).drop_first() =~= lines(tail));
    assert(trim(open).len() > 0) by {
        reveal_strlit(">");
    }
    assert(opened == before.moved(ScanMode::ReadingHandler));
    lemma_unclosed_handler(opened, lines(tail), number + 1);
    assert(opened.handler + lines(tail) =~= lines(tail));
    let found = parse(head + rest).requests;
    assert(found.take(before.requests.len() as int) =~= before.requests);
}

} // verus!
