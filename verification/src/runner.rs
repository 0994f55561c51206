//! What a run over the requests of a file decides: which requests are run,
//! what is sent for each, and how the run ends.

use crate::error::{AppError, ErrorModel};
use crate::js::client::restored;
use crate::js::runtime::{
    outcomes_of, passes, HandlerResult, OutcomeModel, RunModel, TestResult,
};
use crate::parser::{requests_of, Header, ParsedRequest, RequestModel};
use crate::text::{
    append, chars_of, contains_text, decimal, find, find_in, is_ascii_digit, is_ascii_letter,
    lowercase, push_decimal, string_of, text_of, to_lowercase, trim, trimmed,
};
use crate::variable::{StoreModel, VariableStore};
use vstd::prelude::*;

verus! {

/// Whether `c` may stand in a scheme after its first character.
pub open spec fn is_scheme_char(c: char) -> bool {
    is_ascii_letter(c) || is_ascii_digit(c) || c == '+' || c == '-' || c == '.'
}

/// Whether `s[..end]` holds the character `c`.
pub open spec fn holds_before(s: Seq<char>, end: int, c: char) -> bool {
    exists|k: int| 0 <= k < end && #[trigger] s[k] == c
}

/// Whether `s[..end]` holds a `.`.
pub open spec fn has_dot(s: Seq<char>, end: int) -> bool {
    holds_before(s, end, '.')
}

/// Whether `s[..end]` holds a `+` or a `-`.
pub open spec fn has_plus_or_dash(s: Seq<char>, end: int) -> bool {
    holds_before(s, end, '+') || holds_before(s, end, '-')
}

/// One more character is held before a position exactly if it was held
/// before the position in front of it, or stands there.
pub proof fn lemma_holds_before_next(s: Seq<char>, k: int, c: char)
    requires
        0 <= k < s.len(),
    ensures
        holds_before(s, k + 1, c) == (holds_before(s, k, c) || s[k] == c),
{
    if holds_before(s, k + 1, c) {
        let j = choose|j: int| 0 <= j < k + 1 && #[trigger] s[j] == c;
        if j < k {
            assert(holds_before(s, k, c));
        }
    }
    if holds_before(s, k, c) {
        let j = choose|j: int| 0 <= j < k && #[trigger] s[j] == c;
        assert(0 <= j < k + 1 && s[j] == c);
    }
    if s[k] == c {
        assert(0 <= k < k + 1 && s[k] == c);
    }
}

/// Whether the address `s` names its scheme: it holds `://`, and what stands
/// before the first `://` starts with an ASCII letter and goes on with ASCII
/// letters, digits, `+`, `-` and `.`. A start with a `.` in it and neither
/// `+` nor `-` is taken for a host name, not for a scheme.
pub open spec fn names_scheme(s: Seq<char>) -> bool {
    let end = find(s, "://"@, 0);
    &&& end > 0
    &&& is_ascii_letter(s[0])
    &&& forall|k: int| 0 < k < end ==> is_scheme_char(#[trigger] s[k])
    &&& !(has_dot(s, end) && !has_plus_or_dash(s, end))
}

/// The address that is asked for when the file gives `s`: `s` without the
/// white space around it, after `https://` where it names no scheme.
pub open spec fn with_scheme(s: Seq<char>) -> Seq<char> {
    let t = trim(s);
    if names_scheme(t) {
        t
    } else {
        "https://"@ + t
    }
}

/// Whether the characters `t` name their scheme.
fn chars_name_scheme(t: &Vec<char>) -> (r: bool)
    ensures
        r == names_scheme(t@),
{
    let mark = chars_of("://");
    let end = match find_in(t, &mark, 0) {
        Some(end) => end,
        None => {
            return false;
        },
    };
    if end == 0 {
        return false;
    }
    let first = t[0];
    if !(('a' <= first && first <= 'z') || ('A' <= first && first <= 'Z')) {
        return false;
    }
    let mut dot = false;
    let mut plus_or_dash = false;
    let mut k: usize = 1;
    while k < end
        invariant
            1 <= k <= end <= t.len(),
            end == find(t@, "://"@, 0),
            is_ascii_letter(t@[0]),
            forall|j: int| 0 < j < k ==> is_scheme_char(#[trigger] t@[j]),
            dot == has_dot(t@, k as int),
            plus_or_dash == has_plus_or_dash(t@, k as int),
        decreases end - k,
    {
        let c = t[k];
        proof {
            lemma_holds_before_next(t@, k as int, '.');
            lemma_holds_before_next(t@, k as int, '+');
            lemma_holds_before_next(t@, k as int, '-');
        }
        if c == '+' || c == '-' {
            plus_or_dash = true;
        } else if c == '.' {
            dot = true;
        } else if !(('a' <= c && c <= 'z') || ('A' <= c && c <= 'Z') || ('0' <= c && c <= '9')) {
            assert(!is_scheme_char(t@[k as int]));
            return false;
        }
        k += 1;
    }
    !(dot && !plus_or_dash)
}

/// Whether the address `url` names its scheme.
pub fn has_url_scheme(url: &str) -> (r: bool)
    ensures
        r == names_scheme(url@),
{
    chars_name_scheme(&chars_of(url))
}

/// The address that is asked for when the file gives `url`.
pub fn ensure_http_scheme(url: &str) -> (r: String)
    ensures
        r@ == with_scheme(url@),
{
    let t = trimmed(&chars_of(url));
    if chars_name_scheme(&t) {
        string_of(&t)
    } else {
        let mut out = chars_of("https://");
        append(&mut out, &t);
        string_of(&out)
    }
}

/// Whether the request is one that is asked for by the name `wanted`: it
/// has a name, and that name holds `wanted`, both taken in lower case.
pub open spec fn name_matches(request: RequestModel, wanted: Seq<char>) -> bool {
    match request.name {
        Some(name) => contains_text(lowercase(name), lowercase(wanted)),
        None => false,
    }
}

/// The places, in order, of the first `upto` requests that are asked for by
/// the name `wanted`.
pub open spec fn places_named(requests: Seq<RequestModel>, wanted: Seq<char>, upto: int) -> Seq<
    int,
>
    decreases upto,
{
    if upto <= 0 {
        Seq::empty()
    } else if name_matches(requests[upto - 1], wanted) {
        places_named(requests, wanted, upto - 1).push(upto - 1)
    } else {
        places_named(requests, wanted, upto - 1)
    }
}

/// The error for a number that is the number of no request.
pub open spec fn out_of_range(index: nat, count: nat) -> ErrorModel {
    ErrorModel::Parse {
        line: 0,
        message: "Index "@ + decimal(index) + " out of range (1-"@ + decimal(count) + ")"@,
    }
}

/// The places of the requests that are run. A name selects the requests
/// whose name holds it; without a name, a number selects the request of
/// that number, the first request being number 1; without both, every
/// request is run. A number that is the number of no request is an error.
pub open spec fn selection(requests: Seq<RequestModel>, name: Option<Seq<char>>, index: Option<
    nat,
>) -> Result<Seq<int>, ErrorModel> {
    match name {
        Some(wanted) => Ok(places_named(requests, wanted, requests.len() as int)),
        None => match index {
            Some(i) => if i == 0 || i > requests.len() {
                Err(out_of_range(i, requests.len()))
            } else {
                Ok(seq![i - 1])
            },
            None => Ok(Seq::new(requests.len(), |k: int| k)),
        },
    }
}

/// The places as integers.
pub open spec fn places_of(v: Seq<usize>) -> Seq<int> {
    v.map_values(|k: usize| k as int)
}

fn request_matches(request: &ParsedRequest, wanted: &Vec<char>) -> (r: bool)
    ensures
        r == match request@.name {
            Some(name) => contains_text(lowercase(name), wanted@),
            None => false,
        },
{
    match &request.name {
        Some(name) => {
            let lower = chars_of(to_lowercase(name.as_str()).as_str());
            find_in(&lower, wanted, 0).is_some()
        },
        None => false,
    }
}

/// The places of the requests that are run.
pub fn select_requests(requests: &Vec<ParsedRequest>, name: Option<&str>, index: Option<usize>) -> (r:
    Result<Vec<usize>, AppError>)
    ensures
        match (
            r,
            selection(
                requests_of(requests@),
                match name {
                    Some(n) => Some(n@),
                    None => None,
                },
                match index {
                    Some(i) => Some(i as nat),
                    None => None,
                },
            ),
        ) {
            (Ok(places), Ok(wanted)) => places_of(places@) == wanted,
            (Err(e), Err(wanted)) => e@ == wanted,
            _ => false,
        },
        name is None && index is Some && (index->0 == 0 || index->0 > requests.len()) ==> r is Err,
        r is Ok ==> forall|k: int| 0 <= k < r->Ok_0.len() ==> #[trigger] r->Ok_0[k] < requests.len(),
{
    let mut places: Vec<usize> = Vec::new();
    match name {
        Some(wanted) => {
            let lower = chars_of(to_lowercase(wanted).as_str());
            let mut k: usize = 0;
            while k < requests.len()
                invariant
                    k <= requests.len(),
                    lower@ == lowercase(wanted@),
                    places_of(places@) == places_named(requests_of(requests@), wanted@, k as int),
                    forall|j: int| 0 <= j < places.len() ==> #[trigger] places[j] < requests.len(),
                decreases requests.len() - k,
            {
                if request_matches(&requests[k], &lower) {
                    places.push(k);
                }
                k += 1;
            }
            Ok(places)
        },
        None => match index {
            Some(i) => {
                if i == 0 || i > requests.len() {
                    let mut text = chars_of("Index ");
                    push_decimal(&mut text, i as u64);
                    append(&mut text, &chars_of(" out of range (1-"));
                    push_decimal(&mut text, requests.len() as u64);
                    append(&mut text, &chars_of(")"));
                    Err(AppError::Parse { line: 0, message: string_of(&text) })
                } else {
                    places.push(i - 1);
                    Ok(places)
                }
            },
            None => {
                let mut k: usize = 0;
                while k < requests.len()
                    invariant
                        k <= requests.len(),
                        places_of(places@) == Seq::new(k as nat, |j: int| j),
                        forall|j: int|
                            0 <= j < places.len() ==> #[trigger] places[j] < requests.len(),
                    decreases requests.len() - k,
                {
                    let ghost before = places_of(places@);
                    places.push(k);
                    assert(places_of(places@) =~= before.push(k as int));
                    k += 1;
                }
                Ok(places)
            },
        },
    }
}

/// Whether `out` is the address that is asked for when the file gives
/// `url`: `url` with its placeholders replaced, and then with its scheme
/// named.
pub open spec fn resolves_url(store: StoreModel, url: Seq<char>, out: Seq<char>) -> bool {
    exists|replaced: Seq<char>| #[trigger]
        store.substitutes(url, replaced) && out == with_scheme(replaced)
}

/// Whether `out` is what is sent for the request `request`: the target with
/// its placeholders replaced and its scheme named, each header value and
/// the body with their placeholders replaced, and the rest as it is.
pub open spec fn resolves(store: StoreModel, request: RequestModel, out: RequestModel) -> bool {
    &&& out.name == request.name
    &&& out.method == request.method
    &&& out.response_handler == request.response_handler
    &&& out.line_number == request.line_number
    &&& resolves_url(store, request.url, out.url)
    &&& out.headers.len() == request.headers.len()
    &&& forall|k: int|
        0 <= k < request.headers.len() ==> (#[trigger] out.headers[k]).name
            == request.headers[k].name && store.substitutes(
            request.headers[k].value,
            out.headers[k].value,
        )
    &&& match request.body {
        Some(body) => out.body is Some && store.substitutes(body, out.body->0),
        None => out.body is None,
    }
}

fn copy_text(o: &Option<String>) -> (r: Option<String>)
    ensures
        text_of(r) == text_of(*o),
{
    match o {
        Some(s) => Some(s.clone()),
        None => None,
    }
}

/// The address that is asked for when the file gives `url`: its
/// placeholders replaced, and its scheme named.
pub fn resolve_url(store: &VariableStore, url: &str) -> (r: Result<String, AppError>)
    ensures
        r is Ok,
        resolves_url(store@, url@, r->Ok_0@),
{
    match store.substitute(url) {
        Ok(replaced) => Ok(ensure_http_scheme(replaced.as_str())),
        Err(e) => Err(e),
    }
}

/// What is sent for `request`. This never fails.
pub fn resolve_request(store: &VariableStore, request: &ParsedRequest) -> (r: Result<
    ParsedRequest,
    AppError,
>)
    ensures
        r is Ok,
        resolves(store@, request@, r->Ok_0@),
{
    let url = match resolve_url(store, request.url.as_str()) {
        Ok(url) => url,
        Err(e) => {
            return Err(e);
        },
    };
    let mut headers: Vec<Header> = Vec::new();
    let mut k: usize = 0;
    while k < request.headers.len()
        invariant
            k <= request.headers.len(),
            headers.len() == k,
            resolves_url(store@, request.url@, url@),
            forall|j: int|
                0 <= j < k ==> (#[trigger] headers[j]).name@ == request.headers[j].name@
                    && store@.substitutes(request.headers[j].value@, headers[j].value@),
        decreases request.headers.len() - k,
    {
        let value = match store.substitute(request.headers[k].value.as_str()) {
            Ok(value) => value,
            Err(e) => {
                return Err(e);
            },
        };
        headers.push(Header { name: request.headers[k].name.clone(), value });
        k += 1;
    }
    let body = match &request.body {
        Some(text) => match store.substitute(text.as_str()) {
            Ok(replaced) => Some(replaced),
            Err(e) => {
                return Err(e);
            },
        },
        None => None,
    };
    let out = ParsedRequest {
        name: copy_text(&request.name),
        method: request.method,
        url,
        headers,
        body,
        response_handler: copy_text(&request.response_handler),
        line_number: request.line_number,
    };
    proof {
        assert forall|j: int| 0 <= j < request@.headers.len() implies (
        #[trigger] out@.headers[j]).name == request@.headers[j].name && store@.substitutes(
            request@.headers[j].value,
            out@.headers[j].value,
        ) by {
            assert(out@.headers[j] == out.headers[j]@);
            assert(request@.headers[j] == request.headers[j]@);
        }
    }
    Ok(out)
}

/// The count of a run: the tests that passed, the tests that failed, and
/// the requests and handlers that ended in an error.
#[derive(Debug, Clone, Copy, PartialEq, Eq, Structural)]
pub struct Tally {
    pub passed: usize,
    pub failed: usize,
    pub errors: usize,
}

impl Tally {
    /// The count before the first request.
    pub fn new() -> (r: Tally)
        ensures
            r == (Tally { passed: 0, failed: 0, errors: 0 }),
    {
        Tally { passed: 0, failed: 0, errors: 0 }
    }

    /// Counts the outcomes of one handler.
    pub fn record_outcomes(&mut self, outcomes: &Vec<TestResult>)
        requires
            old(self).passed + outcomes.len() <= usize::MAX,
            old(self).failed + outcomes.len() <= usize::MAX,
        ensures
            final(self).passed == old(self).passed + passes(outcomes_of(outcomes@)),
            final(self).failed == old(self).failed + outcomes.len() - passes(outcomes_of(outcomes@)),
            final(self).errors == old(self).errors,
    {
        let mut i: usize = 0;
        while i < outcomes.len()
            invariant
                i <= outcomes.len(),
                old(self).passed + outcomes.len() <= usize::MAX,
                old(self).failed + outcomes.len() <= usize::MAX,
                self.passed == old(self).passed + passes(outcomes_of(outcomes@).take(i as int)),
                self.failed == old(self).failed + i - passes(outcomes_of(outcomes@).take(i as int)),
                passes(outcomes_of(outcomes@).take(i as int)) <= i,
                self.errors == old(self).errors,
            decreases outcomes.len() - i,
        {
            proof {
                let all = outcomes_of(outcomes@);
                assert(all.take(i + 1).drop_last() =~= all.take(i as int));
            }
            if outcomes[i].passed {
                self.passed += 1;
            } else {
                self.failed += 1;
            }
            i += 1;
        }
        proof {
            let all = outcomes_of(outcomes@);
            assert(all.take(all.len() as int) =~= all);
        }
    }

    /// Counts a request or a handler that ended in an error.
    pub fn record_error(&mut self)
        requires
            old(self).errors < usize::MAX,
        ensures
            *final(self) == (Tally { errors: (old(self).errors + 1) as usize, ..*old(self) }),
    {
        self.errors += 1;
    }

    /// Whether the run has failed: a test failed, or something ended in an
    /// error.
    pub fn is_failure(&self) -> (r: bool)
        ensures
            r == (self.failed > 0 || self.errors > 0),
    {
        self.failed > 0 || self.errors > 0
    }
}


/// What came of one request.
#[derive(Debug)]
pub enum Outcome {
    /// No response came.
    TransportFailed,
    /// A response came, and the request has no handler.
    Responded,
    /// A response came, and the handler ran and left this.
    Handled(HandlerResult),
    /// A response came, and the handler could not be run.
    HandlerFailed,
}

/// What an outcome holds.
pub enum OutcomeKind {
    TransportFailed,
    Responded,
    Handled(RunModel),
    HandlerFailed,
}

impl View for Outcome {
    type V = OutcomeKind;

    open spec fn view(&self) -> OutcomeKind {
        match self {
            Outcome::TransportFailed => OutcomeKind::TransportFailed,
            Outcome::Responded => OutcomeKind::Responded,
            Outcome::Handled(result) => OutcomeKind::Handled(result@),
            Outcome::HandlerFailed => OutcomeKind::HandlerFailed,
        }
    }
}

/// There are no more passes than outcomes.
pub proof fn lemma_passes_bound(outcomes: Seq<OutcomeModel>)
    ensures
        passes(outcomes) <= outcomes.len(),
    decreases outcomes.len(),
{
    if outcomes.len() > 0 {
        lemma_passes_bound(outcomes.drop_last());
    }
}

/// A run between two requests: the variables, and the count so far.
pub struct SessionModel {
    pub store: StoreModel,
    pub passed: nat,
    pub failed: nat,
    pub errors: nat,
}

impl SessionModel {
    /// The run after one more request. A request without a response and a
    /// handler that could not be run count as one error each and change
    /// nothing else, so the next request finds the variables as they were.
    /// What a handler leaves goes into the run: its globals replace and
    /// extend those of the store, and its outcomes are counted.
    pub open spec fn after(self, outcome: OutcomeKind) -> SessionModel {
        match outcome {
            OutcomeKind::TransportFailed => SessionModel { errors: self.errors + 1, ..self },
            OutcomeKind::HandlerFailed => SessionModel { errors: self.errors + 1, ..self },
            OutcomeKind::Responded => self,
            OutcomeKind::Handled(left) => SessionModel {
                store: StoreModel {
                    globals: self.store.globals.union_prefer_right(left.globals),
                    ..self.store
                },
                passed: self.passed + passes(left.outcomes),
                failed: self.failed + (left.outcomes.len() - passes(left.outcomes)) as nat,
                errors: self.errors,
            },
        }
    }

    /// Whether the run has failed: a test failed, or something ended in an
    /// error.
    pub open spec fn is_failure(self) -> bool {
        self.failed > 0 || self.errors > 0
    }
}

/// The number of outcomes that an outcome brings to the count.
pub open spec fn outcomes_in(outcome: OutcomeKind) -> nat {
    match outcome {
        OutcomeKind::Handled(left) => left.outcomes.len(),
        _ => 0,
    }
}

/// The number of errors that an outcome brings to the count.
pub open spec fn errors_in(outcome: OutcomeKind) -> nat {
    match outcome {
        OutcomeKind::TransportFailed => 1,
        OutcomeKind::HandlerFailed => 1,
        _ => 0,
    }
}

/// A run over the requests of a file: the store that the requests are
/// resolved with, and the count of what came of them.
#[derive(Debug)]
pub struct Session {
    store: VariableStore,
    tally: Tally,
}

impl View for Session {
    type V = SessionModel;

    closed spec fn view(&self) -> SessionModel {
        SessionModel {
            store: self.store@,
            passed: self.tally.passed as nat,
            failed: self.tally.failed as nat,
            errors: self.tally.errors as nat,
        }
    }
}

impl Session {
    /// A run that starts with the variables of `store` and has counted
    /// nothing.
    pub fn new(store: VariableStore) -> (r: Session)
        ensures
            r@ == (SessionModel { store: store@, passed: 0, failed: 0, errors: 0 }),
    {
        Session { store, tally: Tally::new() }
    }

    /// The variables as they are now.
    pub fn store(&self) -> (r: &VariableStore)
        ensures
            r@ == self@.store,
    {
        &self.store
    }

    /// The count so far.
    pub fn tally(&self) -> (r: Tally)
        ensures
            r.passed == self@.passed,
            r.failed == self@.failed,
            r.errors == self@.errors,
    {
        self.tally
    }

    /// What is sent for `request`, with the variables as they are now.
    pub fn prepare(&self, request: &ParsedRequest) -> (r: Result<ParsedRequest, AppError>)
        ensures
            r is Ok,
            resolves(self@.store, request@, r->Ok_0@),
    {
        resolve_request(&self.store, request)
    }

    /// Whether the count has room for what `outcome` brings.
    pub fn has_room_for(&self, outcome: &Outcome) -> (r: bool)
        ensures
            r == (self@.passed + outcomes_in(outcome@) <= usize::MAX && self@.failed
                + outcomes_in(outcome@) <= usize::MAX && self@.errors + errors_in(outcome@)
                <= usize::MAX),
    {
        match outcome {
            Outcome::Handled(left) => {
                let n = left.test_results.len();
                n <= usize::MAX - self.tally.passed && n <= usize::MAX - self.tally.failed
            },
            Outcome::Responded => true,
            _ => self.tally.errors < usize::MAX,
        }
    }

    /// Takes in what came of one request.
    pub fn record(&mut self, outcome: Outcome)
        requires
            old(self)@.passed + outcomes_in(outcome@) <= usize::MAX,
            old(self)@.failed + outcomes_in(outcome@) <= usize::MAX,
            old(self)@.errors + errors_in(outcome@) <= usize::MAX,
        ensures
            final(self)@ == old(self)@.after(outcome@),
    {
        match outcome {
            Outcome::TransportFailed => {
                self.tally.record_error();
            },
            Outcome::HandlerFailed => {
                self.tally.record_error();
            },
            Outcome::Responded => {},
            Outcome::Handled(left) => {
                proof {
                    lemma_passes_bound(outcomes_of(left.test_results@));
                }
                self.store.merge_globals(&left.global_vars);
                self.tally.record_outcomes(&left.test_results);
            },
        }
    }

    /// Whether the run has failed.
    pub fn is_failure(&self) -> (r: bool)
        ensures
            r == self@.is_failure(),
    {
        self.tally.is_failure()
    }
}

/// What the handler of one request sets, the handler of the next request
/// gets: once a run has taken in what a handler left, a handler that starts
/// with the globals of the store restores what the first one stored.
pub proof fn lemma_globals_reach_the_next_handler(
    session: SessionModel,
    first: RunModel,
    name: Seq<char>,
    value: Seq<char>,
)
    ensures
        RunModel::start(
            session.after(OutcomeKind::Handled(first.set_global(name, value))).store.globals,
        ).get_global(name) == Some(restored(value)),
{
}

/// A request that fails leaves the variables as they were: the next request
/// is resolved as if the failed one had not been there.
pub proof fn lemma_failure_keeps_the_variables(session: SessionModel)
    ensures
        session.after(OutcomeKind::TransportFailed).store == session.store,
        session.after(OutcomeKind::HandlerFailed).store == session.store,
        session.after(OutcomeKind::TransportFailed).is_failure(),
        session.after(OutcomeKind::HandlerFailed).is_failure(),
{
}

/// A run that has failed stays failed, whatever comes of the later requests.
pub proof fn lemma_failure_stays(session: SessionModel, outcome: OutcomeKind)
    requires
        session.is_failure(),
    ensures
        session.after(outcome).is_failure(),
{
}

} // verus!
