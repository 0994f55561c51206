//! The state that the `client` object of a response handler works on.
//!
//! The handler reaches it through five operations: `global.set`,
//! `global.get`, `test`, `assert` and `log`. Each is a method here, from the
//! state before the call to the state after it.

use crate::bindings::Bindings;
use crate::js::runtime::{outcomes_of, HandlerResult, OutcomeModel, RunModel, TestResult};
use crate::number::{is_number_text, lemma_integer_reads_as_number, reads_as_number, signed_decimal};
use crate::text::{append, chars_of, joined, same_text, string_of, text_of, texts_of};
use vstd::prelude::*;

verus! {

/// A global variable as the handler gets it back: as a number, as a
/// boolean, or as a text.
#[derive(Debug, Clone)]
pub enum Restored {
    /// The value reads as a number; the text is that number as it was stored.
    Number(String),
    Boolean(bool),
    Text(String),
}

/// What a restored value holds.
pub enum RestoredModel {
    Number(Seq<char>),
    Boolean(bool),
    Text(Seq<char>),
}

impl View for Restored {
    type V = RestoredModel;

    open spec fn view(&self) -> RestoredModel {
        match self {
            Restored::Number(s) => RestoredModel::Number(s@),
            Restored::Boolean(b) => RestoredModel::Boolean(*b),
            Restored::Text(s) => RestoredModel::Text(s@),
        }
    }
}

/// The value that a handler gets for a global variable stored as `value`: a
/// number where the text reads as one, a boolean for `true` and `false`,
/// and the text itself otherwise.
pub open spec fn restored(value: Seq<char>) -> RestoredModel {
    if is_number_text(value) {
        RestoredModel::Number(value)
    } else if value == "true"@ {
        RestoredModel::Boolean(true)
    } else if value == "false"@ {
        RestoredModel::Boolean(false)
    } else {
        RestoredModel::Text(value)
    }
}

/// The value that a handler gets for a global variable stored as `value`.
pub fn restore(value: &str) -> (r: Restored)
    ensures
        r@ == restored(value@),
{
    if reads_as_number(value) {
        Restored::Number(value.to_owned())
    } else if same_text(value, "true") {
        Restored::Boolean(true)
    } else if same_text(value, "false") {
        Restored::Boolean(false)
    } else {
        Restored::Text(value.to_owned())
    }
}

/// The message of an assertion that was given none.
pub open spec fn default_message() -> Seq<char> {
    "Assertion failed"@
}

/// What is recorded for a test whose callback threw `thrown`.
pub open spec fn exception_message(thrown: Seq<char>) -> Seq<char> {
    "Exception: "@ + thrown
}

impl RunModel {
    /// The state at the start of a run that is given the globals `globals`.
    pub open spec fn start(globals: Map<Seq<char>, Seq<char>>) -> RunModel {
        RunModel { globals, outcomes: Seq::empty(), log: Seq::empty() }
    }

    /// The state after `global.set`.
    pub open spec fn set_global(self, name: Seq<char>, value: Seq<char>) -> RunModel {
        RunModel { globals: self.globals.insert(name, value), ..self }
    }

    /// What `global.get` gives: nothing for a name that is not set.
    pub open spec fn get_global(self, name: Seq<char>) -> Option<RestoredModel> {
        if self.globals.contains_key(name) {
            Some(restored(self.globals[name]))
        } else {
            None
        }
    }

    /// The state with one more outcome.
    pub open spec fn recorded(self, outcome: OutcomeModel) -> RunModel {
        RunModel { outcomes: self.outcomes.push(outcome), ..self }
    }

    /// The state after `assert`: a condition that does not hold is recorded
    /// as a failure whose name and reason are both the message.
    pub open spec fn asserted(self, condition: bool, message: Option<Seq<char>>) -> RunModel {
        let text = match message {
            Some(m) => m,
            None => default_message(),
        };
        if condition {
            self
        } else {
            self.recorded(OutcomeModel { name: text, passed: false, failure_message: Some(text) })
        }
    }

    /// Whether a failure was recorded after the first `mark` outcomes.
    pub open spec fn failed_since(self, mark: int) -> bool {
        exists|i: int| 0 <= i && mark <= i < self.outcomes.len() && !(#[trigger] self.outcomes[i]).passed
    }

    /// The state after the callback of `test` has ended; `mark` is the
    /// number of outcomes before the callback began. A callback that threw
    /// is one failure. One that ended well is one pass, unless a failure was
    /// recorded while it ran: then these failures stand for the test.
    pub open spec fn tested(self, name: Seq<char>, mark: int, thrown: Option<Seq<char>>) -> RunModel {
        match thrown {
            Some(e) => self.recorded(
                OutcomeModel {
                    name,
                    passed: false,
                    failure_message: Some(exception_message(e)),
                },
            ),
            None => if self.failed_since(mark) {
                self
            } else {
                self.recorded(OutcomeModel { name, passed: true, failure_message: None })
            },
        }
    }

    /// The state after `log`: the values, each as a text, make one line with
    /// a space between two of them.
    pub open spec fn logged(self, values: Seq<Seq<char>>) -> RunModel {
        RunModel { log: self.log.push(joined(values, ' ')), ..self }
    }
}

/// The state that handler and host share for the time of one run.
#[derive(Debug)]
pub struct JsSharedState {
    pub global_vars: Bindings,
    pub test_results: Vec<TestResult>,
    pub log_output: Vec<String>,
}

impl View for JsSharedState {
    type V = RunModel;

    open spec fn view(&self) -> RunModel {
        RunModel {
            globals: self.global_vars@,
            outcomes: outcomes_of(self.test_results@),
            log: texts_of(self.log_output@),
        }
    }
}

impl Default for JsSharedState {
    /// The state of a run that is given no globals.
    fn default() -> (r: JsSharedState)
        ensures
            r@ == RunModel::start(Map::empty()),
    {
        let r = JsSharedState {
            global_vars: Bindings::new(),
            test_results: Vec::new(),
            log_output: Vec::new(),
        };
        r
    }
}

impl JsSharedState {
    /// The state at the start of a run that is given the globals
    /// `existing_globals`.
    pub fn new(existing_globals: &Bindings) -> (r: JsSharedState)
        ensures
            r@ == RunModel::start(existing_globals@),
    {
        let r = JsSharedState {
            global_vars: existing_globals.clone(),
            test_results: Vec::new(),
            log_output: Vec::new(),
        };
        r
    }

    /// `global.set(name, value)`, the value given as the text that is stored.
    pub fn set_global(&mut self, name: String, value: String)
        ensures
            final(self)@ == old(self)@.set_global(name@, value@),
    {
        self.global_vars.insert(name, value);
    }

    /// `global.get(name)`.
    pub fn get_global(&self, name: &str) -> (r: Option<Restored>)
        ensures
            match r {
                Some(v) => self@.get_global(name@) == Some(v@),
                None => self@.get_global(name@) is None,
            },
    {
        match self.global_vars.get(name) {
            Some(value) => Some(restore(value.as_str())),
            None => None,
        }
    }

    fn record(&mut self, outcome: TestResult)
        ensures
            final(self)@ == old(self)@.recorded(outcome@),
    {
        self.test_results.push(outcome);
    }

    /// `assert(condition, message)`.
    pub fn record_assert(&mut self, condition: bool, message: Option<String>)
        ensures
            final(self)@ == old(self)@.asserted(condition, text_of(message)),
    {
        if !condition {
            let text = match message {
                Some(m) => m,
                None => "Assertion failed".to_owned(),
            };
            let reason = text.clone();
            self.record(TestResult { name: text, passed: false, failure_message: Some(reason) });
        }
    }

    /// The number of outcomes so far: the mark that `end_test` is given.
    pub fn begin_test(&self) -> (mark: usize)
        ensures
            mark == self@.outcomes.len(),
    {
        self.test_results.len()
    }

    /// Whether a failure was recorded after the first `mark` outcomes.
    pub fn has_failed_since(&self, mark: usize) -> (r: bool)
        ensures
            r == self@.failed_since(mark as int),
    {
        let mut i: usize = mark;
        while i < self.test_results.len()
            invariant
                mark <= i,
                forall|j: int| mark <= j < i && j < self.test_results.len() ==> (
                #[trigger] outcomes_of(self.test_results@)[j]).passed,
            decreases self.test_results.len() - i,
        {
            if !self.test_results[i].passed {
                assert(!outcomes_of(self.test_results@)[i as int].passed);
                return true;
            }
            i += 1;
        }
        false
    }

    /// The end of `test(name, callback)`: `thrown` is what the callback
    /// threw, if it threw.
    pub fn end_test(&mut self, name: String, mark: usize, thrown: Option<String>)
        ensures
            final(self)@ == old(self)@.tested(name@, mark as int, text_of(thrown)),
    {
        match thrown {
            Some(e) => {
                let mut reason = chars_of("Exception: ");
                append(&mut reason, &chars_of(e.as_str()));
                self.record(
                    TestResult {
                        name,
                        passed: false,
                        failure_message: Some(string_of(&reason)),
                    },
                );
            },
            None => {
                if !self.has_failed_since(mark) {
                    self.record(TestResult { name, passed: true, failure_message: None });
                }
            },
        }
    }

    /// `log(values...)`, each value given as its text.
    pub fn log(&mut self, values: &Vec<String>)
        ensures
            final(self)@ == old(self)@.logged(texts_of(values@)),
    {
        let mut line: Vec<char> = Vec::new();
        let mut i: usize = 0;
        while i < values.len()
            invariant
                i <= values.len(),
                line@ == joined(texts_of(values@).take(i as int), ' '),
            decreases values.len() - i,
        {
            let ghost before = texts_of(values@).take(i as int);
            let ghost now = texts_of(values@).take(i + 1);
            assert(now.drop_last() =~= before);
            if i > 0 {
                line.push(' ');
            }
            append(&mut line, &chars_of(values[i].as_str()));
            i += 1;
        }
        assert(texts_of(values@).take(values@.len() as int) =~= texts_of(values@));
        let text = string_of(&line);
        self.log_output.push(text);
    }

    /// What the run leaves, once the handler has ended.
    pub fn into_result(self) -> (r: HandlerResult)
        ensures
            r@ == self@,
    {
        HandlerResult {
            global_vars: self.global_vars,
            test_results: self.test_results,
            log_output: self.log_output,
        }
    }
}

/// What `global.set` stores is what `global.get` of the same name restores.
pub proof fn lemma_set_then_get(s: RunModel, name: Seq<char>, value: Seq<char>)
    ensures
        s.set_global(name, value).get_global(name) == Some(restored(value)),
{
}

/// An integer that is stored as its decimal text comes back as a number.
pub proof fn lemma_integer_comes_back_as_number(n: int)
    ensures
        restored(signed_decimal(n)) == RestoredModel::Number(signed_decimal(n)),
{
    lemma_integer_reads_as_number(n);
}

/// The texts `true` and `false` come back as the booleans.
pub proof fn lemma_booleans_come_back()
    ensures
        restored("true"@) == RestoredModel::Boolean(true),
        restored("false"@) == RestoredModel::Boolean(false),
{
    reveal_strlit("true");
    reveal_strlit("false");
    reveal_strlit("inf");
    reveal_strlit("infinity");
    reveal_strlit("nan");
}

/// A test whose callback makes one assertion that fails leaves exactly one
/// outcome, the failure of that assertion: no outcome is added for the test
/// itself.
pub proof fn lemma_failing_assert_stands_for_its_test(
    s: RunModel,
    name: Seq<char>,
    message: Option<Seq<char>>,
)
    ensures
        s.asserted(false, message).tested(name, s.outcomes.len() as int, None) == s.asserted(
            false,
            message,
        ),
        s.asserted(false, message).outcomes.len() == s.outcomes.len() + 1,
        !s.asserted(false, message).outcomes.last().passed,
{
    let after = s.asserted(false, message);
    assert(!after.outcomes[s.outcomes.len() as int].passed);
}

/// A test whose callback records nothing and ends well leaves exactly one
/// outcome, a pass under the name of the test.
pub proof fn lemma_passing_test(s: RunModel, name: Seq<char>)
    ensures
        s.tested(name, s.outcomes.len() as int, None) == s.recorded(
            OutcomeModel { name, passed: true, failure_message: None },
        ),
{
}

/// What one run has set, the next run gets: a run that starts with the
/// globals that an earlier run left restores what that run stored.
pub proof fn lemma_globals_pass_to_the_next_run(
    first: RunModel,
    name: Seq<char>,
    value: Seq<char>,
)
    ensures
        RunModel::start(first.set_global(name, value).globals).get_global(name) == Some(
            restored(value),
        ),
{
}

} // verus!
