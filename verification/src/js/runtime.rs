//! What is left of the run of a response handler.

use crate::bindings::Bindings;
use crate::text::{text_of, texts_of};
use vstd::prelude::*;

verus! {

/// The outcome of one test or of one assertion that failed.
#[derive(Debug, Clone)]
pub struct TestResult {
    pub name: String,
    pub passed: bool,
    /// Why it failed, where it did.
    pub failure_message: Option<String>,
}

/// What an outcome holds.
pub struct OutcomeModel {
    pub name: Seq<char>,
    pub passed: bool,
    pub failure_message: Option<Seq<char>>,
}

impl View for TestResult {
    type V = OutcomeModel;

    open spec fn view(&self) -> OutcomeModel {
        OutcomeModel {
            name: self.name@,
            passed: self.passed,
            failure_message: text_of(self.failure_message),
        }
    }
}

/// What each of the outcomes holds.
pub open spec fn outcomes_of(v: Seq<TestResult>) -> Seq<OutcomeModel> {
    v.map_values(|t: TestResult| t@)
}

/// The state of a handler's run: the global variables as the handler sees
/// them, the outcomes recorded so far and the lines logged so far.
#[verifier::ext_equal]
pub struct RunModel {
    pub globals: Map<Seq<char>, Seq<char>>,
    pub outcomes: Seq<OutcomeModel>,
    pub log: Seq<Seq<char>>,
}

/// What the run of a handler leaves: the global variables after it, the
/// outcomes of its tests and assertions, and the lines it logged.
#[derive(Debug)]
pub struct HandlerResult {
    pub global_vars: Bindings,
    pub test_results: Vec<TestResult>,
    pub log_output: Vec<String>,
}

impl View for HandlerResult {
    type V = RunModel;

    open spec fn view(&self) -> RunModel {
        RunModel {
            globals: self.global_vars@,
            outcomes: outcomes_of(self.test_results@),
            log: texts_of(self.log_output@),
        }
    }
}

/// The number of passes among the outcomes.
pub open spec fn passes(outcomes: Seq<OutcomeModel>) -> nat
    decreases outcomes.len(),
{
    if outcomes.len() == 0 {
        0
    } else if outcomes.last().passed {
        passes(outcomes.drop_last()) + 1
    } else {
        passes(outcomes.drop_last())
    }
}

} // verus!
