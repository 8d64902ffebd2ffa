//! Validation of what callers submit: script text and schedule expressions.
//!
//! Both checks are made by the parsers that later interpret the input, so a
//! text is accepted here exactly when it can be run, and an expression exactly
//! when it can be scheduled. What a parser says of a given input is a fixed
//! fact about that input, named by [`script_syntax_error`] and
//! [`cron_syntax_error`].

use crate::error::{badrequest_error, ApiError, ApiErrorView};
use vstd::prelude::*;

verus! {

/// What the script parser objects to in `text`: `None` if the text is a
/// well-formed script, otherwise the parser's description of the first error.
pub uninterp spec fn script_syntax_error(text: Seq<char>) -> Option<Seq<char>>;

/// What the schedule parser objects to in `expr`: `None` if the expression is
/// a well-formed schedule, otherwise the parser's description of the error.
pub uninterp spec fn cron_syntax_error(expr: Seq<char>) -> Option<Seq<char>>;

/// The objection that a parser's verdict carries, if any.
pub open spec fn objection(verdict: Result<(), String>) -> Option<Seq<char>> {
    match verdict {
        Ok(_) => None,
        Err(description) => Some(description@),
    }
}

/// Parses `text` with a new `rhai::Engine` and its `compile` method, and
/// keeps of the outcome only whether it failed and how the error reads.
/// Trusted: the outcome depends on `text` alone.
#[verifier::external_body]
pub(crate) fn check_script(text: &str) -> (verdict: Result<(), String>)
    ensures
        objection(verdict) == script_syntax_error(text@),
{
    match rhai::Engine::new().compile(text) {
        Ok(_) => Ok(()),
        Err(error) => Err(error.to_string()),
    }
}

/// Parses `expr` with `cron::Schedule::from_str`, and keeps of the outcome
/// only whether it failed and how the error reads. Trusted: the outcome
/// depends on `expr` alone.
#[verifier::external_body]
pub(crate) fn check_cron(expr: &str) -> (verdict: Result<(), String>)
    ensures
        objection(verdict) == cron_syntax_error(expr@),
{
    match <cron::Schedule as std::str::FromStr>::from_str(expr) {
        Ok(_) => Ok(()),
        Err(error) => Err(error.to_string()),
    }
}

/// The failure that an objection is reported as: none if there is no
/// objection, otherwise a request error that carries the description.
pub open spec fn rejection(objection: Option<Seq<char>>) -> Option<ApiErrorView> {
    match objection {
        None => None,
        Some(description) => Some(ApiErrorView::RequestError(description)),
    }
}

/// The failure that a checked input ends in, if any.
pub open spec fn failure(outcome: Result<(), ApiError>) -> Option<ApiErrorView> {
    match outcome {
        Ok(_) => None,
        Err(e) => Some(e@),
    }
}

/// Turns a parser's verdict into the outcome reported to the caller.
pub fn report(verdict: Result<(), String>) -> (outcome: Result<(), ApiError>)
    ensures
        failure(outcome) == rejection(objection(verdict)),
{
    match verdict {
        Ok(_) => Ok(()),
        Err(description) => Err(badrequest_error(description)),
    }
}

/// Accepts `text` if it is a well-formed script and rejects it with a request
/// error otherwise.
pub fn validate_script(text: &str) -> (outcome: Result<(), ApiError>)
    ensures
        failure(outcome) == rejection(script_syntax_error(text@)),
{
    report(check_script(text))
}

/// Accepts `expr` if it is a well-formed schedule expression and rejects it
/// with a request error otherwise.
pub fn validate_cron(expr: &str) -> (outcome: Result<(), ApiError>)
    ensures
        failure(outcome) == rejection(cron_syntax_error(expr@)),
{
    report(check_cron(expr))
}

} // verus!
