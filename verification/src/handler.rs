//! What a handler's outcome is answered with.
use std::convert::Infallible;

use http_body_util::Full;
use hyper::body::Bytes;
use hyper::Response;
use vstd::prelude::*;

verus! {

/// A shared byte buffer of the `bytes` crate. Verus sees nothing inside it.
#[verifier::external_type_specification]
#[verifier::external_body]
pub struct ExBytes(hyper::body::Bytes);

/// A message body of one chunk. Verus sees nothing inside it.
#[verifier::external_type_specification]
#[verifier::external_body]
#[verifier::reject_recursive_types(D)]
pub struct ExFull<D>(http_body_util::Full<D>);

/// An HTTP response of the `http` crate. Verus sees nothing inside it.
#[verifier::external_type_specification]
#[verifier::external_body]
#[verifier::reject_recursive_types(T)]
pub struct ExResponse<T>(hyper::Response<T>);

/// The response that `http::response::Builder` builds of a status code and a
/// body text, with everything else at its default; `None` where the builder
/// reports an error.
pub uninterp spec fn built_response(status: u16, body: Seq<char>) -> Option<Response<Full<Bytes>>>;

/// Calls `http::Response::builder` with a status code and a body that consists
/// of the given text.
///
/// What is trusted: the response is a function of the status code and the text,
/// and the builder succeeds exactly on the status codes of three digits.
#[verifier::external_body]
fn build_response(status: u16, body: &'static str) -> (response: Option<Response<Full<Bytes>>>)
    ensures
        response == built_response(status, body@),
        response is Some <==> 100 <= status < 1000,
{
    Response::builder().status(status).body(Full::from(Bytes::from_static(body.as_bytes()))).ok()
}

/// The status code with which a failed request is answered.
pub const FAILURE_STATUS: u16 = 500;

/// The body with which a failed request is answered.
pub const FAILURE_BODY: &'static str = "Internal Server Error";

/// Converts a value into a `Result` that cannot be an error, so that it can be
/// what a handler returns.
///
/// Useful for closures where the return type cannot be written down and no
/// error has to be returned.
pub fn handle_ok<T>(val: T) -> (result: Result<T, Infallible>)
    ensures
        result == Ok::<T, Infallible>(val),
{
    Ok(val)
}

/// Whether `answer` is the answer to a handler's outcome: the handler's own
/// response if there is one, else the response for failed requests. There
/// always is an answer.
pub open spec fn answers<E>(
    outcome: Result<Response<Full<Bytes>>, E>,
    answer: Result<Response<Full<Bytes>>, Infallible>,
) -> bool {
    match outcome {
        Ok(response) => answer == Ok::<Response<Full<Bytes>>, Infallible>(response),
        Err(_) => answer is Ok && built_response(FAILURE_STATUS, FAILURE_BODY@) == Some(
            answer->Ok_0,
        ),
    }
}

/// Turns the outcome of a handler into what the client is answered. An error is
/// not passed on: the client learns no more than that the request failed.
pub fn run_handler<E>(outcome: Result<Response<Full<Bytes>>, E>) -> (answer: Result<
    Response<Full<Bytes>>,
    Infallible,
>)
    ensures
        answers(outcome, answer),
        outcome matches Ok(response) ==> answer == Ok::<Response<Full<Bytes>>, Infallible>(response),
        outcome is Err ==> answer is Ok && built_response(500, "Internal Server Error"@) == Some(
            answer->Ok_0,
        ),
{
    match outcome {
        Ok(response) => Ok(response),
        Err(_) => {
            let response = build_response(FAILURE_STATUS, FAILURE_BODY);
            Ok(response.unwrap())
        },
    }
}

/// A handler's response is passed on as it is, whatever kind of error the handler
/// might have given instead.
pub proof fn law_response_is_passed_on<E>(
    response: Response<Full<Bytes>>,
    answer: Result<Response<Full<Bytes>>, Infallible>,
)
    requires
        answers::<E>(Ok(response), answer),
    ensures
        answer == Ok::<Response<Full<Bytes>>, Infallible>(response),
{
}

/// A response that was made a handler's outcome is what the client is answered.
pub proof fn law_handle_ok_is_answered_with_itself(
    response: Response<Full<Bytes>>,
    outcome: Result<Response<Full<Bytes>>, Infallible>,
    answer: Result<Response<Full<Bytes>>, Infallible>,
)
    requires
        call_ensures(handle_ok::<Response<Full<Bytes>>>, (response,), outcome),
        call_ensures(run_handler::<Infallible>, (outcome,), answer),
    ensures
        outcome is Ok,
        answer is Ok,
        answer->Ok_0 == response,
{
}

/// A failed request is answered with the response that is built of the status
/// 500 and the text `Internal Server Error`.
pub proof fn law_failure_is_answered_with_500<E>(
    error: E,
    answer: Result<Response<Full<Bytes>>, Infallible>,
)
    requires
        answers::<E>(Err(error), answer),
    ensures
        answer is Ok,
        built_response(500, "Internal Server Error"@) == Some(answer->Ok_0),
{
}

/// Different responses of handlers are answered differently, even where the
/// handlers give different kinds of errors; and the answer tells a response
/// from a failure, unless the response is the one for failures.
pub proof fn law_answers_tell_outcomes_apart<E, F>(
    first: Result<Response<Full<Bytes>>, E>,
    second: Result<Response<Full<Bytes>>, F>,
    first_answer: Result<Response<Full<Bytes>>, Infallible>,
    second_answer: Result<Response<Full<Bytes>>, Infallible>,
)
    requires
        call_ensures(run_handler::<E>, (first,), first_answer),
        call_ensures(run_handler::<F>, (second,), second_answer),
    ensures
        first is Ok && second is Ok ==> (first_answer == second_answer <==> first->Ok_0
            == second->Ok_0),
        first is Err && second is Err ==> first_answer == second_answer,
        first is Ok && second is Err ==> (first_answer == second_answer <==> built_response(
            500,
            "Internal Server Error"@,
        ) == Some(first->Ok_0)),
{
}

/// The answer to a failed request does not depend on the error, nor on what
/// kind of error it is.
pub proof fn law_failures_are_answered_alike<E, F>(
    first: Result<Response<Full<Bytes>>, E>,
    second: Result<Response<Full<Bytes>>, F>,
    first_answer: Result<Response<Full<Bytes>>, Infallible>,
    second_answer: Result<Response<Full<Bytes>>, Infallible>,
)
    requires
        first is Err,
        second is Err,
        answers(first, first_answer),
        answers(second, second_answer),
    ensures
        first_answer == second_answer,
{
}

} // verus!
