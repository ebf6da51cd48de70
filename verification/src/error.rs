//! What can go wrong, and how it is put in words.
use vstd::prelude::*;
use vstd::string::StringExecFns;

use crate::duration::Duration;
use crate::text::append_decimal;
use crate::text::decimal;
use crate::text::is_decimal_of;
use crate::text::law_decimal_denotes;

verus! {

/// An I/O error of the operating system. Verus sees nothing inside it.
#[verifier::external_type_specification]
#[verifier::external_body]
pub struct ExIoError(std::io::Error);

/// The ways in which starting a server or waiting for it can fail.
#[derive(Debug)]
pub enum Error {
    /// No listener could be bound to the loopback interface.
    BindTCPListener(std::io::Error),
    /// The address of the listener could not be found out.
    GetTCPListenerAddress(std::io::Error),
    /// The number of handled requests was not the awaited one in time.
    AwaitReqCountTimeout {
        /// The count that was last seen.
        current_count: u64,
        /// The count that was waited for.
        target_count: u64,
        /// How long the wait was allowed to take.
        timeout: Duration,
    },
    /// The number of requests in progress was not the awaited one in time.
    AwaitConcurrentReqCountTimeout {
        /// The count that was last seen.
        current_count: u64,
        /// The count that was waited for.
        target_count: u64,
        /// How long the wait was allowed to take.
        timeout: Duration,
    },
}

/// Writes an I/O error with its `Display` implementation.
///
/// What is trusted: nothing of the text, which in part comes from the operating
/// system.
#[verifier::external_body]
fn io_error_text(error: &std::io::Error) -> (text: String) {
    format!("{}", error)
}

/// Whether `cause` is what an I/O error may be written as.
pub closed spec fn is_cause(error: std::io::Error, cause: Seq<char>) -> bool {
    exists|text: String| #[trigger] call_ensures(io_error_text, (&error,), text) && text@ == cause
}

/// The short report of a wait that ran out of time.
pub open spec fn timeout_report(
    what: Seq<char>,
    current: u64,
    target: u64,
    timeout: Duration,
) -> Seq<char> {
    what + " did not reach "@ + decimal(target as nat) + " (currently "@ + decimal(current as nat)
        + ") within "@ + timeout.text()
}

/// The full message of a wait that ran out of time.
pub open spec fn timeout_message(
    what: Seq<char>,
    current: u64,
    target: u64,
    timeout: Duration,
) -> Seq<char> {
    what + " did not reach "@ + decimal(target as nat) + " within "@ + timeout.text()
        + " (current count: "@ + decimal(current as nat) + ")"@
}

fn write_timeout_report(what: &str, current: u64, target: u64, timeout: &Duration) -> (text: String)
    ensures
        text@ == timeout_report(what@, current, target, *timeout),
{
    let mut out = String::from_str(what);
    out.append(" did not reach ");
    append_decimal(&mut out, target);
    out.append(" (currently ");
    append_decimal(&mut out, current);
    out.append(") within ");
    let span = timeout.to_text();
    out.append(span.as_str());
    out
}

fn write_timeout_message(what: &str, current: u64, target: u64, timeout: &Duration) -> (text:
    String)
    ensures
        text@ == timeout_message(what@, current, target, *timeout),
{
    let mut out = String::from_str(what);
    out.append(" did not reach ");
    append_decimal(&mut out, target);
    out.append(" within ");
    let span = timeout.to_text();
    out.append(span.as_str());
    out.append(" (current count: ");
    append_decimal(&mut out, current);
    out.append(")");
    out
}

impl Error {
    /// The text with which a report of the error begins.
    pub open spec fn report_text(self) -> Seq<char> {
        match self {
            Error::BindTCPListener(_) => "bind TCP listener"@,
            Error::GetTCPListenerAddress(_) => "get listener socket address"@,
            Error::AwaitReqCountTimeout { current_count, target_count, timeout } => timeout_report(
                "req_count"@,
                current_count,
                target_count,
                timeout,
            ),
            Error::AwaitConcurrentReqCountTimeout {
                current_count,
                target_count,
                timeout,
            } => timeout_report("concurrent_req_count"@, current_count, target_count, timeout),
        }
    }

    /// The full message of the error, where `cause` is what the operating system
    /// says of an I/O error.
    pub open spec fn message_text(self, cause: Seq<char>) -> Seq<char> {
        match self {
            Error::BindTCPListener(_) => "bind TCP listener: "@ + cause,
            Error::GetTCPListenerAddress(_) => "get TCP listener socket address: "@ + cause,
            Error::AwaitReqCountTimeout { current_count, target_count, timeout } => timeout_message(
                "req_count"@,
                current_count,
                target_count,
                timeout,
            ),
            Error::AwaitConcurrentReqCountTimeout {
                current_count,
                target_count,
                timeout,
            } => timeout_message("concurrent_req_count"@, current_count, target_count, timeout),
        }
    }

    /// The text with which a report of the error begins. Of an I/O error it says
    /// what was being done; the cause is reported after it.
    pub fn report(&self) -> (text: String)
        ensures
            text@ == self.report_text(),
    {
        match self {
            Error::BindTCPListener(_) => String::from_str("bind TCP listener"),
            Error::GetTCPListenerAddress(_) => String::from_str("get listener socket address"),
            Error::AwaitReqCountTimeout { current_count, target_count, timeout } =>
                write_timeout_report("req_count", *current_count, *target_count, timeout),
            Error::AwaitConcurrentReqCountTimeout { current_count, target_count, timeout } =>
                write_timeout_report("concurrent_req_count", *current_count, *target_count, timeout),
        }
    }

    /// The full message of the error, with the given text for the cause of an
    /// I/O error.
    pub fn message_with_cause(&self, cause: &str) -> (text: String)
        ensures
            text@ == self.message_text(cause@),
    {
        match self {
            Error::BindTCPListener(_) => String::from_str("bind TCP listener: ").concat(cause),
            Error::GetTCPListenerAddress(_) => String::from_str(
                "get TCP listener socket address: ",
            ).concat(cause),
            Error::AwaitReqCountTimeout { current_count, target_count, timeout } =>
                write_timeout_message("req_count", *current_count, *target_count, timeout),
            Error::AwaitConcurrentReqCountTimeout { current_count, target_count, timeout } =>
                write_timeout_message("concurrent_req_count", *current_count, *target_count, timeout),
        }
    }

    /// The full message of the error, with the cause of an I/O error as the
    /// operating system puts it.
    pub fn message(&self) -> (text: String)
        ensures
            exists|cause: Seq<char>| text@ == #[trigger] self.message_text(cause),
            self is AwaitReqCountTimeout || self is AwaitConcurrentReqCountTimeout ==> text@
                == self.message_text(Seq::empty()),
            self matches Error::BindTCPListener(error) ==> exists|cause: Seq<char>| #[trigger]
                is_cause(*error, cause) && text@ == "bind TCP listener: "@ + cause,
            self matches Error::GetTCPListenerAddress(error) ==> exists|cause: Seq<char>|
                #[trigger]
                is_cause(*error, cause) && text@ == "get TCP listener socket address: "@ + cause,
    {
        let show = io_error_text;
        let cause = match self {
            Error::BindTCPListener(error) => show(error),
            Error::GetTCPListenerAddress(error) => show(error),
            _ => String::new(),
        };
        proof {
            if let Error::BindTCPListener(error) = self {
                assert(is_cause(*error, cause@));
            }
            if let Error::GetTCPListenerAddress(error) = self {
                assert(is_cause(*error, cause@));
            }
        }
        self.message_with_cause(cause.as_str())
    }
}

/// Whether `text` is made of these pieces, with the two numbers in decimal
/// notation between them.
pub open spec fn is_text_with_numbers(
    text: Seq<char>,
    before: Seq<char>,
    first: u64,
    between: Seq<char>,
    second: u64,
    after: Seq<char>,
) -> bool {
    exists|a: Seq<char>, b: Seq<char>|
        {
            &&& #[trigger] is_decimal_of(a, first as nat)
            &&& #[trigger] is_decimal_of(b, second as nat)
            &&& text == before + a + between + b + after
        }
}

/// The report of a wait that ran out of time names the count, the number that
/// was awaited, the number that was seen, and the allowed time.
pub proof fn law_timeout_report(
    current_count: u64,
    target_count: u64,
    timeout: Duration,
    span: String,
    text: String,
    concurrent_text: String,
)
    requires
        call_ensures(Duration::to_text, (&timeout,), span),
        call_ensures(
            Error::report,
            (&Error::AwaitReqCountTimeout { current_count, target_count, timeout },),
            text,
        ),
        call_ensures(
            Error::report,
            (&Error::AwaitConcurrentReqCountTimeout { current_count, target_count, timeout },),
            concurrent_text,
        ),
    ensures
        is_text_with_numbers(
            text@,
            "req_count"@ + " did not reach "@,
            target_count,
            " (currently "@,
            current_count,
            ") within "@ + span@,
        ),
        is_text_with_numbers(
            concurrent_text@,
            "concurrent_req_count"@ + " did not reach "@,
            target_count,
            " (currently "@,
            current_count,
            ") within "@ + span@,
        ),
{
    law_decimal_denotes(current_count as nat);
    law_decimal_denotes(target_count as nat);
    let (t, c) = (decimal(target_count as nat), decimal(current_count as nat));
    assert(text@ =~= "req_count"@ + " did not reach "@ + t + " (currently "@ + c + (") within "@
        + span@));
    assert(concurrent_text@ =~= "concurrent_req_count"@ + " did not reach "@ + t + " (currently "@
        + c + (") within "@ + span@));
}

/// The message of a wait that ran out of time names the count, the number that
/// was awaited, the allowed time, and the number that was seen.
pub proof fn law_timeout_message(
    current_count: u64,
    target_count: u64,
    timeout: Duration,
    span: String,
    text: String,
    concurrent_text: String,
)
    requires
        call_ensures(Duration::to_text, (&timeout,), span),
        call_ensures(
            Error::message,
            (&Error::AwaitReqCountTimeout { current_count, target_count, timeout },),
            text,
        ),
        call_ensures(
            Error::message,
            (&Error::AwaitConcurrentReqCountTimeout { current_count, target_count, timeout },),
            concurrent_text,
        ),
    ensures
        is_text_with_numbers(
            text@,
            "req_count"@ + " did not reach "@,
            target_count,
            " within "@ + span@ + " (current count: "@,
            current_count,
            ")"@,
        ),
        is_text_with_numbers(
            concurrent_text@,
            "concurrent_req_count"@ + " did not reach "@,
            target_count,
            " within "@ + span@ + " (current count: "@,
            current_count,
            ")"@,
        ),
{
    law_decimal_denotes(current_count as nat);
    law_decimal_denotes(target_count as nat);
    let (t, c) = (decimal(target_count as nat), decimal(current_count as nat));
    assert(text@ =~= "req_count"@ + " did not reach "@ + t + (" within "@ + span@
        + " (current count: "@) + c + ")"@);
    assert(concurrent_text@ =~= "concurrent_req_count"@ + " did not reach "@ + t + (" within "@
        + span@ + " (current count: "@) + c + ")"@);
}

/// The report of a failed start says what was being done, and its message adds
/// the cause.
pub proof fn law_start_errors_in_words(
    error: std::io::Error,
    cause: &str,
    bind_report: String,
    bind_message: String,
    address_report: String,
    address_message: String,
)
    requires
        call_ensures(Error::report, (&Error::BindTCPListener(error),), bind_report),
        call_ensures(
            Error::message_with_cause,
            (&Error::BindTCPListener(error), cause),
            bind_message,
        ),
        call_ensures(Error::report, (&Error::GetTCPListenerAddress(error),), address_report),
        call_ensures(
            Error::message_with_cause,
            (&Error::GetTCPListenerAddress(error), cause),
            address_message,
        ),
    ensures
        bind_report@ == "bind TCP listener"@,
        bind_message@ == "bind TCP listener: "@ + cause@,
        address_report@ == "get listener socket address"@,
        address_message@ == "get TCP listener socket address: "@ + cause@,
{
}

/// The cause that is given makes no difference to the message of a wait that ran
/// out of time.
pub proof fn law_timeout_needs_no_cause(error: Error, cause: &str, text: String, plain: String)
    requires
        error is AwaitReqCountTimeout || error is AwaitConcurrentReqCountTimeout,
        call_ensures(Error::message_with_cause, (&error, cause), text),
        call_ensures(Error::message, (&error,), plain),
    ensures
        text@ == plain@,
{
}

} // verus!
