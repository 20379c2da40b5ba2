//! The error taxonomy, and how a rejected request is turned into a reply.

use vstd::prelude::*;
use crate::text::{contains, contains_text};

verus! {

/// The classes of failure that the service distinguishes.
#[derive(Clone, Copy, Debug, PartialEq, Eq, Structural)]
pub enum ErrorKind {
    /// Role assumption was refused, or the base token is absent or expired.
    Authentication,
    /// An upstream call failed: service, validation, dispatch or unreadable response.
    ProviderApi,
    /// One entity of an aggregation could not be resolved; its branch is left out.
    AggregationPartial,
    /// A foundational stage of an aggregation failed; the request is aborted.
    AggregationFatal,
    /// A request body or query could not be read.
    MalformedRequest,
    /// A subscriber's channel is closed.
    Transport,
}

/// A failure: its class and a message for people.
#[derive(Clone, Debug)]
pub struct ServiceError {
    pub kind: ErrorKind,
    pub message: String,
}

impl ServiceError {
    /// A failure of class `kind` with the given message.
    pub fn new(kind: ErrorKind, message: String) -> (e: ServiceError)
        ensures
            e.kind == kind,
            e.message == message,
    {
        ServiceError { kind, message }
    }

    /// A failure of class `kind` whose message is the literal `message`.
    pub fn of(kind: ErrorKind, message: &str) -> (e: ServiceError)
        ensures
            e.kind == kind,
            e.message@ == message@,
    {
        ServiceError { kind, message: message.to_owned() }
    }

    /// The text shown for this failure.
    pub fn render(&self) -> (text: String)
        ensures
            text@ == self.message@,
    {
        self.message.clone()
    }
}

/// The body of an error reply.
#[derive(Clone, Debug)]
pub struct ErrorMessage {
    pub code: u16,
    pub message: String,
}

/// A failure carried through the routing layer as a rejection.
#[derive(Clone, Debug)]
pub struct ErrorWrapper {
    pub error: ServiceError,
}

/// A body that could not be deserialised: the text of the underlying
/// error, if there is one.
#[derive(Clone, Debug)]
pub struct BodyFailure {
    pub cause: Option<String>,
}

/// What the routing layer reports of a request that it rejected. A
/// rejection may have more than one cause; each is reported by itself.
#[derive(Clone, Debug)]
pub struct Rejection {
    /// No route matched.
    pub not_found: bool,
    /// A handler failed with an error of this service.
    pub failure: Option<ErrorWrapper>,
    /// The body could not be deserialised.
    pub body: Option<BodyFailure>,
    /// The route exists, the method is not allowed on it.
    pub method_not_allowed: bool,
}

/// The cause by which a rejection is answered, where it has several.
#[derive(Clone, Copy, Debug, PartialEq, Eq, Structural)]
pub enum Cause {
    NotFound,
    Failure,
    Body,
    MethodNotAllowed,
    Unhandled,
}

/// The reply to a rejected request, the cause by which it was answered,
/// and the text to post to the notification webhook where one is due.
#[derive(Clone, Debug)]
pub struct Handled {
    pub cause: Cause,
    pub reply: ErrorMessage,
    pub notice: Option<String>,
}

/// The cause by which `err` is answered: a route that was not found comes
/// before a failed handler, that before a body that could not be read, and
/// that before a method that is not allowed.
pub open spec fn cause_of(err: Rejection) -> Cause {
    if err.not_found {
        Cause::NotFound
    } else if err.failure.is_some() {
        Cause::Failure
    } else if err.body.is_some() {
        Cause::Body
    } else if err.method_not_allowed {
        Cause::MethodNotAllowed
    } else {
        Cause::Unhandled
    }
}

/// The status code of the reply to `err`.
pub open spec fn reply_code(err: Rejection) -> u16 {
    match cause_of(err) {
        Cause::NotFound => 404,
        Cause::Failure => 500,
        Cause::Body => 400,
        Cause::MethodNotAllowed => 405,
        Cause::Unhandled => 500,
    }
}

/// The message of the reply to `err`.
pub open spec fn reply_message(err: Rejection) -> Seq<char> {
    match cause_of(err) {
        Cause::NotFound => "NOT_FOUND"@,
        Cause::Failure => err.failure.unwrap().error.message@,
        Cause::Body => match err.body.unwrap().cause {
            Some(c) => if contains_text(c@, "denom"@) {
                "FIELD_ERROR: denom"@
            } else {
                "BAD_REQUEST"@
            },
            None => "BAD_REQUEST"@,
        },
        Cause::MethodNotAllowed => "METHOD_NOT_ALLOWED"@,
        Cause::Unhandled => "UNHANDLED_REJECTION"@,
    }
}

/// The text to post to the notification webhook: the rendered error, where
/// the rejection is answered as a failed handler and the text of the error
/// mentions a token.
pub open spec fn reply_notice(err: Rejection) -> Option<Seq<char>> {
    if cause_of(err) == Cause::Failure && contains_text(
        err.failure.unwrap().error.message@,
        "token"@,
    ) {
        Some(err.failure.unwrap().error.message@)
    } else {
        None
    }
}

/// Turns a rejection into the reply that goes to the client, and says whether
/// the notification webhook is to be called and with what body.
pub fn handle_rejection(err: Rejection) -> (out: Handled)
    ensures
        out.cause == cause_of(err),
        out.reply.code == reply_code(err),
        out.reply.message@ == reply_message(err),
        match reply_notice(err) {
            Some(text) => out.notice.is_some() && out.notice.unwrap()@ == text,
            None => out.notice.is_none(),
        },
{
    if err.not_found {
        return Handled {
            cause: Cause::NotFound,
            reply: ErrorMessage { code: 404, message: "NOT_FOUND".to_owned() },
            notice: None,
        };
    }
    match err.failure {
        Some(wrapper) => {
            let message = wrapper.error.render();
            let notice = if contains(message.as_str(), "token") {
                Some(message.clone())
            } else {
                None
            };
            return Handled {
                cause: Cause::Failure,
                reply: ErrorMessage { code: 500, message },
                notice,
            };
        },
        None => {},
    }
    match err.body {
        Some(failure) => {
            let message = match failure.cause {
                Some(text) => if contains(text.as_str(), "denom") {
                    "FIELD_ERROR: denom".to_owned()
                } else {
                    "BAD_REQUEST".to_owned()
                },
                None => "BAD_REQUEST".to_owned(),
            };
            return Handled {
                cause: Cause::Body,
                reply: ErrorMessage { code: 400, message },
                notice: None,
            };
        },
        None => {},
    }
    if err.method_not_allowed {
        Handled {
            cause: Cause::MethodNotAllowed,
            reply: ErrorMessage { code: 405, message: "METHOD_NOT_ALLOWED".to_owned() },
            notice: None,
        }
    } else {
        Handled {
            cause: Cause::Unhandled,
            reply: ErrorMessage { code: 500, message: "UNHANDLED_REJECTION".to_owned() },
            notice: None,
        }
    }
}

} // verus!
