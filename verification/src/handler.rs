//! The shape of one invocation: what comes in, and what goes back.
//!
//! An invocation carries a command and comes with a request identifier,
//! given by the runtime that delivers it. It is answered with the identifier,
//! the command and the command's new count, or it fails with the store's
//! account of what went wrong. `Response::message` gives the same answer as
//! one line of text.

use crate::counter::CounterError;
use crate::decimal::{decimal_text, render_i64};
use vstd::prelude::*;
use vstd::string::*;

verus! {

/// What an invocation asks: to count one occurrence of `command`.
#[derive(Clone, Debug, PartialEq, Eq)]
pub struct Request {
    pub command: String,
}

/// A `Request` as contracts see it.
pub struct RequestView {
    pub command: Seq<char>,
}

impl View for Request {
    type V = RequestView;

    open spec fn view(&self) -> RequestView {
        RequestView { command: self.command@ }
    }
}

/// The answer to an invocation that succeeded.
#[derive(Clone, Debug, PartialEq, Eq)]
pub struct Response {
    /// The identifier of the request that is answered.
    pub req_id: String,
    /// The command that was counted.
    pub command: String,
    /// The command's count, this occurrence included.
    pub count: i64,
}

/// A `Response` as contracts see it.
pub struct ResponseView {
    pub req_id: Seq<char>,
    pub command: Seq<char>,
    pub count: int,
}

impl View for Response {
    type V = ResponseView;

    open spec fn view(&self) -> ResponseView {
        ResponseView { req_id: self.req_id@, command: self.command@, count: self.count as int }
    }
}

/// The answer as one line of text: `Command '<command>': <count>`.
pub open spec fn message_text(command: Seq<char>, count: int) -> Seq<char> {
    "Command '"@ + command + "': "@ + decimal_text(count)
}

impl Response {
    /// The answer as one line of text: `Command '<command>': <count>`.
    pub fn message(&self) -> (r: String)
        ensures
            r@ == message_text(self.command@, self.count as int),
    {
        let mut out = String::from_str("Command '");
        out.append(self.command.as_str());
        out.append("': ");
        out.append(render_i64(self.count).as_str());
        out
    }
}

/// Answers the invocation `request`, made under the identifier `req_id`,
/// once its update has ended with `outcome`.
///
/// An update that gave a count is answered with the identifier, the command
/// and that count. One that failed fails the invocation, with the failure's
/// description as the error.
pub fn respond(req_id: String, request: Request, outcome: Result<i64, CounterError>) -> (r: Result<
    Response,
    String,
>)
    ensures
        match outcome {
            Ok(count) => r matches Ok(response) && response@ == (ResponseView {
                req_id: req_id@,
                command: request@.command,
                count: count as int,
            }),
            Err(error) => r matches Err(description) && description@ == error@.description(),
        },
{
    match outcome {
        Ok(count) => Ok(Response { req_id, command: request.command, count }),
        Err(error) => Err(error.description()),
    }
}

} // verus!
