//! The host side: what is done for each request, and how a connection goes on and ends.

use vstd::prelude::*;

use crate::rpc::proto::{Outcome, Request, Response, PROTOCOL_VERSION};

verus! {

/// What happened on a connection.
#[derive(Debug, PartialEq, Eq)]
pub enum ServeEvent {
    /// A request was read, or none could be.
    Read(Option<Request>),
    /// The file system performed the operation that was asked for.
    Performed(Outcome),
    /// The response was written, or could not be.
    Written(bool),
}

/// What is to be done next on a connection.
#[derive(Debug, PartialEq, Eq)]
pub enum ServeAction {
    /// Perform the operation on the file system, with the arguments of the request.
    Perform(Request),
    /// Write the response.
    Send(Response),
    /// Read the next request.
    ReadNext,
    /// The connection is over.
    Close,
}

/// The action for a request: the handshake is answered with the version of this side, whatever
/// version the guest named; everything else is for the file system.
pub open spec fn handling(req: Request) -> ServeAction {
    match req {
        Request::Hello { .. } => ServeAction::Send(
            Response::Hello { protocol_version: PROTOCOL_VERSION },
        ),
        _ => ServeAction::Perform(req),
    }
}

/// The action that follows an event.
pub open spec fn serving(ev: ServeEvent) -> ServeAction {
    match ev {
        ServeEvent::Read(Some(req)) => handling(req),
        ServeEvent::Read(None) => ServeAction::Close,
        ServeEvent::Performed(o) => ServeAction::Send(o.as_response()),
        ServeEvent::Written(true) => ServeAction::ReadNext,
        ServeEvent::Written(false) => ServeAction::Close,
    }
}

/// Decides what a request needs.
pub fn handle(req: Request) -> (r: ServeAction)
    ensures
        r == handling(req),
{
    match req {
        Request::Hello { .. } => ServeAction::Send(
            Response::Hello { protocol_version: PROTOCOL_VERSION },
        ),
        _ => ServeAction::Perform(req),
    }
}

/// The response to what the file system gave back.
pub fn respond(o: Outcome) -> (r: Response)
    ensures
        r == o.as_response(),
{
    match o {
        Outcome::Stat(r) => Response::Stat(r),
        Outcome::List(r) => Response::List(r),
        Outcome::Read(r) => Response::Read(r),
        Outcome::Write(r) => Response::Write(r),
        Outcome::Create(r) => Response::Create(r),
        Outcome::Mkdir(r) => Response::Mkdir(r),
        Outcome::Remove(r) => Response::Remove(r),
        Outcome::Rmdir(r) => Response::Rmdir(r),
        Outcome::Rename(r) => Response::Rename(r),
        Outcome::Truncate(r) => Response::Truncate(r),
    }
}

/// Serves one connection, step by step: what happened decides what is done next. A request that
/// cannot be read or a response that cannot be written ends the connection.
pub fn serve_step(ev: ServeEvent) -> (r: ServeAction)
    ensures
        r == serving(ev),
{
    match ev {
        ServeEvent::Read(read) => match read {
            Some(req) => handle(req),
            None => ServeAction::Close,
        },
        ServeEvent::Performed(o) => ServeAction::Send(respond(o)),
        ServeEvent::Written(ok) => if ok {
            ServeAction::ReadNext
        } else {
            ServeAction::Close
        },
    }
}

/// A request is answered by the response of its own operation.
pub proof fn response_answers_request(req: Request, o: Outcome)
    requires
        req.op() == Some(o.op()),
    ensures
        serving(ServeEvent::Read(Some(req))) == ServeAction::Perform(req),
        serving(ServeEvent::Performed(o)) matches ServeAction::Send(resp) && resp.op() == req.op(),
{
}

} // verus!
