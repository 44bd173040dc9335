//! The replies of the server's HTTP front end, which opens tunnel streams on
//! request.

use vstd::prelude::*;

verus! {

/// Status code of a request whose session does not exist.
pub const NOT_FOUND: u16 = 404;

/// Status code of a request that failed inside the server.
pub const INTERNAL_SERVER_ERROR: u16 = 500;

/// Status code of a request that took too long.
pub const REQUEST_TIMEOUT: u16 = 408;

/// Status code of a request refused because the server is overloaded.
pub const SERVICE_UNAVAILABLE: u16 = 503;

/// The reply to a request to open a stream, given what opening it gave: the
/// body "ok" when the stream was opened, "not found" when the token has no
/// session, and an internal error when opening failed.
pub fn stream_reply<T, E>(opened: Result<Option<T>, E>) -> (reply: Result<String, u16>)
    ensures
        opened matches Ok(Some(_)) ==> (reply matches Ok(body) && body@ == "ok"@),
        opened matches Ok(None) ==> reply == Err::<String, u16>(NOT_FOUND),
        opened is Err ==> reply == Err::<String, u16>(INTERNAL_SERVER_ERROR),
{
    match opened {
        Ok(Some(_)) => Ok("ok".to_owned()),
        Ok(None) => Err(NOT_FOUND),
        Err(_) => Err(INTERNAL_SERVER_ERROR),
    }
}

/// A failure of the middleware in front of the request handler.
#[derive(Debug, Clone, Copy, PartialEq, Eq)]
pub enum Fault {
    /// The request timed out.
    Timeout,
    /// The server shed the request under load.
    Overloaded,
    /// Any other failure.
    Other,
}

/// The status and body answered for a middleware failure; `detail` is the
/// failure's own description, quoted in the body of an unexpected failure.
pub fn fault_reply(fault: Fault, detail: &str) -> (reply: (u16, String))
    ensures
        fault == Fault::Timeout ==> reply.0 == REQUEST_TIMEOUT && reply.1@ == "request timed out"@,
        fault == Fault::Overloaded ==> reply.0 == SERVICE_UNAVAILABLE && reply.1@
            == "service is overloaded, try again later"@,
        fault == Fault::Other ==> reply.0 == INTERNAL_SERVER_ERROR && reply.1@
            == "Unhandled internal error: "@ + detail@,
{
    match fault {
        Fault::Timeout => (REQUEST_TIMEOUT, "request timed out".to_owned()),
        Fault::Overloaded => (SERVICE_UNAVAILABLE, "service is overloaded, try again later".to_owned()),
        Fault::Other => {
            let mut body = "Unhandled internal error: ".to_owned();
            body.append(detail);
            (INTERNAL_SERVER_ERROR, body)
        },
    }
}

} // verus!
