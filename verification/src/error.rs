//! The failure of a proxied request.

use crate::text::joined;
use vstd::prelude::*;

verus! {

/// The status of the answer to a request that failed upstream.
pub const BAD_GATEWAY: u16 = 502;

/// A request that could not be relayed; `msg` is the body of the answer.
#[derive(Clone, Debug, PartialEq, Eq)]
pub struct ProxyError {
    pub msg: String,
}

impl ProxyError {
    /// An error with the given message.
    pub fn new(msg: &str) -> (error: ProxyError)
        ensures
            error.msg@ == msg@,
    {
        ProxyError { msg: msg.to_owned() }
    }

    /// The error for a request that could not be sent or answered; `detail`
    /// is what the transport said.
    pub fn request_failed(detail: &str) -> (error: ProxyError)
        ensures
            error.msg@ == "Proxy request error: "@ + detail@,
    {
        ProxyError { msg: joined("Proxy request error: ", detail) }
    }

    /// The error for an upstream answer with a status that is no success;
    /// `status` is the status as text.
    pub fn upstream_status(status: &str) -> (error: ProxyError)
        ensures
            error.msg@ == "Upstream returned error status: "@ + status@,
    {
        ProxyError { msg: joined("Upstream returned error status: ", status) }
    }
}

} // verus!
