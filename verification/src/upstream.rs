//! Where requests are relayed to.

use crate::error::ProxyError;
use crate::text::joined;
use vstd::prelude::*;

verus! {

/// The base address of the upstream API.
pub const API_ENDPOINT: &'static str = "https://openrouter.ai/api/v1";

/// The `Host` header of every relayed request.
pub const HOST_HEADER: &'static str = "openrouter.ai";

/// The path of the endpoint whose event stream is reconciled.
pub const RESPONSES_PATH: &'static str = "responses";

/// Whether a status code is a success: one of the codes from 200 to 299.
pub open spec fn is_success(status: u16) -> bool {
    200 <= status < 300
}

/// The upstream address for the path `rest`, which is given without its
/// leading slash.
pub fn upstream_url(rest: &str) -> (url: String)
    ensures
        url@ == API_ENDPOINT@ + "/"@ + rest@,
{
    let mut url = joined(API_ENDPOINT, "/");
    url.append(rest);
    url
}

/// Whether the answer to the opening request lets the stream be relayed: a
/// success does, and any other status fails the whole request.
pub fn check_status(status: u16, status_text: &str) -> (outcome: Result<(), ProxyError>)
    ensures
        is_success(status) ==> outcome is Ok,
        !is_success(status) ==> (outcome matches Err(error) && error.msg@
            == "Upstream returned error status: "@ + status_text@),
{
    if 200 <= status && status < 300 {
        Ok(())
    } else {
        Err(ProxyError::upstream_status(status_text))
    }
}

} // verus!
