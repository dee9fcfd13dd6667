//! Error taxonomy of the proxy, and the error-reporting helpers offered to
//! a host process that embeds the proxy.

use vstd::prelude::*;

verus! {

/// Why a proxied request (or one of its sub-operations) failed.
#[derive(Clone, Copy, PartialEq, Eq, Structural, Debug)]
pub enum ProxyError {
    /// The inbound request used a method outside the supported set.
    UnsupportedMethod,
    /// The normalized path could not be classified into a bucket key.
    Routing,
    /// The hash ring held no rate-limiter replica.
    NoRatelimiterNodes,
    /// The ticket-acquisition call to the rate-limiter cluster failed.
    TicketFailed,
    /// The forwarded call to the upstream API failed.
    UpstreamFailed,
}

impl ProxyError {
    /// A short human-readable message for each failure.
    pub fn message(&self) -> (r: &'static str)
        ensures
            *self == ProxyError::UnsupportedMethod ==> r@ == "unsupported method"@,
            *self == ProxyError::Routing ==> r@ == "failed to parse path"@,
            *self == ProxyError::NoRatelimiterNodes ==> (r@
                == "did not compute ratelimit because no ratelimiter nodes are detected"@),
            *self == ProxyError::TicketFailed ==> r@ == "failed to retrieve ticket"@,
            *self == ProxyError::UpstreamFailed ==> r@ == "failed to request the discord api"@,
    {
        match self {
            ProxyError::UnsupportedMethod => "unsupported method",
            ProxyError::Routing => "failed to parse path",
            ProxyError::NoRatelimiterNodes => (
            "did not compute ratelimit because no ratelimiter nodes are detected"),
            ProxyError::TicketFailed => "failed to retrieve ticket",
            ProxyError::UpstreamFailed => "failed to request the discord api",
        }
    }
}

/// The error type of the `anyhow` crate, used by an embedding host
/// process; opaque to the proxy's own logic.
#[verifier::external_type_specification]
#[verifier::external_body]
pub struct ExAnyhowError(anyhow::Error);

/// Renders an error for the host process.
///
/// Relies on the `Display` implementation of `anyhow::Error`: the rendered
/// text is the error's own message, produced by the `format!` machinery.
#[verifier::external_body]
pub fn stacktrace(err: anyhow::Error) -> String {
    format!("{err}")
}

/// Runs a fallible computation for an embedding host, turning its result
/// into an `Option`: the value on success, `None` on failure.  Reporting
/// the failure itself (logging, a host callback) is the embedder's concern.
pub fn wrap_result<T, F>(func: F) -> (r: Option<T>) where F: Fn() -> Result<T, anyhow::Error>
    requires
        func.requires(()),
    ensures
        r matches Some(v) ==> func.ensures((), Ok(v)),
        r is None ==> exists|e: anyhow::Error| func.ensures((), Err(e)),
{
    let result = func();

    match result {
        Ok(ok) => Some(ok),
        Err(error) => {
            proof {
                assert(func.ensures((), Err(error)));
            }
            None
        },
    }
}

} // verus!
