//! The request proxy orchestrator: one proxied request end to end.
//!
//! The machine is pure decision logic: the transport performs each
//! returned action (acquire a ticket, forward upstream, submit the
//! header report) and feeds the outcome back in.  A request is never
//! forwarded without a granted ticket, and once the response has been
//! finalized, the header report's outcome can no longer change it.

use vstd::prelude::*;
use crate::errors::ProxyError;
use crate::headers::{
    rewrite_headers, spec_attach, spec_rewrite, attach_timing_headers, HeaderList,
};
use crate::routing::{
    build_uri, classify_method, derive_bucket_key, method_name, normalize_path, route_class,
    spec_classify, spec_normalize, spec_uri, Method,
};

verus! {

/// Everything derived from the inbound request line before any network
/// activity: the classified method, the bucket key, the upstream URL.
pub struct RequestPlan {
    pub method: Method,
    pub bucket_key: u64,
    pub uri: String,
}

/// The plan's relation to the inbound request line.
pub open spec fn plan_matches(
    plan: RequestPlan,
    method: Seq<char>,
    path: Seq<char>,
    query: Option<Seq<char>>,
) -> bool {
    &&& spec_classify(method) == Some(plan.method)
    &&& route_class(method_name(plan.method), spec_normalize(path).1) == Some(plan.bucket_key)
    &&& plan.uri@ == spec_uri(spec_normalize(path).0, spec_normalize(path).1, query)
}

/// Builds the plan for an inbound request line: rejects unsupported
/// methods, normalizes the path, derives the bucket key, and builds the
/// upstream URL with the original query preserved verbatim.
pub fn plan_request(method: &str, path: &str, query: Option<&str>) -> (r: Result<
    RequestPlan,
    ProxyError,
>)
    ensures
        match r {
            Ok(plan) => plan_matches(
                plan,
                method@,
                path@,
                match query {
                    Some(q) => Some(q@),
                    None => None,
                },
            ),
            Err(e) => {
                &&& (e == ProxyError::UnsupportedMethod <==> spec_classify(method@) is None)
                &&& (e == ProxyError::Routing <==> (spec_classify(method@) matches Some(m)
                    && route_class(method_name(m), spec_normalize(path@).1) is None))
                &&& (e == ProxyError::UnsupportedMethod || e == ProxyError::Routing)
            },
        },
{
    let m = match classify_method(method) {
        Some(m) => m,
        None => {
            return Err(ProxyError::UnsupportedMethod);
        },
    };
    let (prefix, rem) = normalize_path(path);
    let key = match derive_bucket_key(m, rem) {
        Some(k) => k,
        None => {
            return Err(ProxyError::Routing);
        },
    };
    let uri = build_uri(prefix, rem, query);
    Ok(RequestPlan { method: m, bucket_key: key, uri })
}

/// The upstream response as the proxy models it: status and headers;
/// the body passes through the transport untouched.
pub struct UpstreamResponse {
    pub status: u16,
    pub headers: HeaderList,
}

/// Where one proxied request stands.
pub enum ProxyPhase {
    /// Waiting for the owning replica to grant the ticket.
    TicketWaiting,
    /// Ticket granted after `ticket_ms`; the rewritten request may go
    /// upstream.
    Forwarding { ticket_ms: u64 },
    /// The response is finalized; the header report is still owed.
    Reporting { response: UpstreamResponse },
    /// The response has been handed to the caller.
    Done { response: UpstreamResponse },
    /// The request was aborted.
    Failed { error: ProxyError },
}

/// What the transport must do next.
pub enum ProxyAction {
    /// Ask the owning replica for a ticket for this bucket.
    AcquireTicket { bucket_key: u64 },
    /// Forward the request upstream with these rewritten headers.
    Forward { uri: String, headers: HeaderList },
    /// Best-effort: report these response headers for this bucket.
    SubmitReport { bucket_key: u64, headers: HeaderList },
    /// Hand the finalized response to the caller.
    Respond,
    /// Abort the request with this error.
    Abort { error: ProxyError },
}

/// Drives one proxied request: normalize, hash, ticket, rewrite,
/// forward, report, respond.
pub struct ProxyMachine {
    pub plan: RequestPlan,
    pub request_headers: HeaderList,
    pub token: String,
    pub phase: ProxyPhase,
}

impl ProxyMachine {
    /// Starts a proxied request: plans it and asks for a ticket.  No
    /// network activity may happen before the ticket is granted.
    pub fn start(
        method: &str,
        path: &str,
        query: Option<&str>,
        request_headers: HeaderList,
        token: String,
    ) -> (r: Result<(ProxyMachine, ProxyAction), ProxyError>)
        ensures
            match r {
                Ok((m, a)) => {
                    &&& m.phase == ProxyPhase::TicketWaiting
                    &&& plan_matches(
                        m.plan,
                        method@,
                        path@,
                        match query {
                            Some(q) => Some(q@),
                            None => None,
                        },
                    )
                    &&& a == (ProxyAction::AcquireTicket { bucket_key: m.plan.bucket_key })
                    &&& m.request_headers == request_headers
                    &&& m.token == token
                },
                Err(e) => {
                    &&& (e == ProxyError::UnsupportedMethod <==> spec_classify(method@) is None)
                    &&& (e == ProxyError::Routing <==> (spec_classify(method@) matches Some(m)
                        && route_class(method_name(m), spec_normalize(path@).1) is None))
                    &&& (e == ProxyError::UnsupportedMethod || e == ProxyError::Routing)
                },
            },
    {
        let plan = plan_request(method, path, query)?;
        let bucket_key = plan.bucket_key;
        let machine = ProxyMachine {
            plan,
            request_headers,
            token,
            phase: ProxyPhase::TicketWaiting,
        };
        Ok((machine, ProxyAction::AcquireTicket { bucket_key }))
    }

    /// Consumes the ticket outcome.  Only a granted ticket lets the
    /// request go upstream, with the caller's credential and hop-by-hop
    /// headers replaced; a denial aborts the request.
    pub fn on_ticket(&mut self, granted: bool, wait_ms: u64) -> (a: ProxyAction)
        requires
            old(self).phase == ProxyPhase::TicketWaiting,
        ensures
            final(self).plan == old(self).plan,
            final(self).request_headers == old(self).request_headers,
            final(self).token == old(self).token,
            granted ==> {
                &&& final(self).phase == (ProxyPhase::Forwarding { ticket_ms: wait_ms })
                &&& a matches ProxyAction::Forward { uri, headers } && uri@ == old(self).plan.uri@
                    && headers.deep_view() == spec_rewrite(
                    old(self).request_headers.deep_view(),
                    old(self).token@,
                )
            },
            !granted ==> {
                &&& final(self).phase == (ProxyPhase::Failed { error: ProxyError::TicketFailed })
                &&& a == (ProxyAction::Abort { error: ProxyError::TicketFailed })
            },
    {
        if granted {
            let headers = rewrite_headers(&self.request_headers, self.token.as_str());
            let uri = clone_string(&self.plan.uri);
            self.phase = ProxyPhase::Forwarding { ticket_ms: wait_ms };
            ProxyAction::Forward { uri, headers }
        } else {
            self.phase = ProxyPhase::Failed { error: ProxyError::TicketFailed };
            ProxyAction::Abort { error: ProxyError::TicketFailed }
        }
    }

    /// Consumes the upstream outcome.  On success the response gains the
    /// two diagnostic timing headers and the header report is issued for
    /// everything the response now carries; a transport failure aborts.
    pub fn on_upstream(&mut self, outcome: Option<(u16, HeaderList)>, elapsed_ms: u64) -> (a:
        ProxyAction)
        requires
            old(self).phase matches ProxyPhase::Forwarding { ticket_ms },
        ensures
            final(self).plan == old(self).plan,
            final(self).request_headers == old(self).request_headers,
            final(self).token == old(self).token,
            match outcome {
                Some((status, up_headers)) => {
                    let t = old(self).phase->Forwarding_ticket_ms;
                    let augmented = spec_attach(up_headers.deep_view(), t, elapsed_ms);
                    &&& final(self).phase matches ProxyPhase::Reporting { response }
                        && response.status == status && response.headers.deep_view() == augmented
                    &&& a matches ProxyAction::SubmitReport { bucket_key, headers } && bucket_key
                        == old(self).plan.bucket_key && headers.deep_view() == augmented
                },
                None => {
                    &&& final(self).phase == (ProxyPhase::Failed {
                        error: ProxyError::UpstreamFailed,
                    })
                    &&& a == (ProxyAction::Abort { error: ProxyError::UpstreamFailed })
                },
            },
    {
        let t: u64 = match &self.phase {
            ProxyPhase::Forwarding { ticket_ms } => *ticket_ms,
            _ => 0,
        };
        match outcome {
            Some((status, up_headers)) => {
                let mut augmented = up_headers;
                attach_timing_headers(&mut augmented, t, elapsed_ms);
                let report = clone_headers(&augmented);
                let bucket_key = self.plan.bucket_key;
                self.phase = ProxyPhase::Reporting {
                    response: UpstreamResponse { status, headers: augmented },
                };
                ProxyAction::SubmitReport { bucket_key, headers: report }
            },
            None => {
                self.phase = ProxyPhase::Failed { error: ProxyError::UpstreamFailed };
                ProxyAction::Abort { error: ProxyError::UpstreamFailed }
            },
        }
    }

    /// Consumes the header-report outcome.  The report is best-effort:
    /// whether it was accepted or failed, the finalized response is
    /// handed to the caller unaltered.
    pub fn on_report(&mut self, accepted: bool) -> (a: ProxyAction)
        requires
            old(self).phase matches ProxyPhase::Reporting { response },
        ensures
            final(self).plan == old(self).plan,
            final(self).request_headers == old(self).request_headers,
            final(self).token == old(self).token,
            final(self).phase == (ProxyPhase::Done {
                response: old(self).phase->Reporting_response,
            }),
            a == ProxyAction::Respond,
    {
        let mut phase = ProxyPhase::TicketWaiting;
        core::mem::swap(&mut phase, &mut self.phase);
        match phase {
            ProxyPhase::Reporting { response } => {
                self.phase = ProxyPhase::Done { response };
            },
            other => {
                self.phase = other;
            },
        }
        ProxyAction::Respond
    }
}

/// Duplicates a string, view preserved.
pub fn clone_string(s: &String) -> (r: String)
    ensures
        r@ == s@,
{
    s.clone()
}

/// Duplicates a header list, views preserved.
pub fn clone_headers(h: &HeaderList) -> (r: HeaderList)
    ensures
        r.deep_view() == h.deep_view(),
{
    let ghost hv = h.deep_view();
    let mut out: HeaderList = Vec::new();
    proof {
        assert(out.deep_view() =~= hv.subrange(0, 0));
    }
    let n = h.len();
    let mut i: usize = 0;
    while i < n
        invariant
            n == h.len(),
            hv == h.deep_view(),
            hv.len() == n,
            0 <= i <= n,
            out.deep_view() == hv.subrange(0, i as int),
        decreases n - i,
    {
        let kv = &h[i];
        let ghost prev = out.deep_view();
        out.push((kv.0.clone(), kv.1.clone()));
        proof {
            assert(hv[i as int] == (kv.0@, kv.1@));
            assert(out.deep_view() =~= prev.push((kv.0@, kv.1@)));
            assert(hv.subrange(0, i as int + 1) =~= hv.subrange(0, i as int).push(hv[i as int]));
        }
        i += 1;
    }
    proof {
        assert(hv.subrange(0, n as int) =~= hv);
    }
    out
}

} // verus!
