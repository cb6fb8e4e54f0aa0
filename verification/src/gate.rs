//! The request-gating decision logic: from the configured policy, the
//! session's identity, and the request's ticket, decide whether to let
//! the request pass, respond (redirect, 403, 404), or validate a ticket;
//! and, once a validation outcome is in hand, decide what to store in
//! the session and where to send the user.
//!
//! Everything here is a pure decision; the caller performs the HTTP
//! fetch and the session writes the decisions call for. Every failure
//! path ends in a response, never in a pass-through: ambiguity about a
//! ticket never grants access.

use vstd::prelude::*;

use crate::client::{CasClient, ClientView, NoAuthBehavior};
use crate::urls::{login_url_of, logout_url_of};
use crate::user::CasUser;

verus! {

/// What the session holds when a request arrives: the authenticated
/// identity, if any, and the pending post-login redirect, if one was
/// saved.
pub struct SessionSnapshot {
    pub identity: Option<CasUser>,
    pub pending_redirect: Option<String>,
}

/// What is read off the incoming request for the decision: its own URL
/// and the `ticket` query parameter, if present.
pub struct RequestFacts {
    pub url: String,
    pub ticket: Option<String>,
}

/// A concrete HTTP answer: a 307 redirect to the given location, or a
/// bare status code with an empty body.
#[derive(Debug, PartialEq, Eq)]
pub enum GateResponse {
    Redirect(String),
    Status(u16),
}

/// The decision on a request: let it through, answer it, or
/// validate the given ticket and then consult
/// [`AuthGate::resolve_validation`].
#[derive(Debug, PartialEq, Eq)]
pub enum GateDecision {
    PassThrough,
    Respond(GateResponse),
    ValidateTicket(String),
}

/// True when `r` is the answer for a request that must first log in:
/// a redirect to the CAS login URL, or a bare 500 when the configured
/// base URL and prefix do not compose into one.
pub open spec fn is_login_redirect(c: ClientView, r: GateResponse) -> bool {
    match login_url_of(c) {
        Some(u) => r matches GateResponse::Redirect(l) && l@ == u,
        None => r == GateResponse::Status(500u16),
    }
}

/// True when `r` is a redirect to `landing` if one is configured, and
/// the bare `status` otherwise.
pub open spec fn is_error_response(status: u16, landing: Option<Seq<char>>, r: GateResponse) -> bool {
    match landing {
        Some(l) => r matches GateResponse::Redirect(u) && u@ == l,
        None => r == GateResponse::Status(status),
    }
}

/// True when `after` carries the same identity as `before`, with the
/// pending redirect saved first-wins: an already-pending target is kept,
/// otherwise the request's URL is saved.
pub open spec fn noted_return_path(
    before: SessionSnapshot,
    after: SessionSnapshot,
    url: Seq<char>,
) -> bool {
    &&& after.identity == before.identity
    &&& match before.pending_redirect {
        Some(_) => after.pending_redirect == before.pending_redirect,
        None => after.pending_redirect matches Some(u) && u@ == url,
    }
}

/// The decision table, as a predicate over the inputs and the
/// returned session and decision.
pub open spec fn decision_post(
    gate: AuthGate,
    session: SessionSnapshot,
    request: RequestFacts,
    r: (SessionSnapshot, GateDecision),
) -> bool {
    match gate.client@.no_auth_behavior {
        NoAuthBehavior::AuthenticatedOr403 => {
            &&& r.0 == session
            &&& match session.identity {
                Some(_) => r.1 == GateDecision::PassThrough,
                None => r.1 matches GateDecision::Respond(resp) && is_error_response(
                    403u16,
                    match gate.url_to_403 {
                        Some(u) => Some(u@),
                        None => None,
                    },
                    resp,
                ),
            }
        },
        NoAuthBehavior::AuthenticatedOr404 => {
            &&& r.0 == session
            &&& match session.identity {
                Some(_) => r.1 == GateDecision::PassThrough,
                None => r.1 matches GateDecision::Respond(resp) && is_error_response(
                    404u16,
                    match gate.url_to_404 {
                        Some(u) => Some(u@),
                        None => None,
                    },
                    resp,
                ),
            }
        },
        NoAuthBehavior::Authenticate => {
            match session.identity {
                Some(_) => r.0 == session && r.1 == GateDecision::PassThrough,
                None => authentication_flow_post(gate, session, request, r),
            }
        },
        NoAuthBehavior::ForceAuthentication => authentication_flow_post(gate, session, request, r),
    }
}

/// The login round-trip's outcome: the return path is noted first-wins;
/// a request carrying a ticket has that ticket validated, and one
/// without is redirected to login.
pub open spec fn authentication_flow_post(
    gate: AuthGate,
    session: SessionSnapshot,
    request: RequestFacts,
    r: (SessionSnapshot, GateDecision),
) -> bool {
    &&& noted_return_path(session, r.0, request.url@)
    &&& match request.ticket {
        Some(t) => r.1 matches GateDecision::ValidateTicket(t2) && t2@ == t@,
        None => r.1 matches GateDecision::Respond(resp) && is_login_redirect(gate.client@, resp),
    }
}

/// Law: fail closed. A request without an authenticated identity never
/// passes through, whatever the policy: it is answered, or its ticket
/// is sent for validation (whose own failure is answered too; see
/// [`AuthGate::resolve_validation`]).
pub proof fn lemma_fail_closed(
    gate: AuthGate,
    session: SessionSnapshot,
    request: RequestFacts,
    r: (SessionSnapshot, GateDecision),
)
    requires
        decision_post(gate, session, request, r),
        session.identity is None,
    ensures
        r.1 != GateDecision::PassThrough,
{
}

/// The request gate: a configured client together with the optional
/// landing paths used in place of bare 403 / 404 statuses.
pub struct AuthGate {
    pub client: CasClient,
    pub url_to_403: Option<String>,
    pub url_to_404: Option<String>,
}

impl AuthGate {
    pub fn new(client: CasClient, url_to_403: Option<String>, url_to_404: Option<String>) -> (r:
        AuthGate)
        ensures
            r.client == client,
            r.url_to_403 == url_to_403,
            r.url_to_404 == url_to_404,
    {
        AuthGate { client, url_to_403, url_to_404 }
    }

    /// The application's public URL, as configured on the client.
    pub fn app_url(&self) -> (r: String)
        ensures
            r@ == self.client@.app_url,
    {
        self.client.app_url().to_owned()
    }

    /// The CAS login URL for this configuration.
    pub fn login_url(&self) -> (r: Option<String>)
        ensures
            r is Some <==> login_url_of(self.client@) is Some,
            r matches Some(u) ==> login_url_of(self.client@) == Some(u@),
    {
        self.client.login_url()
    }

    /// The CAS logout URL for this configuration.
    pub fn logout_url(&self) -> (r: Option<String>)
        ensures
            r is Some <==> logout_url_of(self.client@) is Some,
            r matches Some(u) ==> logout_url_of(self.client@) == Some(u@),
    {
        self.client.logout_url()
    }

    /// Configures where a completed login lands when no return path
    /// was saved.
    pub fn set_default_after_logged_in_path(&mut self, path: Option<String>)
        ensures
            final(self).client@ == (ClientView {
                default_after_login: match path {
                    Some(p) => Some(p@),
                    None => None,
                },
                ..old(self).client@
            }),
            final(self).url_to_403 == old(self).url_to_403,
            final(self).url_to_404 == old(self).url_to_404,
            old(self).client.wf() ==> final(self).client.wf(),
    {
        self.client.set_default_after_logged_in_path(path);
    }

    /// Where a completed login lands when no return path was saved: the
    /// configured default path, else the application URL.
    pub fn login_landing(&self) -> (r: String)
        ensures
            r@ == match self.client@.default_after_login {
                Some(d) => d,
                None => self.client@.app_url,
            },
    {
        match self.client.default_after_logged_in_path() {
            Some(p) => p.clone(),
            None => self.client.app_url().to_owned(),
        }
    }

    /// A 403 / 404 policy's answer for a session without identity.
    fn error_response(&self, status: u16, landing: &Option<String>) -> (r: GateResponse)
        ensures
            is_error_response(
                status,
                match landing {
                    Some(u) => Some(u@),
                    None => None,
                },
                r,
            ),
    {
        match landing {
            Some(u) => GateResponse::Redirect(u.clone()),
            None => GateResponse::Status(status),
        }
    }

    /// The answer for a request that must first log in.
    fn login_redirect(&self) -> (r: GateResponse)
        ensures
            is_login_redirect(self.client@, r),
    {
        match self.client.login_url() {
            Some(u) => GateResponse::Redirect(u),
            None => GateResponse::Status(500),
        }
    }

    /// The session with the request's URL saved as the post-login
    /// return path, unless one is already pending (first-pending-wins).
    fn note_return_path(&self, session: SessionSnapshot, url: &String) -> (r: SessionSnapshot)
        ensures
            noted_return_path(session, r, url@),
    {
        let SessionSnapshot { identity, pending_redirect } = session;
        match pending_redirect {
            Some(p) => SessionSnapshot { identity, pending_redirect: Some(p) },
            None => SessionSnapshot { identity, pending_redirect: Some(url.clone()) },
        }
    }

    /// The login round-trip for a request without a usable identity.
    fn authentication_flow(&self, session: SessionSnapshot, request: &RequestFacts) -> (r: (
        SessionSnapshot,
        GateDecision,
    ))
        ensures
            authentication_flow_post(*self, session, *request, r),
    {
        let s2 = self.note_return_path(session, &request.url);
        match &request.ticket {
            Some(t) => (s2, GateDecision::ValidateTicket(t.clone())),
            None => {
                let resp = self.login_redirect();
                (s2, GateDecision::Respond(resp))
            },
        }
    }

    /// The decision table. Given the configured policy, the session and
    /// the request, yields the updated session and the decision: pass
    /// through, respond, or validate the request's ticket.
    pub fn decide(&self, session: SessionSnapshot, request: &RequestFacts) -> (r: (
        SessionSnapshot,
        GateDecision,
    ))
        ensures
            decision_post(*self, session, *request, r),
    {
        match self.client.no_auth_behavior() {
            NoAuthBehavior::AuthenticatedOr403 => {
                match &session.identity {
                    Some(_) => (session, GateDecision::PassThrough),
                    None => {
                        let resp = self.error_response(403, &self.url_to_403);
                        (session, GateDecision::Respond(resp))
                    },
                }
            },
            NoAuthBehavior::AuthenticatedOr404 => {
                match &session.identity {
                    Some(_) => (session, GateDecision::PassThrough),
                    None => {
                        let resp = self.error_response(404, &self.url_to_404);
                        (session, GateDecision::Respond(resp))
                    },
                }
            },
            NoAuthBehavior::Authenticate => {
                match &session.identity {
                    Some(_) => (session, GateDecision::PassThrough),
                    None => self.authentication_flow(session, request),
                }
            },
            NoAuthBehavior::ForceAuthentication => self.authentication_flow(session, request),
        }
    }

    /// What to do once ticket validation has an outcome. On success the
    /// identity is stored, the pending redirect consumed, and the user
    /// sent to it (else to the configured default, else passed through).
    /// On failure — a network error, an undecodable body, or a response
    /// without a username — no identity is stored and the answer is the
    /// login redirect: never a pass-through.
    pub fn resolve_validation(&self, outcome: Option<CasUser>, session: SessionSnapshot) -> (r: (
        SessionSnapshot,
        Option<GateResponse>,
    ))
        ensures
            match outcome {
                Some(user) => {
                    &&& r.0.identity == Some(user)
                    &&& r.0.pending_redirect is None
                    &&& match session.pending_redirect {
                        Some(p) => r.1 matches Some(GateResponse::Redirect(l)) && l@ == p@,
                        None => match self.client@.default_after_login {
                            Some(d) => r.1 matches Some(GateResponse::Redirect(l)) && l@ == d,
                            None => r.1 is None,
                        },
                    }
                },
                None => {
                    &&& r.0.identity == session.identity
                    &&& r.0.pending_redirect == session.pending_redirect
                    &&& r.1 matches Some(resp) && is_login_redirect(self.client@, resp)
                },
            },
    {
        match outcome {
            Some(user) => {
                let SessionSnapshot { identity: _, pending_redirect } = session;
                let response = match pending_redirect {
                    Some(p) => Some(GateResponse::Redirect(p)),
                    None => {
                        match self.client.default_after_logged_in_path() {
                            Some(d) => Some(GateResponse::Redirect(d.clone())),
                            None => None,
                        }
                    },
                };
                (SessionSnapshot { identity: Some(user), pending_redirect: None }, response)
            },
            None => {
                let resp = self.login_redirect();
                (session, Some(resp))
            },
        }
    }

    /// Logout's answer: a redirect to the CAS logout URL when it is
    /// constructible, else the configured not-found landing path, else a
    /// bare 404. The caller clears the session alongside.
    pub fn logout_resolution(&self) -> (r: GateResponse)
        ensures
            match logout_url_of(self.client@) {
                Some(u) => r matches GateResponse::Redirect(l) && l@ == u,
                None => is_error_response(
                    404u16,
                    match self.url_to_404 {
                        Some(u) => Some(u@),
                        None => None,
                    },
                    r,
                ),
            },
    {
        match self.client.logout_url() {
            Some(u) => GateResponse::Redirect(u),
            None => self.error_response(404, &self.url_to_404),
        }
    }
}

} // verus!
