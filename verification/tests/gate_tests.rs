use cas_client::{
    AuthGate, CasClient, CasUser, GateDecision, GateResponse, NoAuthBehavior, RequestFacts,
    SessionSnapshot,
};

fn gate_with(behavior: NoAuthBehavior) -> AuthGate {
    let mut client = CasClient::new("https://cas.example.org").unwrap();
    client.set_app_url("https://service.example.org");
    client.set_no_auth_behavior(behavior);
    AuthGate::new(client, None, None)
}

fn empty_session() -> SessionSnapshot {
    SessionSnapshot { identity: None, pending_redirect: None }
}

const LOGIN_URL: &str =
    "https://cas.example.org/login?service=https%3A%2F%2Fservice.example.org%2Fauth%2Fcas";

// Authenticate policy, no identity, no ticket: redirect to the login
// URL, and the session's pending redirect is the requesting URL.
#[test]
fn authenticate_without_identity_or_ticket_redirects_to_login() {
    let gate = gate_with(NoAuthBehavior::Authenticate);
    let request = RequestFacts {
        url: String::from("https://service.example.org/reports?q=1"),
        ticket: None,
    };
    let (session, decision) = gate.decide(empty_session(), &request);
    assert_eq!(
        decision,
        GateDecision::Respond(GateResponse::Redirect(String::from(LOGIN_URL)))
    );
    assert_eq!(
        session.pending_redirect,
        Some(String::from("https://service.example.org/reports?q=1"))
    );
    assert!(session.identity.is_none());
}

// Authenticate policy with an identity present: pass through.
#[test]
fn authenticate_with_identity_passes_through() {
    let gate = gate_with(NoAuthBehavior::Authenticate);
    let request = RequestFacts {
        url: String::from("https://service.example.org/reports"),
        ticket: None,
    };
    let session = SessionSnapshot {
        identity: Some(CasUser::new("alice", None)),
        pending_redirect: None,
    };
    let (session, decision) = gate.decide(session, &request);
    assert_eq!(decision, GateDecision::PassThrough);
    assert_eq!(session.identity, Some(CasUser::new("alice", None)));
}

// Authenticate policy, no identity, a ticket present: the decision is
// to validate that ticket.
#[test]
fn authenticate_with_ticket_validates_it() {
    let gate = gate_with(NoAuthBehavior::Authenticate);
    let request = RequestFacts {
        url: String::from("https://service.example.org/auth/cas?ticket=ST-123"),
        ticket: Some(String::from("ST-123")),
    };
    let (_, decision) = gate.decide(empty_session(), &request);
    assert_eq!(decision, GateDecision::ValidateTicket(String::from("ST-123")));
}

// ForceAuthentication validates the ticket even when an identity is
// already present.
#[test]
fn force_authentication_ignores_identity() {
    let gate = gate_with(NoAuthBehavior::ForceAuthentication);
    let request = RequestFacts {
        url: String::from("https://service.example.org/x"),
        ticket: Some(String::from("ST-9")),
    };
    let session = SessionSnapshot {
        identity: Some(CasUser::new("alice", None)),
        pending_redirect: None,
    };
    let (_, decision) = gate.decide(session, &request);
    assert_eq!(decision, GateDecision::ValidateTicket(String::from("ST-9")));
}

// Successful validation with a pending redirect: the identity is
// stored, the pending redirect consumed, and the answer is a redirect
// to it.
#[test]
fn successful_validation_consumes_pending_redirect() {
    let gate = gate_with(NoAuthBehavior::Authenticate);
    let session = SessionSnapshot {
        identity: None,
        pending_redirect: Some(String::from("/dashboard")),
    };
    let user = CasUser::new("alice", None);
    let (session, response) = gate.resolve_validation(Some(user), session);
    assert_eq!(
        response,
        Some(GateResponse::Redirect(String::from("/dashboard")))
    );
    assert_eq!(session.identity, Some(CasUser::new("alice", None)));
    assert!(session.pending_redirect.is_none());
}

// Without a pending redirect the configured default is used; without
// either, the request passes through.
#[test]
fn successful_validation_falls_back_to_default_path() {
    let mut client = CasClient::new("https://cas.example.org").unwrap();
    client.set_app_url("https://service.example.org");
    client.set_default_after_logged_in_path(Some(String::from("/home")));
    let gate = AuthGate::new(client, None, None);
    let (session, response) =
        gate.resolve_validation(Some(CasUser::new("alice", None)), empty_session());
    assert_eq!(response, Some(GateResponse::Redirect(String::from("/home"))));
    assert!(session.identity.is_some());

    let gate = gate_with(NoAuthBehavior::Authenticate);
    let (session, response) =
        gate.resolve_validation(Some(CasUser::new("alice", None)), empty_session());
    assert_eq!(response, None);
    assert!(session.identity.is_some());
    assert!(session.pending_redirect.is_none());
}

// A failed validation — network failure, undecodable body, or a
// response without a username — never passes through: it answers with
// the login redirect and stores no identity.
#[test]
fn failed_validation_never_passes_through() {
    let gate = gate_with(NoAuthBehavior::Authenticate);
    let session = SessionSnapshot {
        identity: None,
        pending_redirect: Some(String::from("/dashboard")),
    };
    let (session, response) = gate.resolve_validation(None, session);
    assert_eq!(
        response,
        Some(GateResponse::Redirect(String::from(LOGIN_URL)))
    );
    assert!(session.identity.is_none());
    // The pending redirect survives for the retried login.
    assert_eq!(session.pending_redirect, Some(String::from("/dashboard")));
}

// AuthenticatedOr403 without identity answers 403 and never asks for
// ticket validation, even when a ticket is present.
#[test]
fn authenticated_or_403_responds_403_without_validating() {
    let gate = gate_with(NoAuthBehavior::AuthenticatedOr403);
    let request = RequestFacts {
        url: String::from("https://service.example.org/admin"),
        ticket: Some(String::from("ST-123")),
    };
    let (_, decision) = gate.decide(empty_session(), &request);
    assert_eq!(decision, GateDecision::Respond(GateResponse::Status(403)));
}

#[test]
fn authenticated_or_403_with_identity_passes_through() {
    let gate = gate_with(NoAuthBehavior::AuthenticatedOr403);
    let request = RequestFacts {
        url: String::from("https://service.example.org/admin"),
        ticket: None,
    };
    let session = SessionSnapshot {
        identity: Some(CasUser::new("alice", None)),
        pending_redirect: None,
    };
    let (_, decision) = gate.decide(session, &request);
    assert_eq!(decision, GateDecision::PassThrough);
}

// A configured 403 landing path turns the bare status into a redirect.
#[test]
fn configured_403_landing_path_redirects() {
    let mut client = CasClient::new("https://cas.example.org").unwrap();
    client.set_no_auth_behavior(NoAuthBehavior::AuthenticatedOr403);
    let gate = AuthGate::new(client, Some(String::from("/denied")), None);
    let request = RequestFacts {
        url: String::from("https://service.example.org/admin"),
        ticket: None,
    };
    let (_, decision) = gate.decide(empty_session(), &request);
    assert_eq!(
        decision,
        GateDecision::Respond(GateResponse::Redirect(String::from("/denied")))
    );
}

#[test]
fn authenticated_or_404_responds_404() {
    let gate = gate_with(NoAuthBehavior::AuthenticatedOr404);
    let request = RequestFacts {
        url: String::from("https://service.example.org/hidden"),
        ticket: None,
    };
    let (_, decision) = gate.decide(empty_session(), &request);
    assert_eq!(decision, GateDecision::Respond(GateResponse::Status(404)));
}

// The pending redirect is set at most once until consumed: a second
// unauthenticated hit does not overwrite it.
#[test]
fn first_pending_redirect_wins() {
    let gate = gate_with(NoAuthBehavior::Authenticate);
    let first = RequestFacts {
        url: String::from("https://service.example.org/first"),
        ticket: None,
    };
    let second = RequestFacts {
        url: String::from("https://service.example.org/second"),
        ticket: None,
    };
    let (session, _) = gate.decide(empty_session(), &first);
    let (session, _) = gate.decide(session, &second);
    assert_eq!(
        session.pending_redirect,
        Some(String::from("https://service.example.org/first"))
    );
}

// Logout redirects to the CAS logout URL; the caller clears the session.
#[test]
fn logout_redirects_to_cas() {
    let gate = gate_with(NoAuthBehavior::Authenticate);
    assert_eq!(
        gate.logout_resolution(),
        GateResponse::Redirect(String::from(
            "https://cas.example.org/logout?service=https%3A%2F%2Fservice.example.org"
        ))
    );
}

// The login landing is the configured default path, else the
// application URL.
#[test]
fn login_landing_prefers_configured_default() {
    let mut client = CasClient::new("https://cas.example.org").unwrap();
    client.set_app_url("https://service.example.org");
    let gate = AuthGate::new(client, None, None);
    assert_eq!(gate.login_landing(), "https://service.example.org");

    let mut client = CasClient::new("https://cas.example.org").unwrap();
    client.set_app_url("https://service.example.org");
    client.set_default_after_logged_in_path(Some(String::from("/home")));
    let gate = AuthGate::new(client, None, None);
    assert_eq!(gate.login_landing(), "/home");
}

// The URL accessors on AuthGate forward the client's.
#[test]
fn gate_url_accessors() {
    let gate = gate_with(NoAuthBehavior::Authenticate);
    assert_eq!(gate.app_url(), "https://service.example.org");
    assert_eq!(gate.login_url(), Some(String::from(LOGIN_URL)));
    assert!(gate.logout_url().is_some());
}
