//! The CAS client configuration: the CAS server's base URL, the path
//! prefixes of its login / logout / serviceValidate endpoints, this
//! application's own URL and login-service sub-path, the gating policy,
//! and the default post-login landing path.
//!
//! All setters are validating: an empty prefix or an unparseable URL is
//! rejected and the prior value retained, so a constructed client stays
//! well formed for its whole life.

use vstd::prelude::*;

use crate::strutil::{
    normalize_segment, normalize_segment_spec, strip_leading_slashes, strip_trailing,
    strip_trailing_slashes, with_trailing_slash, with_trailing_slash_spec,
};
use crate::urls::{parse_url, url_normalized};

verus! {

/// CAS protocol revision. Reserved: it does not alter behaviour yet.
#[derive(Clone, Copy, Debug, PartialEq, Eq, Structural)]
pub enum CasProtocol {
    V2,
    V3,
}

/// What a gated route does when no authenticated identity is present.
///
/// - `AuthenticatedOr403`: respond 403 (or a configured landing path).
/// - `AuthenticatedOr404`: respond 404 (or a configured landing path).
/// - `Authenticate`: run the CAS login round-trip.
/// - `ForceAuthentication`: run it on every request, identity or not.
#[derive(Clone, Copy, Debug, PartialEq, Eq, Structural)]
pub enum NoAuthBehavior {
    AuthenticatedOr403,
    AuthenticatedOr404,
    Authenticate,
    ForceAuthentication,
}

/// The library's error taxonomy. `Configuration` arises at construction
/// from an invalid base URL; `Network` and `Protocol` classify a failed
/// ticket-validation fetch for the caller that performs it.
#[derive(Clone, Copy, Debug, PartialEq, Eq, Structural)]
pub enum CasError {
    Configuration,
    Network,
    Protocol,
}

/// The mathematical value of a [`CasClient`].
pub ghost struct ClientView {
    pub base_url: Seq<char>,
    pub login_prefix: Seq<char>,
    pub logout_prefix: Seq<char>,
    pub service_validate_prefix: Seq<char>,
    pub login_service: Seq<char>,
    pub app_url: Seq<char>,
    pub no_auth_behavior: NoAuthBehavior,
    pub cas_protocol: CasProtocol,
    pub default_after_login: Option<Seq<char>>,
}

/// True when `s` has no leading and no trailing `/`.
pub open spec fn segment_normalized(s: Seq<char>) -> bool {
    s == normalize_segment_spec(s)
}

/// Immutable-after-construction CAS configuration, shared read-only
/// across requests.
#[derive(Clone, Debug, PartialEq, Eq)]
pub struct CasClient {
    cas_base_url: String,
    login_prefix: String,
    logout_prefix: String,
    service_validate_prefix: String,
    login_service: String,
    app_url: String,
    no_auth_behavior: NoAuthBehavior,
    cas_protocol: CasProtocol,
    default_after_logged_in_path: Option<String>,
}

impl View for CasClient {
    type V = ClientView;

    closed spec fn view(&self) -> ClientView {
        ClientView {
            base_url: self.cas_base_url@,
            login_prefix: self.login_prefix@,
            logout_prefix: self.logout_prefix@,
            service_validate_prefix: self.service_validate_prefix@,
            login_service: self.login_service@,
            app_url: self.app_url@,
            no_auth_behavior: self.no_auth_behavior,
            cas_protocol: self.cas_protocol,
            default_after_login: match self.default_after_logged_in_path {
                Some(ref p) => Some(p@),
                None => None,
            },
        }
    }
}

impl CasClient {
    /// Prefixes carry no edge slashes and the application URL no
    /// trailing slash; the constructor establishes this and every
    /// setter preserves it.
    pub open spec fn wf(&self) -> bool {
        &&& segment_normalized(self@.login_prefix)
        &&& segment_normalized(self@.logout_prefix)
        &&& segment_normalized(self@.service_validate_prefix)
        &&& segment_normalized(self@.login_service)
        &&& self@.app_url == strip_trailing_slashes(self@.app_url)
    }

    /// A client for the CAS server at `cas_base_url` (a trailing `/` is
    /// supplied if missing), with the conventional `login`, `logout` and
    /// `serviceValidate` prefixes, the `auth/cas` login-service sub-path,
    /// an empty application URL, and the `Authenticate` policy.
    pub fn new(cas_base_url: &str) -> (r: Result<CasClient, CasError>)
        ensures
            match r {
                Ok(c) => {
                    &&& url_normalized(with_trailing_slash_spec(cas_base_url@)) == Some(
                        c@.base_url,
                    )
                    &&& c@.login_prefix == "login"@
                    &&& c@.logout_prefix == "logout"@
                    &&& c@.service_validate_prefix == "serviceValidate"@
                    &&& c@.login_service == "auth/cas"@
                    &&& c@.app_url == Seq::<char>::empty()
                    &&& c@.no_auth_behavior == NoAuthBehavior::Authenticate
                    &&& c@.cas_protocol == CasProtocol::V3
                    &&& c@.default_after_login is None
                    &&& c.wf()
                },
                Err(e) => {
                    &&& url_normalized(with_trailing_slash_spec(cas_base_url@)) is None
                    &&& e == CasError::Configuration
                },
            },
    {
        let with_slash = with_trailing_slash(cas_base_url);
        match parse_url(with_slash.as_str()) {
            Some(normalized) => {
                let c = CasClient {
                    cas_base_url: normalized,
                    login_prefix: "login".to_owned(),
                    logout_prefix: "logout".to_owned(),
                    service_validate_prefix: "serviceValidate".to_owned(),
                    login_service: "auth/cas".to_owned(),
                    app_url: String::new(),
                    no_auth_behavior: NoAuthBehavior::Authenticate,
                    cas_protocol: CasProtocol::V3,
                    default_after_logged_in_path: None,
                };
                proof {
                    lemma_literal_segments_normalized();
                }
                Ok(c)
            },
            None => Err(CasError::Configuration),
        }
    }

    // -----------------------------------------------------------------
    // Getters
    // -----------------------------------------------------------------
    pub fn cas_base_url(&self) -> (r: &String)
        ensures
            r@ == self@.base_url,
    {
        &self.cas_base_url
    }

    pub fn login_prefix(&self) -> (r: &String)
        ensures
            r@ == self@.login_prefix,
    {
        &self.login_prefix
    }

    pub fn logout_prefix(&self) -> (r: &String)
        ensures
            r@ == self@.logout_prefix,
    {
        &self.logout_prefix
    }

    pub fn service_validate_prefix(&self) -> (r: &String)
        ensures
            r@ == self@.service_validate_prefix,
    {
        &self.service_validate_prefix
    }

    pub fn login_service(&self) -> (r: &String)
        ensures
            r@ == self@.login_service,
    {
        &self.login_service
    }

    pub fn app_url(&self) -> (r: &str)
        ensures
            r@ == self@.app_url,
    {
        self.app_url.as_str()
    }

    pub fn no_auth_behavior(&self) -> (r: &NoAuthBehavior)
        ensures
            r == self@.no_auth_behavior,
    {
        &self.no_auth_behavior
    }

    pub fn cas_protocol(&self) -> (r: &CasProtocol)
        ensures
            r == self@.cas_protocol,
    {
        &self.cas_protocol
    }

    pub fn default_after_logged_in_path(&self) -> (r: &Option<String>)
        ensures
            match r {
                Some(p) => self@.default_after_login == Some(p@),
                None => self@.default_after_login is None,
            },
    {
        &self.default_after_logged_in_path
    }

    // -----------------------------------------------------------------
    // Setters: validate, and retain the prior value on rejection
    // -----------------------------------------------------------------
    /// An empty prefix is rejected; otherwise the value is stored with
    /// leading and trailing slashes stripped.
    pub fn set_login_prefix(&mut self, login_prefix: &str)
        ensures
            final(self)@ == if login_prefix@.len() == 0 {
                old(self)@
            } else {
                ClientView { login_prefix: normalize_segment_spec(login_prefix@), ..old(self)@ }
            },
            old(self).wf() ==> final(self).wf(),
    {
        if !login_prefix.is_empty() {
            self.login_prefix = normalize_segment(login_prefix);
            proof {
                lemma_normalize_segment_idempotent(login_prefix@);
            }
        }
    }

    /// An empty prefix is rejected; otherwise the value is stored with
    /// leading and trailing slashes stripped.
    pub fn set_logout_prefix(&mut self, logout_prefix: &str)
        ensures
            final(self)@ == if logout_prefix@.len() == 0 {
                old(self)@
            } else {
                ClientView { logout_prefix: normalize_segment_spec(logout_prefix@), ..old(self)@ }
            },
            old(self).wf() ==> final(self).wf(),
    {
        if !logout_prefix.is_empty() {
            self.logout_prefix = normalize_segment(logout_prefix);
            proof {
                lemma_normalize_segment_idempotent(logout_prefix@);
            }
        }
    }

    /// An empty prefix is rejected; otherwise the value is stored with
    /// leading and trailing slashes stripped.
    pub fn set_service_validate_prefix(&mut self, service_validate_prefix: &str)
        ensures
            final(self)@ == if service_validate_prefix@.len() == 0 {
                old(self)@
            } else {
                ClientView {
                    service_validate_prefix: normalize_segment_spec(service_validate_prefix@),
                    ..old(self)@
                }
            },
            old(self).wf() ==> final(self).wf(),
    {
        if !service_validate_prefix.is_empty() {
            self.service_validate_prefix = normalize_segment(service_validate_prefix);
            proof {
                lemma_normalize_segment_idempotent(service_validate_prefix@);
            }
        }
    }

    /// An empty sub-path is rejected; otherwise the value is stored with
    /// leading and trailing slashes stripped.
    pub fn set_login_service(&mut self, login_service: &str)
        ensures
            final(self)@ == if login_service@.len() == 0 {
                old(self)@
            } else {
                ClientView { login_service: normalize_segment_spec(login_service@), ..old(self)@ }
            },
            old(self).wf() ==> final(self).wf(),
    {
        if !login_service.is_empty() {
            self.login_service = normalize_segment(login_service);
            proof {
                lemma_normalize_segment_idempotent(login_service@);
            }
        }
    }

    /// An application URL that does not parse as an absolute URL is
    /// rejected; otherwise it is stored with trailing slashes stripped.
    pub fn set_app_url(&mut self, app_url: &str)
        ensures
            final(self)@ == if url_normalized(app_url@) is Some {
                ClientView { app_url: strip_trailing_slashes(app_url@), ..old(self)@ }
            } else {
                old(self)@
            },
            old(self).wf() ==> final(self).wf(),
    {
        match parse_url(app_url) {
            Some(_) => {
                self.app_url = strip_trailing(app_url);
                proof {
                    lemma_strip_trailing_idempotent(app_url@);
                }
            },
            None => {},
        }
    }

    pub fn set_no_auth_behavior(&mut self, no_auth_behavior: NoAuthBehavior)
        ensures
            final(self)@ == (ClientView { no_auth_behavior, ..old(self)@ }),
            old(self).wf() ==> final(self).wf(),
    {
        self.no_auth_behavior = no_auth_behavior;
    }

    pub fn set_cas_protocol(&mut self, cas_protocol: CasProtocol)
        ensures
            final(self)@ == (ClientView { cas_protocol, ..old(self)@ }),
            old(self).wf() ==> final(self).wf(),
    {
        self.cas_protocol = cas_protocol;
    }

    pub fn set_default_after_logged_in_path(&mut self, path: Option<String>)
        ensures
            final(self)@ == (ClientView {
                default_after_login: match path {
                    Some(p) => Some(p@),
                    None => None,
                },
                ..old(self)@
            }),
            old(self).wf() ==> final(self).wf(),
    {
        self.default_after_logged_in_path = path;
    }
}

// ---------------------------------------------------------------------------
// Normalization facts used by the setters
// ---------------------------------------------------------------------------

proof fn lemma_strip_leading_no_leading(s: Seq<char>)
    ensures
        strip_leading_slashes(s).len() > 0 ==> strip_leading_slashes(s)[0] != '/',
        strip_leading_slashes(s).len() <= s.len(),
    decreases s.len(),
{
    if s.len() > 0 && s[0] == '/' {
        lemma_strip_leading_no_leading(s.drop_first());
    }
}

proof fn lemma_strip_trailing_no_trailing(s: Seq<char>)
    ensures
        strip_trailing_slashes(s).len() > 0 ==> strip_trailing_slashes(s)[strip_trailing_slashes(
            s,
        ).len() - 1] != '/',
        strip_trailing_slashes(s).len() <= s.len(),
    decreases s.len(),
{
    if s.len() > 0 && s[s.len() - 1] == '/' {
        lemma_strip_trailing_no_trailing(s.drop_last());
    }
}

proof fn lemma_strip_trailing_keeps_first(s: Seq<char>)
    ensures
        strip_trailing_slashes(s).len() > 0 ==> strip_trailing_slashes(s)[0] == s[0],
    decreases s.len(),
{
    if s.len() > 0 && s[s.len() - 1] == '/' {
        lemma_strip_trailing_keeps_first(s.drop_last());
    }
}

proof fn lemma_strip_trailing_idempotent(s: Seq<char>)
    ensures
        strip_trailing_slashes(strip_trailing_slashes(s)) == strip_trailing_slashes(s),
{
    lemma_strip_trailing_no_trailing(s);
}

/// A normalized segment normalizes to itself.
proof fn lemma_normalize_segment_idempotent(s: Seq<char>)
    ensures
        segment_normalized(normalize_segment_spec(s)),
{
    let a = strip_leading_slashes(s);
    let b = strip_trailing_slashes(a);
    lemma_strip_leading_no_leading(s);
    lemma_strip_trailing_no_trailing(a);
    lemma_strip_trailing_keeps_first(a);
    if b.len() > 0 {
        assert(b[0] == a[0]);
        assert(b[0] != '/');
    }
    assert(strip_leading_slashes(b) == b);
    lemma_strip_trailing_idempotent(a);
}

/// The literal defaults carry no edge slashes.
proof fn lemma_literal_segments_normalized()
    ensures
        segment_normalized("login"@),
        segment_normalized("logout"@),
        segment_normalized("serviceValidate"@),
        segment_normalized("auth/cas"@),
        strip_trailing_slashes(Seq::<char>::empty()) == Seq::<char>::empty(),
{
    reveal_strlit("login");
    reveal_strlit("logout");
    reveal_strlit("serviceValidate");
    reveal_strlit("auth/cas");
}

} // verus!
