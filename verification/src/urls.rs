//! CAS endpoint URLs. Each endpoint URL is the server's base URL, the
//! endpoint's path prefix, and a query carrying the `service` parameter
//! (and, for serviceValidate, the ticket). The `service` value handed to
//! the login endpoint and the one handed to the serviceValidate endpoint
//! are byte-identical — the CAS server rejects the ticket otherwise; see
//! [`lemma_service_parameter_agreement`].

use vstd::prelude::*;

use crate::client::{CasClient, ClientView};

verus! {

/// What `url::Url::parse` makes of `s`: `None` when it fails, otherwise
/// the parsed URL's serialization. A function of `s` alone.
pub uninterp spec fn url_normalized(s: Seq<char>) -> Option<Seq<char>>;

/// Relies on `url::Url::parse` and `url::Url::to_string`: deterministic
/// in the input, `None` exactly on a parse error.
#[verifier::external_body]
pub fn parse_url(s: &str) -> (r: Option<String>)
    ensures
        r is Some <==> url_normalized(s@) is Some,
        r matches Some(u) ==> url_normalized(s@) == Some(u@),
{
    match url::Url::parse(s) {
        Ok(u) => Some(u.to_string()),
        Err(_) => None,
    }
}

/// What `url::Url::parse_with_params` makes of a base and query pairs:
/// `None` when the base does not parse, otherwise the serialization of
/// the URL with the pairs appended form-urlencoded to its query. A
/// function of the inputs alone.
pub uninterp spec fn url_with_query(base: Seq<char>, params: Seq<(Seq<char>, Seq<char>)>) -> Option<
    Seq<char>,
>;

/// Relies on `url::Url::parse_with_params` and `url::Url::to_string`:
/// deterministic in the inputs, `None` exactly on a parse error.
#[verifier::external_body]
fn build_url_with_params(base: &str, params: &Vec<(String, String)>) -> (r: Option<String>)
    ensures
        r is Some <==> url_with_query(base@, params.deep_view()) is Some,
        r matches Some(u) ==> url_with_query(base@, params.deep_view()) == Some(u@),
{
    match url::Url::parse_with_params(base, params.iter().map(|p| (p.0.as_str(), p.1.as_str()))) {
        Ok(u) => Some(u.to_string()),
        Err(_) => None,
    }
}

/// The exact `service` value this configuration registers with the CAS
/// server: the application URL with the login-service sub-path appended,
/// or the application URL alone when no sub-path is configured. Never
/// the URL of the request being gated.
pub open spec fn service_of(c: ClientView) -> Seq<char> {
    if c.login_service.len() == 0 {
        c.app_url
    } else {
        c.app_url + seq!['/'] + c.login_service
    }
}

/// The query pairs of the login (and logout) endpoint URL.
pub open spec fn login_params_of(c: ClientView) -> Seq<(Seq<char>, Seq<char>)> {
    seq![("service"@, service_of(c))]
}

/// The query pairs of the serviceValidate endpoint URL.
pub open spec fn validate_params_of(c: ClientView, ticket: Seq<char>) -> Seq<
    (Seq<char>, Seq<char>),
> {
    seq![("service"@, service_of(c)), ("ticket"@, ticket)]
}

pub open spec fn login_url_of(c: ClientView) -> Option<Seq<char>> {
    url_with_query(c.base_url + c.login_prefix, login_params_of(c))
}

pub open spec fn logout_url_of(c: ClientView) -> Option<Seq<char>> {
    url_with_query(c.base_url + c.logout_prefix, seq![("service"@, c.app_url)])
}

pub open spec fn service_validate_url_of(c: ClientView, ticket: Seq<char>) -> Option<Seq<char>> {
    url_with_query(c.base_url + c.service_validate_prefix, validate_params_of(c, ticket))
}

/// Law: for every configuration and ticket, the `service` parameter sent
/// to the login endpoint and the one sent to the serviceValidate
/// endpoint are the same value.
pub proof fn lemma_service_parameter_agreement(c: ClientView, ticket: Seq<char>)
    ensures
        login_params_of(c)[0].1 == validate_params_of(c, ticket)[0].1,
        login_params_of(c)[0].0 == validate_params_of(c, ticket)[0].0,
{
}

impl CasClient {
    /// The `service` query value, built from the configuration alone.
    fn service_value(&self) -> (r: String)
        ensures
            r@ == service_of(self@),
    {
        if self.login_service().as_str().is_empty() {
            let r = self.app_url().to_owned();
            r
        } else {
            let mut r = self.app_url().to_owned();
            r.append("/");
            r.append(self.login_service().as_str());
            proof {
                reveal_strlit("/");
                assert(r@ =~= service_of(self@));
            }
            r
        }
    }

    /// The CAS login URL, carrying this configuration's `service` value.
    pub fn login_url(&self) -> (r: Option<String>)
        ensures
            r is Some <==> login_url_of(self@) is Some,
            r matches Some(u) ==> login_url_of(self@) == Some(u@),
    {
        let mut base = self.cas_base_url().clone();
        base.append(self.login_prefix().as_str());
        let mut params: Vec<(String, String)> = Vec::new();
        params.push(("service".to_owned(), self.service_value()));
        proof {
            assert(params.deep_view() =~= login_params_of(self@));
        }
        build_url_with_params(base.as_str(), &params)
    }

    /// The CAS logout URL; its `service` value is the application URL
    /// alone.
    pub fn logout_url(&self) -> (r: Option<String>)
        ensures
            r is Some <==> logout_url_of(self@) is Some,
            r matches Some(u) ==> logout_url_of(self@) == Some(u@),
    {
        let mut base = self.cas_base_url().clone();
        base.append(self.logout_prefix().as_str());
        let mut params: Vec<(String, String)> = Vec::new();
        params.push(("service".to_owned(), self.app_url().to_owned()));
        proof {
            assert(params.deep_view() =~= seq![("service"@, self@.app_url)]);
        }
        build_url_with_params(base.as_str(), &params)
    }

    /// The CAS serviceValidate URL for `ticket`; its `service` value is
    /// identical to the login URL's.
    pub fn service_validate_url(&self, ticket: &str) -> (r: Option<String>)
        ensures
            r is Some <==> service_validate_url_of(self@, ticket@) is Some,
            r matches Some(u) ==> service_validate_url_of(self@, ticket@) == Some(u@),
    {
        let mut base = self.cas_base_url().clone();
        base.append(self.service_validate_prefix().as_str());
        let mut params: Vec<(String, String)> = Vec::new();
        params.push(("service".to_owned(), self.service_value()));
        params.push(("ticket".to_owned(), ticket.to_owned()));
        proof {
            assert(params.deep_view() =~= validate_params_of(self@, ticket@));
        }
        build_url_with_params(base.as_str(), &params)
    }
}

} // verus!
