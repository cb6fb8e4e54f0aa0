//! Client-side support for the CAS (Central Authentication Service)
//! single-sign-on protocol: configuration and endpoint-URL construction,
//! validation-response parsing, a lossless session encoding for the
//! authenticated user, and the request-gating decision logic.

pub mod client;
pub mod codec;
pub mod gate;
pub mod query;
pub mod strutil;
pub mod urls;
pub mod user;
pub mod xml;

pub use client::{CasClient, CasError, CasProtocol, NoAuthBehavior};
pub use query::ticket_for_query_string;
pub use gate::{AuthGate, GateDecision, GateResponse, RequestFacts, SessionSnapshot};
pub use user::{Attributes, CasUser};
