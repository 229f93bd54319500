//! A programmable HTTP test double: expectations are registered with the
//! server, incoming requests are matched against them in registration order,
//! and every request is kept in a bounded history for later verification.
pub mod builder;
pub mod conditional;
pub mod expectation;
pub mod ids;
pub mod json;
pub mod matching;
pub mod params;
pub mod pattern;
pub mod query;
pub mod record;
pub mod response;
pub mod server;
pub mod text;
pub mod verification;

pub use builder::{ExpectationBuilder, ResponseBuilder};
pub use conditional::ConditionalResponse;
pub use expectation::{CreateExpectationRequest, MockExpectation};
pub use params::StringMap;
pub use query::extract_query_params;
pub use record::RequestRecord;
pub use response::{ConcreteResponse, MockResponse, ResourceReadError};
pub use server::{DispatchOutcome, MockServer};
pub use verification::{VerifyRequest, VerifyResponse};
