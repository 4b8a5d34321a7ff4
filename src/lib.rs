//! A typed client library for an issue-tracking REST service: credentials and
//! headers, validated issue keys and work durations, the entity model of the
//! service's two deployment variants, and the rules that turn an operation into
//! a request and a response into a result.
pub mod grammar;
pub mod outside;
pub mod client;
pub mod models;
pub mod cloud;

pub use client::Cloud;
pub use client::Credential;
pub use client::Header;
pub use client::Hosted;
pub use client::JiraAPIClient;
pub use client::JiraClientConfig;
pub use client::JiraClientError;
pub use client::SchemaVariant;
