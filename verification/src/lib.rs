//! The logic of an HTTP gateway that proxies chat-completion requests to one
//! of several LLM providers: the policy catalog, the routing envelope of a
//! request, the choice of an LLM by name or by a classifier, the rewritten
//! request, the relayed response, and the metrics that each step updates.
//!
//! Everything here works on plain values. Whoever serves the requests reads
//! and sends, and asks this library what to do next.
pub mod config;
pub mod endpoints;
pub mod error;
pub mod json;
pub mod messages;
pub mod metrics;
pub mod proxy;
pub mod response;
pub mod router_params;
pub mod run;
pub mod status;
pub mod stream;
pub mod text;
pub mod triton;
pub mod upstream;
