//! Verified core of a reverse proxy: metrics, PROXY protocol framing, request
//! matching, rate limiting, OIDC session logic and the request pipeline.
pub mod decimal;
pub mod headers;
pub mod ip;
pub mod listener;
pub mod matcher;
pub mod metrics;
pub mod oidc;
pub mod otel;
pub mod path;
pub mod pattern;
pub mod privdrop;
pub mod proxy_proto;
pub mod rate_limit;
pub mod reply;
pub mod startup;
pub mod strmap;
pub mod text;
