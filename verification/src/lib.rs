//! A multi-tenant reverse-proxy gateway's request plane: session
//! authentication, sticky account routing, upstream-token acquisition and
//! the header policy of the forwarder, as verified decision logic.

pub mod account_token_provider;
pub mod codec;
pub mod config;
pub mod gateway;
pub mod gateway_sessions;
pub mod header_policy;
pub mod headers;
pub mod kv;
pub mod label;
pub mod num;
pub mod observability;
pub mod pools;
pub mod proxy;
pub mod routing;
pub mod serve;
pub mod text;
pub mod time;
