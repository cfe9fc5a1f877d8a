//! An HTTP gateway core that serves objects of a multi-tenant object store:
//! the request host selects the bucket, the request path selects the key.
//!
//! - `domain`: which hosts the allow-list authorizes.
//! - `key`: which object key a request path names.
//! - `request`: the tenant host of a `Host` header.
//! - `service`: the per-request pipeline, as a state machine that asks its
//!   caller for each object-store operation.
//! - `config`: the settings and their defaults.
//!
//! Everything here is decision logic; the listener, the object-store client
//! and the identity lookup live with the caller, which feeds their outcomes
//! back into `service`.

pub mod config;
pub mod content;
pub mod domain;
pub mod key;
pub mod request;
pub mod service;
pub mod text;
