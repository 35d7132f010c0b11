//! A read-only, keyed locale resource provider.
//!
//! The crate serves typed, versioned locale data records addressed by a
//! structured [`resource::ResourceKey`] plus request-specific
//! [`resource::ResourceOptions`].  An aggregate provider routes each request
//! to exactly one of several independently built domain providers; each
//! domain is built lazily, on the first request that reaches it.

pub mod codec;
pub mod domain;
pub mod entries;
pub mod lazy;
pub mod plurals;
pub mod resource;
pub mod router;
