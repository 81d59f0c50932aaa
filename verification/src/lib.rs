//! Ingestion gateway core: stream segmentation, owner identities, content
//! addressing and name canonicalization in front of a content-addressed store.

pub mod buffer;
pub mod gateway;
pub mod hash;
pub mod hex;
pub mod identity;
pub mod name;
pub mod secret;
pub mod segment;
pub mod text;
