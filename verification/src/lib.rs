//! Decoding of WebDAV `multistatus` responses (RFC 4918) into typed
//! directory-entry records.
//!
//! The crate models parsed XML content as a schema-free [`value::Value`]
//! tree, decodes the RFC 4918 element skeleton
//! (`multistatus` / `response` / `propstat` / `prop`) out of that tree,
//! interprets HTTP status lines, and reduces a decoded multistatus to a
//! flat list of file records.

pub mod bytes;
pub mod element;
pub mod elements;
pub mod error;
pub mod parser;
pub mod properties;
pub mod qname;
pub mod reduce;
pub mod status;
pub mod timestamp;
pub mod value;
pub mod xml;
