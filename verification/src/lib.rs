//! Versioned endpoint descriptions and request marshaling for a
//! JSON-over-HTTP protocol.
//!
//! An endpoint is described once by an [`metadata::EndpointMetadata`] value:
//! its HTTP method, its authentication requirement, and the history of path
//! templates it has had across protocol versions.  From that description the
//! library resolves the path template to use for a given set of supported
//! protocol versions ([`resolver::resolve`]), encodes a typed request into a
//! complete wire request ([`marshal::build`]), and parses the pieces of an
//! incoming wire request back into typed values ([`marshal::parse`]).
//!
//! The codecs under [`percent`], [`codec`] and [`query`] do the encoding
//! work and prove it reversible; [`json`] models structured bodies over a
//! trusted serializer; the modules under [`profile`], [`room`] and
//! [`state`] are endpoint definitions consuming the core; [`unsigned`]
//! and [`preview_url`] reconstruct event-side data from JSON fields.

pub mod codec;
pub mod json;
pub mod marshal;
pub mod metadata;
pub mod percent;
pub mod preview_url;
pub mod profile;
pub mod query;
pub mod resolver;
pub mod room;
pub mod state;
pub mod template;
pub mod unsigned;
pub mod text;
pub mod version;
