//! Adapters between the value types of the `http` crate and a format-neutral
//! serialization tree.
//!
//! Each adapter is a pair of functions: `serialize` encodes a typed value as
//! a [`node::Node`], and `deserialize` decodes a typed value from one or
//! says why the node is refused. The adapters never perform I/O; a format
//! driver moves nodes to and from text or bytes.
//!
//! * [`header_map`] adapts `HeaderMap`, the ordered, case-insensitive,
//!   multi-valued header collection. Human-readable formats and compact
//!   formats get different shapes, chosen by a flag that the caller passes.
//! * [`status_code`], [`method`], [`uri`], [`authority`] and [`version`]
//!   adapt the scalar value types.
//! * [`option`] lifts each adapter to values that may be absent.
//!
//! What the functions return is stated over the mathematical views of nodes
//! and errors and over the contents of the `http` values; [`round_trip`] and
//! [`validity`] hold what follows for encoding and decoding together.

pub mod authority;
pub mod decoding;
pub mod encoding;
pub mod error;
pub mod header_map;
pub mod headers;
pub mod method;
pub mod node;
pub mod option;
pub mod round_trip;
pub mod status_code;
pub mod token;
pub mod uri;
pub mod validity;
pub mod version;
