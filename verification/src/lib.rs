//! Stream-shredded layout planning for nested, variably sized schemas.
//!
//! A schema tree of scalars, structs, tagged unions, fixed-depth lists and
//! length-prefixed vectors is compiled into one primary stream of fixed-width
//! fields and a flat list of secondary streams, one per array level.

pub mod builder;
pub mod error;
pub mod laws;
pub mod layout;
pub mod plan;
pub mod scalar;
pub mod tree;
pub mod width;

pub use builder::{to_bundle, to_bundle_with_limit, DEFAULT_DEPTH_LIMIT};
pub use error::CompileError;
pub use layout::{Field, FieldType, Span, Stream, StreamBundle, UnionOption};
pub use scalar::parse_scalar_width;
pub use tree::{Node, NodeKind};
pub use width::{fields_total_width, log2, num_bits, LENGTH_BITS};
