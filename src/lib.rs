//! Short, human-readable names for Rust types.
//!
//! A full type descriptor such as
//! `alloc::boxed::Box<dyn core::fmt::Debug + core::marker::Send>` is parsed
//! into a tree, every path is cut to its last segment and every reference
//! loses its lifetime, and the tree is printed again:
//! `Box<dyn Debug + Send>`. A [`NameCache`] computes each type's name once.

pub mod canonicalize;
pub mod grammar;
pub mod laws;
pub mod model;
pub mod names;
pub mod parse;
pub mod render;
pub mod round_trip;
pub mod text;
pub mod tree;

pub use canonicalize::{truncate_path, truncate_type};
pub use names::{canonical_name, NameCache};
pub use parse::parse_descriptor;
pub use render::render;
pub use tree::{PathSegment, SegmentArgs, TypeArg, TypeBound, TypeExpr, TypePath};
