//! A verified core for a declarative-document to vector-image converter.
//!
//! A document is a tree of styled, nested text regions. An external
//! text-layout engine (out of scope here) shapes the text; this crate holds
//! the logic around it: cascading style resolution into flat style runs,
//! conversion of per-glyph outline commands into compact path-data text with
//! a quadratic-simplification heuristic, interning of identical paths,
//! composition of glyph placements and run transforms, frame alignment
//! offsets, and assembly of the final image text.
//!
//! All coordinates are fixed-point integers; see [`fix`].

pub mod escape;
pub mod analyzer;
pub mod color;
pub mod directives;
pub mod document;
pub mod fix;
pub mod render;
pub mod sink;
pub mod store;
pub mod style;
