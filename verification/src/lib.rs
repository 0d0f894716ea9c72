//! Verified core of a streaming geometric-transform filter.
//!
//! The filter reads a line-oriented mesh description, rewrites the
//! coordinates of vertex records through a spatial transform, and passes
//! every other record through unchanged.  The floating-point transform
//! kernels themselves live outside this crate; what is verified here is
//! everything the filter decides over plain text and counts: how a record
//! is tokenized and classified, what counts as a numeric field, how the
//! comma-vector and reference-line arguments are decomposed, how a vertex
//! record is rebuilt for output, and which reference-line configuration a
//! warp run uses.

pub mod numeric;
pub mod record;
pub mod text;
pub mod vector;
pub mod warp;
