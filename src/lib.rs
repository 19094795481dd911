use vstd::prelude::*;

pub mod aggregate;
pub mod json;
pub mod laws;
pub mod lines;
pub mod model;
pub mod pager;
pub mod project;
pub mod scan;
pub mod text;

verus! {

/// The number of non-blank lines on a page when a caller names no other.
pub const DEFAULT_PAGE_SIZE: usize = 500;

/// How many leading non-blank lines a summary decodes for its levels and time
/// span when a caller names no other.
pub const DEFAULT_SAMPLE_SIZE: usize = 5000;

} // verus!
