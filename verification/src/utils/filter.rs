//! Filters on text fields.

use vstd::prelude::*;

verus! {

/// Keeps the values that contain a piece of text.
#[derive(Debug, Clone)]
pub struct StringFilter {
    pub contains: Option<String>,
}

} // verus!
