//! The page shape served to GraphQL clients.

use vstd::prelude::*;

verus! {

/// An opaque cursor text.
pub struct Cursor(pub String);

/// A page of nodes.
pub struct Page<A> {
    pub nodes: Vec<A>,
    pub page_info: PageInfo,
}

/// Whether more pages follow, and where the next one starts.
pub struct PageInfo {
    pub has_next_page: bool,
    pub end_cursor: Option<Cursor>,
}

} // verus!
