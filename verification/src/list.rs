//! The SCIM list-response envelope.

use vstd::prelude::*;

verus! {

/// The envelope around a page of listed resources.
#[derive(Debug, PartialEq, Eq)]
pub struct ListResponse<T> {
    /// The total number of results.
    pub total_results: usize,
    /// One-based index of the first returned resource.
    pub start_index: usize,
    /// The page size.
    pub items_per_page: usize,
    /// The resources of this page.
    pub resources: Vec<T>,
}

impl<T> Default for ListResponse<T> {
    /// An empty response: no results, first page, page size 100.
    fn default() -> (r: ListResponse<T>)
        ensures
            r.total_results == 0,
            r.start_index == 1,
            r.items_per_page == 100,
            r.resources@ == Seq::<T>::empty(),
    {
        ListResponse { total_results: 0, start_index: 1, items_per_page: 100, resources: Vec::new() }
    }
}

} // verus!
