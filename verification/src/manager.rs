//! The values the framework hands to resource managers: canonical
//! listing, retrieval and update arguments, and the listing result.

use vstd::prelude::*;

use crate::filter::{AttrPath, Filter, SpecAttrPath, SpecFilter, SpecValuePath, ValuePath};
use crate::json::{JsonValue, SpecJson};
use crate::select::view_paths;

verus! {

/// Sort order for listing resources.
#[derive(Debug, Clone, Copy, PartialEq, Eq, Structural)]
pub enum SortOrder {
    /// Sort in ascending order (default).
    Ascending,
    /// Sort in descending order.
    Descending,
}

impl Default for SortOrder {
    /// The default sort order is ascending.
    fn default() -> (r: SortOrder)
        ensures
            r == SortOrder::Ascending,
    {
        SortOrder::Ascending
    }
}

/// Model of listing arguments.
pub struct SpecListArgs {
    pub filter: Option<SpecFilter>,
    pub sort_by: Option<SpecAttrPath>,
    pub sort_order: SortOrder,
    pub start_index: nat,
    pub count: nat,
    pub optional_attributes: Seq<SpecAttrPath>,
}

/// Arguments for listing resources.  `start_index` is zero-based here;
/// the wire value is one-based.
#[derive(Debug, PartialEq, Eq)]
pub struct ListResourceArgs {
    /// Filter to apply to the resources.
    pub filter: Option<Filter>,
    /// Attribute to sort by.
    pub sort_by: Option<AttrPath>,
    /// Sort order.
    pub sort_order: SortOrder,
    /// Index of the first resource to return (zero-indexed).
    pub start_index: usize,
    /// Number of resources to return.
    pub count: usize,
    /// Additional attributes to include in the response.
    pub optional_attributes: Vec<AttrPath>,
}

impl View for ListResourceArgs {
    type V = SpecListArgs;

    open spec fn view(&self) -> SpecListArgs {
        SpecListArgs {
            filter: match &self.filter {
                Some(f) => Some(f@),
                None => None,
            },
            sort_by: match &self.sort_by {
                Some(p) => Some(p@),
                None => None,
            },
            sort_order: self.sort_order,
            start_index: self.start_index as nat,
            count: self.count as nat,
            optional_attributes: view_paths(self.optional_attributes@),
        }
    }
}

/// Model of retrieval arguments.
pub struct SpecGetArgs {
    pub id: Seq<char>,
    pub optional_attributes: Seq<SpecAttrPath>,
}

/// Arguments for getting a resource by ID.
#[derive(Debug, PartialEq, Eq)]
pub struct GetResourceArgs {
    /// ID of the resource to get.
    pub id: String,
    /// Additional attributes to include in the response.
    pub optional_attributes: Vec<AttrPath>,
}

impl View for GetResourceArgs {
    type V = SpecGetArgs;

    open spec fn view(&self) -> SpecGetArgs {
        SpecGetArgs { id: self.id@, optional_attributes: view_paths(self.optional_attributes@) }
    }
}

/// Result of listing resources.
#[derive(Debug, PartialEq, Eq)]
pub struct ListResourceResult<T> {
    /// The resources.
    pub resources: Vec<T>,
    /// The page size used for this result.
    pub items_per_page: usize,
    /// The total number of items matching the filter.
    pub total_count: usize,
}

/// The type of update to apply to an attribute.
#[derive(Debug, PartialEq, Eq)]
pub enum UpdateOp {
    /// Add a value.
    Add(JsonValue),
    /// Remove a value.
    Remove,
    /// Replace a value in an attribute.
    Replace(JsonValue),
}

/// Model of an update operation.
pub enum SpecUpdateOp {
    Add(SpecJson),
    Remove,
    Replace(SpecJson),
}

impl View for UpdateOp {
    type V = SpecUpdateOp;

    open spec fn view(&self) -> SpecUpdateOp {
        match self {
            UpdateOp::Add(v) => SpecUpdateOp::Add(v@),
            UpdateOp::Remove => SpecUpdateOp::Remove,
            UpdateOp::Replace(v) => SpecUpdateOp::Replace(v@),
        }
    }
}

/// Model of one update item.
pub struct SpecUpdateItem {
    pub path: Option<SpecValuePath>,
    pub op: SpecUpdateOp,
}

/// An update to apply to a resource.
#[derive(Debug, PartialEq, Eq)]
pub struct UpdateResourceItem {
    /// Path to the attribute to update.
    pub path: Option<ValuePath>,
    /// The operation to apply.
    pub op: UpdateOp,
}

impl View for UpdateResourceItem {
    type V = SpecUpdateItem;

    open spec fn view(&self) -> SpecUpdateItem {
        SpecUpdateItem {
            path: match &self.path {
                Some(p) => Some(p@),
                None => None,
            },
            op: self.op@,
        }
    }
}

/// Models of a sequence of update items, element-wise.
pub open spec fn view_update_items(vs: Seq<UpdateResourceItem>) -> Seq<SpecUpdateItem>
    decreases vs,
{
    if vs.len() == 0 {
        Seq::empty()
    } else {
        view_update_items(vs.drop_last()).push(vs.last()@)
    }
}

/// The model of a sequence of update items has the same length and
/// holds the models of its elements, in order.
pub proof fn lemma_view_update_items(vs: Seq<UpdateResourceItem>)
    ensures
        view_update_items(vs).len() == vs.len(),
        forall|i: int| 0 <= i < vs.len() ==> view_update_items(vs)[i] == #[trigger] vs[i]@,
    decreases vs,
{
    if vs.len() > 0 {
        lemma_view_update_items(vs.drop_last());
        assert(view_update_items(vs) == view_update_items(vs.drop_last()).push(vs.last()@));
        assert forall|i: int| 0 <= i < vs.len() implies view_update_items(vs)[i]
            == #[trigger] vs[i]@ by {
            if i < vs.len() - 1 {
                assert(vs.drop_last()[i] == vs[i]);
            } else {
                assert(vs.last() == vs[i]);
            }
        }
    }
}

/// Model of update arguments.
pub struct SpecUpdateArgs {
    pub id: Seq<char>,
    pub items: Seq<SpecUpdateItem>,
}

/// Arguments for updating a resource.
#[derive(Debug, PartialEq, Eq)]
pub struct UpdateResourceArgs {
    /// ID of the resource to update.
    pub id: String,
    /// The updates to apply.
    pub items: Vec<UpdateResourceItem>,
}

impl View for UpdateResourceArgs {
    type V = SpecUpdateArgs;

    open spec fn view(&self) -> SpecUpdateArgs {
        SpecUpdateArgs { id: self.id@, items: view_update_items(self.items@) }
    }
}

} // verus!
