//! Which records a view lists: the manufacturer filter, the tool filter, and
//! the search over names.

use crate::item::{ToolItem, ToolItemView};
use crate::text::{lowercase, lowercase_of, string_contains, text_contains};
use vstd::prelude::*;
use vstd::string::StringExecFns;

verus! {

/// A filter on the part of a tool: all tools of a part number, or those of a
/// part number in one holder.
#[derive(Clone, Debug, PartialEq, Eq)]
pub enum ToolFilter {
    /// The part number.
    Family(String),
    /// The part number and the holder's name.
    Class(String, String),
}

/// A tool filter as a mathematical value.
pub enum ToolFilterView {
    Family(Seq<char>),
    Class(Seq<char>, Seq<char>),
}

impl View for ToolFilter {
    type V = ToolFilterView;

    open spec fn view(&self) -> ToolFilterView {
        match *self {
            ToolFilter::Family(part) => ToolFilterView::Family(part@),
            ToolFilter::Class(part, holder) => ToolFilterView::Class(part@, holder@),
        }
    }
}

/// The view of a text that may be absent.
pub open spec fn text_view(s: Option<String>) -> Option<Seq<char>> {
    match s {
        Some(text) => Some(text@),
        None => None,
    }
}

/// The view of a tool filter that may be absent.
pub open spec fn filter_view(f: Option<ToolFilter>) -> Option<ToolFilterView> {
    match f {
        Some(filter) => Some(filter@),
        None => None,
    }
}

/// Whether a tool filter accepts an item.
pub open spec fn filter_accepts(filter: ToolFilterView, item: ToolItemView) -> bool {
    match filter {
        ToolFilterView::Family(part) => item.essai_part == part,
        ToolFilterView::Class(part, holder) => item.essai_part == part && item.holder_name
            == holder,
    }
}

/// Whether a search text finds a name: an empty search finds every name, any
/// other the names that hold it, letter case aside.
pub open spec fn search_finds(search: Seq<char>, name: Seq<char>) -> bool {
    search.len() == 0 || text_contains(lowercase_of(name), lowercase_of(search))
}

/// Whether an item is listed. A manufacturer filter that the item does not
/// match rejects it. Otherwise a tool filter decides alone where one is set,
/// and the search over the name where none is.
pub open spec fn passes_filters(
    item: ToolItemView,
    manufacturer_filter: Option<Seq<char>>,
    tool_filter: Option<ToolFilterView>,
    search: Seq<char>,
) -> bool {
    if manufacturer_filter is Some && item.manufacturer != manufacturer_filter->0 {
        false
    } else {
        match tool_filter {
            Some(filter) => filter_accepts(filter, item),
            None => search_finds(search, item.tool_name),
        }
    }
}

/// The label that shows a tool filter.
pub open spec fn filter_label(filter: ToolFilterView) -> Seq<char> {
    match filter {
        ToolFilterView::Family(part) => "Family: "@ + part,
        ToolFilterView::Class(part, holder) => "Class: "@ + part + " | "@ + holder,
    }
}

impl ToolFilter {
    /// Whether the filter accepts an item.
    pub fn accepts(&self, item: &ToolItem) -> (r: bool)
        ensures
            r == filter_accepts(self@, item@),
    {
        match self {
            ToolFilter::Family(part) => item.essai_part == *part,
            ToolFilter::Class(part, holder) => item.essai_part == *part && item.holder_name
                == *holder,
        }
    }

    /// The label that shows the filter.
    pub fn label(&self) -> (r: String)
        ensures
            r@ == filter_label(self@),
    {
        match self {
            ToolFilter::Family(part) => String::from_str("Family: ").concat(part.as_str()),
            ToolFilter::Class(part, holder) => String::from_str("Class: ").concat(
                part.as_str(),
            ).concat(" | ").concat(holder.as_str()),
        }
    }
}

/// Whether a search text finds a name.
pub fn name_matches(search: &str, name: &str) -> (r: bool)
    ensures
        r == search_finds(search@, name@),
{
    if search.is_empty() {
        return true;
    }
    let lower_name = lowercase(name);
    let lower_search = lowercase(search);
    string_contains(lower_name.as_str(), lower_search.as_str())
}

/// Whether an item is listed under the given filters and search text.
pub fn passes(
    item: &ToolItem,
    manufacturer_filter: &Option<String>,
    tool_filter: &Option<ToolFilter>,
    search: &str,
) -> (r: bool)
    ensures
        r == passes_filters(
            item@,
            text_view(*manufacturer_filter),
            filter_view(*tool_filter),
            search@,
        ),
        manufacturer_filter matches Some(m) && m@ != item.manufacturer@ ==> !r,
{
    if let Some(m) = manufacturer_filter {
        if item.manufacturer != *m {
            return false;
        }
    }
    match tool_filter {
        Some(filter) => filter.accepts(item),
        None => name_matches(search, item.tool_name.as_str()),
    }
}

} // verus!
