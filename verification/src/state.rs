//! The state behind a browsing view of the catalog: the records and what is
//! derived from them, the filters, the selection, and how each event of the
//! view changes them.

use crate::filter::{filter_label, filter_view, passes, passes_filters, text_view};
use crate::filter::{ToolFilter, ToolFilterView};
use crate::item::{item_section, items_of_text, items_view, json_table, parse_items};
use crate::item::{rows_view, table_of, Schema, ToolItem, ToolItemView};
use crate::keys::{collect_keys, nonempty_members, sorted_keys, unique};
use crate::record::SectionView;
use crate::text::{sorted_of, texts};
use vstd::prelude::*;

verus! {

/// Where the catalog is read from.
#[derive(Clone, Copy, Debug, PartialEq, Eq, Structural)]
pub enum DBSource {
    Local,
    Online,
}

/// The address of the catalog on the network.
pub const ONLINE_DB: &'static str =
    "https://media.githubusercontent.com/media/Uncreate/EssaiControlPanel/refs/heads/main/MasterToolDatabase.txt";

/// The name of the local catalog file, to be looked up where the program is
/// installed.
pub fn local_db() -> (r: String)
    ensures
        r@ == "MasterToolDatabase.txt"@,
{
    "MasterToolDatabase.txt".to_owned()
}

/// The state of the view.
pub struct ViewState {
    source: DBSource,
    items: Vec<ToolItem>,
    manufacturers: Vec<String>,
    search: String,
    manufacturer_filter: Option<String>,
    tool_filter: Option<ToolFilter>,
    selected: Option<usize>,
    active_tab: Schema,
    solfex_keys: Vec<String>,
    milling_keys: Vec<String>,
    drilling_keys: Vec<String>,
    show_local_warning: bool,
}

/// The state of the view as a mathematical value.
pub struct ViewStateView {
    pub source: DBSource,
    pub items: Seq<ToolItemView>,
    pub manufacturers: Seq<Seq<char>>,
    pub search: Seq<char>,
    pub manufacturer_filter: Option<Seq<char>>,
    pub tool_filter: Option<ToolFilterView>,
    pub selected: Option<usize>,
    pub active_tab: Schema,
    pub solfex_keys: Seq<Seq<char>>,
    pub milling_keys: Seq<Seq<char>>,
    pub drilling_keys: Seq<Seq<char>>,
    pub show_local_warning: bool,
}

/// The manufacturers of a list of items, one entry for each item.
pub open spec fn manufacturer_column(items: Seq<ToolItemView>) -> Seq<Seq<char>> {
    items.map_values(|t: ToolItemView| t.manufacturer)
}

impl ViewStateView {
    /// The selection points at a record, and the lists of manufacturers and of
    /// attribute names are those of the current records.
    pub open spec fn wf(self) -> bool {
        &&& self.selected matches Some(i) ==> i < self.items.len()
        &&& self.manufacturers == sorted_of(nonempty_members(manufacturer_column(self.items)))
        &&& self.solfex_keys == sorted_keys(self.items, Schema::Solfex)
        &&& self.milling_keys == sorted_keys(self.items, Schema::Milling)
        &&& self.drilling_keys == sorted_keys(self.items, Schema::Drilling)
    }

    /// The attribute names of a schema.
    pub open spec fn keys(self, schema: Schema) -> Seq<Seq<char>> {
        match schema {
            Schema::Solfex => self.solfex_keys,
            Schema::Milling => self.milling_keys,
            Schema::Drilling => self.drilling_keys,
        }
    }

    /// Whether the record at an index is listed.
    pub open spec fn lists(self, i: int) -> bool {
        0 <= i < self.items.len() && passes_filters(
            self.items[i],
            self.manufacturer_filter,
            self.tool_filter,
            self.search,
        )
    }

    /// The section of the selected record for the active schema; none where
    /// nothing is selected.
    pub open spec fn active_section(self) -> Option<SectionView> {
        match self.selected {
            Some(i) => item_section(self.items[i as int], self.active_tab),
            None => None,
        }
    }

    /// The state after the records were replaced by those of a catalog text:
    /// the derived lists follow, selection and filters are cleared, the rest
    /// stays.
    pub open spec fn reloaded(self, text: Seq<char>) -> ViewStateView {
        let items = items_of_text(text);
        ViewStateView {
            items,
            manufacturers: sorted_of(nonempty_members(manufacturer_column(items))),
            solfex_keys: sorted_keys(items, Schema::Solfex),
            milling_keys: sorted_keys(items, Schema::Milling),
            drilling_keys: sorted_keys(items, Schema::Drilling),
            manufacturer_filter: None,
            tool_filter: None,
            selected: None,
            ..self
        }
    }
}

/// The state of a view that starts on a source with the text read from it.
pub open spec fn initial_view(source: DBSource, text: Seq<char>) -> ViewStateView {
    ViewStateView {
        source,
        items: Seq::empty(),
        manufacturers: Seq::empty(),
        search: Seq::empty(),
        manufacturer_filter: None,
        tool_filter: None,
        selected: None,
        active_tab: Schema::Solfex,
        solfex_keys: Seq::empty(),
        milling_keys: Seq::empty(),
        drilling_keys: Seq::empty(),
        show_local_warning: false,
    }.reloaded(text)
}

impl View for ViewState {
    type V = ViewStateView;

    closed spec fn view(&self) -> ViewStateView {
        ViewStateView {
            source: self.source,
            items: items_view(self.items@),
            manufacturers: texts(self.manufacturers@),
            search: self.search@,
            manufacturer_filter: text_view(self.manufacturer_filter),
            tool_filter: filter_view(self.tool_filter),
            selected: self.selected,
            active_tab: self.active_tab,
            solfex_keys: texts(self.solfex_keys@),
            milling_keys: texts(self.milling_keys@),
            drilling_keys: texts(self.drilling_keys@),
            show_local_warning: self.show_local_warning,
        }
    }
}

/// The manufacturers of a list of items, sorted and without repetition or
/// empty entries.
pub fn manufacturers_of(items: &Vec<ToolItem>) -> (r: Vec<String>)
    ensures
        texts(r@) == sorted_of(nonempty_members(manufacturer_column(items_view(items@)))),
{
    let mut column: Vec<String> = Vec::new();
    let mut i: usize = 0;
    while i < items.len()
        invariant
            i <= items.len(),
            column@.len() == i,
            forall|k: int| 0 <= k < i ==> (#[trigger] column@[k])@ == items@[k].manufacturer@,
        decreases items.len() - i,
    {
        column.push(items[i].manufacturer.clone());
        i += 1;
    }
    assert(texts(column@) =~= manufacturer_column(items_view(items@)));
    unique(&column)
}

impl ViewState {
    /// Every state is well formed.
    #[verifier::type_invariant]
    closed spec fn inv(&self) -> bool {
        self@.wf()
    }

    /// The state of a view that starts on `source`, with the text read from
    /// it.
    pub fn new(source: DBSource, raw: &str) -> (r: ViewState)
        ensures
            r@.wf(),
            r@ == initial_view(source, raw@),
    {
        let items = parse_items(raw);
        let manufacturers = manufacturers_of(&items);
        let solfex_keys = collect_keys(&items, Schema::Solfex);
        let milling_keys = collect_keys(&items, Schema::Milling);
        let drilling_keys = collect_keys(&items, Schema::Drilling);
        ViewState {
            source,
            items,
            manufacturers,
            search: String::new(),
            manufacturer_filter: None,
            tool_filter: None,
            selected: None,
            active_tab: Schema::Solfex,
            solfex_keys,
            milling_keys,
            drilling_keys,
            show_local_warning: false,
        }
    }

    /// Replaces the records by those of a catalog text read anew. The lists
    /// of manufacturers and of attribute names are rebuilt from the new
    /// records; nothing is selected and no filter is set afterwards.
    pub fn reload(&mut self, raw: &str)
        ensures
            final(self)@.wf(),
            final(self)@ == old(self)@.reloaded(raw@),
            final(self)@.selected is None,
    {
        let items = parse_items(raw);
        let manufacturers = manufacturers_of(&items);
        let solfex_keys = collect_keys(&items, Schema::Solfex);
        let milling_keys = collect_keys(&items, Schema::Milling);
        let drilling_keys = collect_keys(&items, Schema::Drilling);
        let search = self.search.clone();
        *self = ViewState {
            source: self.source,
            items,
            manufacturers,
            search,
            manufacturer_filter: None,
            tool_filter: None,
            selected: None,
            active_tab: self.active_tab,
            solfex_keys,
            milling_keys,
            drilling_keys,
            show_local_warning: self.show_local_warning,
        };
    }

    /// The source that the records were or will be read from.
    pub fn source(&self) -> (r: DBSource)
        ensures
            r == self@.source,
    {
        self.source
    }

    /// The records, in the order of the catalog.
    pub fn items(&self) -> (r: &Vec<ToolItem>)
        ensures
            items_view(r@) == self@.items,
    {
        &self.items
    }

    /// The manufacturers of the current records, sorted and without
    /// repetition or empty entries.
    pub fn manufacturers(&self) -> (r: &Vec<String>)
        ensures
            texts(r@) == self@.manufacturers,
            texts(r@) == sorted_of(nonempty_members(manufacturer_column(self@.items))),
    {
        proof {
            use_type_invariant(self);
        }
        &self.manufacturers
    }

    /// The search text.
    pub fn search(&self) -> (r: &str)
        ensures
            r@ == self@.search,
    {
        self.search.as_str()
    }

    /// The manufacturer that the list is restricted to, if any.
    pub fn manufacturer_filter(&self) -> (r: &Option<String>)
        ensures
            text_view(*r) == self@.manufacturer_filter,
    {
        &self.manufacturer_filter
    }

    /// The tool filter, if one is set.
    pub fn tool_filter(&self) -> (r: &Option<ToolFilter>)
        ensures
            filter_view(*r) == self@.tool_filter,
    {
        &self.tool_filter
    }

    /// The index of the selected record, if one is selected.
    pub fn selected(&self) -> (r: Option<usize>)
        ensures
            r == self@.selected,
            r matches Some(i) ==> i < self@.items.len(),
    {
        proof {
            use_type_invariant(self);
        }
        self.selected
    }

    /// The schema whose table is shown.
    pub fn active_tab(&self) -> (r: Schema)
        ensures
            r == self@.active_tab,
    {
        self.active_tab
    }

    /// Whether the notice about the local source is up.
    pub fn show_local_warning(&self) -> (r: bool)
        ensures
            r == self@.show_local_warning,
    {
        self.show_local_warning
    }

    /// The attribute names of a schema over the current records.
    pub fn keys(&self, schema: Schema) -> (r: &Vec<String>)
        ensures
            texts(r@) == self@.keys(schema),
            texts(r@) == sorted_keys(self@.items, schema),
    {
        proof {
            use_type_invariant(self);
        }
        match schema {
            Schema::Solfex => &self.solfex_keys,
            Schema::Milling => &self.milling_keys,
            Schema::Drilling => &self.drilling_keys,
        }
    }

    /// Whether an item is listed under the current filters and search text.
    pub fn passes(&self, it: &ToolItem) -> (r: bool)
        ensures
            r == passes_filters(
                it@,
                self@.manufacturer_filter,
                self@.tool_filter,
                self@.search,
            ),
            self@.manufacturer_filter matches Some(m) && m != it@.manufacturer ==> !r,
    {
        passes(it, &self.manufacturer_filter, &self.tool_filter, self.search.as_str())
    }

    /// The label of the tool filter, where one is set.
    pub fn chip(&self) -> (r: Option<String>)
        ensures
            match r {
                Some(label) => self@.tool_filter is Some && label@ == filter_label(
                    self@.tool_filter->0,
                ),
                None => self@.tool_filter is None,
            },
    {
        match &self.tool_filter {
            Some(filter) => Some(filter.label()),
            None => None,
        }
    }

    /// The indices of the records that are listed, in ascending order.
    pub fn visible(&self) -> (r: Vec<usize>)
        ensures
            forall|a: int, b: int| 0 <= a < b < r@.len() ==> r@[a] < r@[b],
            forall|a: int| 0 <= a < r@.len() ==> self@.lists(#[trigger] r@[a] as int),
            forall|i: int| self@.lists(i) ==> r@.contains(i as usize),
    {
        let mut r: Vec<usize> = Vec::new();
        let mut i: usize = 0;
        while i < self.items.len()
            invariant
                i <= self.items.len(),
                forall|a: int, b: int| 0 <= a < b < r@.len() ==> r@[a] < r@[b],
                forall|a: int| 0 <= a < r@.len() ==> r@[a] < i,
                forall|k: int|
                    0 <= k < i ==> (self@.lists(k) <==> r@.contains(k as usize)),
                forall|a: int| 0 <= a < r@.len() ==> self@.lists(#[trigger] r@[a] as int),
            decreases self.items.len() - i,
        {
            let ghost before = r@;
            if self.passes(&self.items[i]) {
                r.push(i);
                assert(r@[before.len() as int] == i);
                assert forall|k: int| 0 <= k < i + 1 implies (self@.lists(k) <==> r@.contains(
                    k as usize,
                )) by {
                    if k < i {
                        if before.contains(k as usize) {
                            let a = choose|a: int| 0 <= a < before.len() && before[a] == k as usize;
                            assert(r@[a] == k as usize);
                        }
                        if r@.contains(k as usize) {
                            let a = choose|a: int| 0 <= a < r@.len() && r@[a] == k as usize;
                            assert(before[a] == k as usize);
                        }
                    }
                }
            } else {
                assert(!r@.contains(i));
            }
            i += 1;
        }
        r
    }

    /// The selected record, where one is selected.
    pub fn selected_item(&self) -> (r: Option<&ToolItem>)
        ensures
            match r {
                Some(item) => self@.selected is Some && item@ == self@.items[self@.selected->0 as int],
                None => self@.selected is None,
            },
    {
        proof {
            use_type_invariant(self);
        }
        match self.selected {
            Some(i) => Some(&self.items[i]),
            None => None,
        }
    }

    /// The rows of the table for the active schema: one row for each attribute
    /// name of the schema, filled from the selected record and blank where
    /// nothing is selected or the record has no such attribute.
    pub fn table_rows(&self) -> (rows: Vec<(String, String)>)
        ensures
            rows_view(rows@) == table_of(self@.active_section(), self@.keys(self@.active_tab)),
    {
        proof {
            use_type_invariant(self);
        }
        let keys = self.keys(self.active_tab);
        match self.selected {
            Some(i) => json_table(self.items[i].section(self.active_tab), keys),
            None => json_table(&None, keys),
        }
    }

    /// The source was chosen in the menu. Choosing the local source raises the
    /// notice about it. The result says whether the source has changed, so
    /// that the catalog has to be read again.
    pub fn select_source(&mut self, source: DBSource) -> (changed: bool)
        ensures
            changed == (old(self)@.source != source),
            final(self)@ == (ViewStateView {
                source,
                show_local_warning: old(self)@.show_local_warning || source == DBSource::Local,
                ..old(self)@
            }),
            final(self)@.wf(),
    {
        proof {
            use_type_invariant(&*self);
        }
        let changed = self.source != source;
        if source == DBSource::Local {
            self.show_local_warning = true;
        }
        self.source = source;
        changed
    }

    /// The notice about the local source was acknowledged.
    pub fn dismiss_warning(&mut self)
        ensures
            final(self)@ == (ViewStateView { show_local_warning: false, ..old(self)@ }),
            final(self)@.wf(),
    {
        proof {
            use_type_invariant(&*self);
        }
        self.show_local_warning = false;
    }

    /// The search text was edited.
    pub fn set_search(&mut self, text: String)
        ensures
            final(self)@ == (ViewStateView { search: text@, ..old(self)@ }),
            final(self)@.wf(),
    {
        proof {
            use_type_invariant(&*self);
        }
        self.search = text;
    }

    /// A manufacturer was chosen in the menu, or all of them with `None`.
    pub fn set_manufacturer_filter(&mut self, manufacturer: Option<String>)
        ensures
            final(self)@ == (ViewStateView {
                manufacturer_filter: text_view(manufacturer),
                ..old(self)@
            }),
            final(self)@.wf(),
    {
        proof {
            use_type_invariant(&*self);
        }
        self.manufacturer_filter = manufacturer;
    }

    /// The tool filter was removed.
    pub fn clear_tool_filter(&mut self)
        ensures
            final(self)@ == (ViewStateView { tool_filter: None, ..old(self)@ }),
            final(self)@.wf(),
    {
        proof {
            use_type_invariant(&*self);
        }
        self.tool_filter = None;
    }

    /// A schema tab was chosen.
    pub fn select_tab(&mut self, tab: Schema)
        ensures
            final(self)@ == (ViewStateView { active_tab: tab, ..old(self)@ }),
            final(self)@.wf(),
    {
        proof {
            use_type_invariant(&*self);
        }
        self.active_tab = tab;
    }

    /// The record at `index` was clicked: it becomes the selected one, or
    /// nothing is selected if it was selected before. An index beyond the
    /// records changes nothing.
    pub fn click_item(&mut self, index: usize)
        ensures
            final(self)@ == (ViewStateView {
                selected: if index >= old(self)@.items.len() {
                    old(self)@.selected
                } else if old(self)@.selected == Some(index) {
                    None
                } else {
                    Some(index)
                },
                ..old(self)@
            }),
            final(self)@.wf(),
    {
        proof {
            use_type_invariant(&*self);
        }
        if index < self.items.len() {
            if self.selected == Some(index) {
                self.selected = None;
            } else {
                self.selected = Some(index);
            }
        }
    }

    /// The family of the record at `index` was asked for: the tool filter
    /// becomes its part number, unless the record has none or the index is
    /// beyond the records.
    pub fn show_family(&mut self, index: usize)
        ensures
            final(self)@ == (ViewStateView {
                tool_filter: if index < old(self)@.items.len() && old(self)@.items[index as int].essai_part.len()
                    > 0 {
                    Some(ToolFilterView::Family(old(self)@.items[index as int].essai_part))
                } else {
                    old(self)@.tool_filter
                },
                ..old(self)@
            }),
            final(self)@.wf(),
    {
        proof {
            use_type_invariant(&*self);
        }
        if index < self.items.len() {
            let it = &self.items[index];
            if !it.essai_part.as_str().is_empty() {
                let filter = ToolFilter::Family(it.essai_part.clone());
                self.tool_filter = Some(filter);
            }
        }
    }

    /// The class of the record at `index` was asked for: the tool filter
    /// becomes its part number together with its holder, unless the record
    /// has no part number or the index is beyond the records.
    pub fn show_class(&mut self, index: usize)
        ensures
            final(self)@ == (ViewStateView {
                tool_filter: if index < old(self)@.items.len() && old(self)@.items[index as int].essai_part.len()
                    > 0 {
                    Some(
                        ToolFilterView::Class(
                            old(self)@.items[index as int].essai_part,
                            old(self)@.items[index as int].holder_name,
                        ),
                    )
                } else {
                    old(self)@.tool_filter
                },
                ..old(self)@
            }),
            final(self)@.wf(),
    {
        proof {
            use_type_invariant(&*self);
        }
        if index < self.items.len() {
            let it = &self.items[index];
            if !it.essai_part.as_str().is_empty() {
                let filter = ToolFilter::Class(it.essai_part.clone(), it.holder_name.clone());
                self.tool_filter = Some(filter);
            }
        }
    }
}

} // verus!
