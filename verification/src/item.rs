//! Normalized records: the display fields of a tool, each resolved from the
//! section that its type makes the primary one, and from the other where the
//! primary one has no text for it.

use crate::record::{assoc_get, attributes_view, database_of_text, parse_database, section_pairs};
use crate::record::{section_view, lemma_assoc_get_some};
use crate::record::{Attribute, Scalar, ScalarView, Section, SectionView, ToolDatabase};
use crate::record::{ToolEntry, ToolEntryView};
use crate::text::{same_text, texts};
use vstd::prelude::*;

verus! {

broadcast use vstd::std_specs::vec::axiom_spec_into_iter;

/// A record ready for display. The sections are kept as the document gave
/// them.
#[derive(Clone, Debug, PartialEq, Eq)]
pub struct ToolItem {
    pub tool_name: String,
    pub essai_part: String,
    pub edp_num: String,
    pub manufacturer: String,
    pub holder_name: String,
    pub outside_len: String,
    pub gage_len: String,
    pub description: String,
    pub diameter: String,
    pub loc: String,
    pub solfex: Option<Section>,
    pub milling: Option<Section>,
    pub drilling: Option<Section>,
}

/// A normalized record as a mathematical value.
pub struct ToolItemView {
    pub tool_name: Seq<char>,
    pub essai_part: Seq<char>,
    pub edp_num: Seq<char>,
    pub manufacturer: Seq<char>,
    pub holder_name: Seq<char>,
    pub outside_len: Seq<char>,
    pub gage_len: Seq<char>,
    pub description: Seq<char>,
    pub diameter: Seq<char>,
    pub loc: Seq<char>,
    pub solfex: Option<SectionView>,
    pub milling: Option<SectionView>,
    pub drilling: Option<SectionView>,
}

impl View for ToolItem {
    type V = ToolItemView;

    open spec fn view(&self) -> ToolItemView {
        ToolItemView {
            tool_name: self.tool_name@,
            essai_part: self.essai_part@,
            edp_num: self.edp_num@,
            manufacturer: self.manufacturer@,
            holder_name: self.holder_name@,
            outside_len: self.outside_len@,
            gage_len: self.gage_len@,
            description: self.description@,
            diameter: self.diameter@,
            loc: self.loc@,
            solfex: section_view(self.solfex),
            milling: section_view(self.milling),
            drilling: section_view(self.drilling),
        }
    }
}

/// One of the three attribute schemas of a record.
#[derive(Clone, Copy, Debug, PartialEq, Eq, Structural)]
pub enum Schema {
    Solfex,
    Milling,
    Drilling,
}

impl Default for Schema {
    fn default() -> (r: Schema)
        ensures
            r == Schema::Solfex,
    {
        Schema::Solfex
    }
}

/// The section that an item keeps for a schema.
pub open spec fn item_section(item: ToolItemView, schema: Schema) -> Option<SectionView> {
    match schema {
        Schema::Solfex => item.solfex,
        Schema::Milling => item.milling,
        Schema::Drilling => item.drilling,
    }
}

impl ToolItem {
    /// The section that the item keeps for a schema.
    pub fn section(&self, schema: Schema) -> (r: &Option<Section>)
        ensures
            section_view(*r) == item_section(self@, schema),
    {
        match schema {
            Schema::Solfex => &self.solfex,
            Schema::Milling => &self.milling,
            Schema::Drilling => &self.drilling,
        }
    }
}

/// The views of a list of items.
pub open spec fn items_view(items: Seq<ToolItem>) -> Seq<ToolItemView> {
    items.map_values(|t: ToolItem| t@)
}

/// The text that stands for a value on display: a string as it is, a number in
/// its decimal form, a boolean as `true` or `false`, anything else as nothing.
pub open spec fn scalar_text(v: ScalarView) -> Seq<char> {
    match v {
        ScalarView::Text(t) => t,
        ScalarView::Number(t) => t,
        ScalarView::Boolean(b) => if b {
            "true"@
        } else {
            "false"@
        },
        ScalarView::Other => Seq::empty(),
    }
}

/// The text of an attribute of a section, where the section is a mapping that
/// has the attribute.
pub open spec fn field_text(section: Option<SectionView>, key: Seq<char>) -> Option<Seq<char>> {
    match assoc_get(section_pairs(section), key) {
        Some(v) => Some(scalar_text(v)),
        None => None,
    }
}

/// Whether the drilling section is the primary one of a record.
pub open spec fn drilling_first(entry: ToolEntryView) -> bool {
    entry.sc_tool_type == "drilling"@
}

/// The section that is asked first.
pub open spec fn primary(entry: ToolEntryView) -> Option<SectionView> {
    if drilling_first(entry) {
        entry.drilling_tool
    } else {
        entry.milling_tool
    }
}

/// The section that is asked where the primary one has no answer.
pub open spec fn secondary(entry: ToolEntryView) -> Option<SectionView> {
    if drilling_first(entry) {
        entry.milling_tool
    } else {
        entry.drilling_tool
    }
}

/// The text that a section shows for an attribute: that of its value, or
/// nothing where the section has no such attribute.
pub open spec fn cell_text(section: Option<SectionView>, key: Seq<char>) -> Seq<char> {
    match field_text(section, key) {
        Some(t) => t,
        None => Seq::empty(),
    }
}

/// Whether a section answers for an attribute: it has the attribute, and the
/// text of its value is not empty.
pub open spec fn answers(section: Option<SectionView>, key: Seq<char>) -> bool {
    field_text(section, key) matches Some(t) && t.len() > 0
}

/// The text of an attribute from a first section where that section answers
/// for it; else from a second section where that one has the attribute; else
/// empty. A first section that lacks the attribute, or gives it a value whose
/// text is empty, leaves the answer to the second.
pub open spec fn pick_text(
    first: Option<SectionView>,
    second: Option<SectionView>,
    key: Seq<char>,
) -> Seq<char> {
    if answers(first, key) {
        field_text(first, key)->0
    } else {
        cell_text(second, key)
    }
}

/// The display text that a record has for an attribute name: that of the
/// primary section where it answers, else that of the secondary one.
pub open spec fn resolve(entry: ToolEntryView, key: Seq<char>) -> Seq<char> {
    pick_text(primary(entry), secondary(entry), key)
}

/// The normalized form of a record.
pub open spec fn normalized(entry: ToolEntryView) -> ToolItemView {
    ToolItemView {
        tool_name: entry.tool_name,
        essai_part: resolve(entry, "Message2"@),
        edp_num: resolve(entry, "Message1"@),
        manufacturer: resolve(entry, "Message3"@),
        holder_name: resolve(entry, "HolderName"@),
        outside_len: resolve(entry, "Length"@),
        gage_len: resolve(entry, "HLength"@),
        description: resolve(entry, "Description"@),
        diameter: resolve(entry, "Diameter"@),
        loc: resolve(entry, "CuttingLength"@),
        solfex: entry.solfex,
        milling: entry.milling_tool,
        drilling: entry.drilling_tool,
    }
}

/// The items of a catalog text: its records normalized, or none where the text
/// is no catalog.
pub open spec fn items_of_text(text: Seq<char>) -> Seq<ToolItemView> {
    match database_of_text(text) {
        Some(entries) => entries.map_values(|e: ToolEntryView| normalized(e)),
        None => Seq::empty(),
    }
}

/// Where the drilling section of a drilling tool has an attribute whose text
/// is not empty, the display text is that text, whatever the milling section
/// holds.
pub proof fn lemma_drilling_precedence(entry: ToolEntryView, key: Seq<char>)
    requires
        entry.sc_tool_type == "drilling"@,
        assoc_get(section_pairs(entry.drilling_tool), key) is Some,
        scalar_text(assoc_get(section_pairs(entry.drilling_tool), key)->0).len() > 0,
    ensures
        resolve(entry, key) == scalar_text(assoc_get(section_pairs(entry.drilling_tool), key)->0),
{
}

/// Where the milling section of a tool that is no drilling tool has an
/// attribute whose text is not empty, the display text is that text, whatever
/// the drilling section holds.
pub proof fn lemma_milling_precedence(entry: ToolEntryView, key: Seq<char>)
    requires
        entry.sc_tool_type != "drilling"@,
        assoc_get(section_pairs(entry.milling_tool), key) is Some,
        scalar_text(assoc_get(section_pairs(entry.milling_tool), key)->0).len() > 0,
    ensures
        resolve(entry, key) == scalar_text(assoc_get(section_pairs(entry.milling_tool), key)->0),
{
}

/// Where the primary section lacks an attribute, or gives it a value whose
/// text is empty, the display text is that of the secondary section, and
/// empty where the secondary section lacks the attribute too.
pub proof fn lemma_falls_through(entry: ToolEntryView, key: Seq<char>)
    requires
        !answers(primary(entry), key),
    ensures
        resolve(entry, key) == cell_text(secondary(entry), key),
{
}

/// Where neither the milling nor the drilling section has an attribute, the
/// display text is empty.
pub proof fn lemma_absent_is_empty(entry: ToolEntryView, key: Seq<char>)
    requires
        forall|i: int|
            0 <= i < section_pairs(entry.milling_tool).len() ==> (#[trigger] section_pairs(
                entry.milling_tool,
            )[i]).0 != key,
        forall|i: int|
            0 <= i < section_pairs(entry.drilling_tool).len() ==> (#[trigger] section_pairs(
                entry.drilling_tool,
            )[i]).0 != key,
    ensures
        resolve(entry, key) == Seq::<char>::empty(),
{
    lemma_assoc_get_some(section_pairs(entry.milling_tool), key);
    lemma_assoc_get_some(section_pairs(entry.drilling_tool), key);
}

/// The text that stands for a value on display.
pub fn val_to_string(v: &Scalar) -> (r: String)
    ensures
        r@ == scalar_text(v@),
{
    match v {
        Scalar::Text(s) => s.clone(),
        Scalar::Number(s) => s.clone(),
        Scalar::Boolean(b) => if *b {
            "true".to_owned()
        } else {
            "false".to_owned()
        },
        Scalar::Other => String::new(),
    }
}

/// The value of the first attribute of a list with the given name.
pub fn find_attribute<'a>(attributes: &'a Vec<Attribute>, key: &str) -> (r: Option<&'a Scalar>)
    ensures
        match r {
            Some(v) => assoc_get(attributes_view(attributes@), key@) == Some(v@),
            None => assoc_get(attributes_view(attributes@), key@) is None,
        },
{
    let wanted: String = key.to_owned();
    let ghost pairs = attributes_view(attributes@);
    let mut i: usize = 0;
    assert(pairs.skip(0) =~= pairs);
    while i < attributes.len()
        invariant
            i <= attributes.len(),
            wanted@ == key@,
            pairs == attributes_view(attributes@),
            assoc_get(pairs, key@) == assoc_get(pairs.skip(i as int), key@),
        decreases attributes.len() - i,
    {
        let a: &'a Attribute = &attributes[i];
        assert(pairs.skip(i as int)[0] == pairs[i as int]);
        if a.key == wanted {
            return Some(&a.value);
        }
        assert(pairs.skip(i as int).drop_first() == pairs.skip(i + 1));
        i += 1;
    }
    None
}

/// The text of an attribute of a section; `None` where the section is absent,
/// is no mapping, or has no such attribute.
pub fn field(sec: &Option<Section>, key: &str) -> (r: Option<String>)
    ensures
        match r {
            Some(s) => field_text(section_view(*sec), key@) == Some(s@),
            None => field_text(section_view(*sec), key@) is None,
        },
{
    match sec {
        Some(Section::Mapping(attributes)) => match find_attribute(attributes, key) {
            Some(v) => Some(val_to_string(v)),
            None => None,
        },
        _ => None,
    }
}

/// The text of an attribute from a first section where it has the attribute
/// with a text that is not empty; else from a second section; else empty.
pub fn pick(first: &Option<Section>, second: &Option<Section>, key: &str) -> (r: String)
    ensures
        r@ == pick_text(section_view(*first), section_view(*second), key@),
{
    if let Some(s) = field(first, key) {
        if !s.as_str().is_empty() {
            return s;
        }
    }
    match field(second, key) {
        Some(s) => s,
        None => String::new(),
    }
}

/// Normalizes a record: every display field is looked up in the primary
/// section; where that section lacks it, or gives it a value whose text is
/// empty, it is looked up in the secondary one; it is empty where that one
/// lacks it too. The drilling section is the primary one of a tool whose type
/// is `drilling`, the milling section that of any other.
pub fn normalize(t: ToolEntry) -> (r: ToolItem)
    ensures
        r@ == normalized(t@),
{
    let drilling_first = same_text(t.sc_tool_type.as_str(), "drilling");
    let (pri, sec) = if drilling_first {
        (&t.drilling_tool, &t.milling_tool)
    } else {
        (&t.milling_tool, &t.drilling_tool)
    };
    let essai_part = pick(pri, sec, "Message2");
    let edp_num = pick(pri, sec, "Message1");
    let manufacturer = pick(pri, sec, "Message3");
    let holder_name = pick(pri, sec, "HolderName");
    let outside_len = pick(pri, sec, "Length");
    let gage_len = pick(pri, sec, "HLength");
    let description = pick(pri, sec, "Description");
    let diameter = pick(pri, sec, "Diameter");
    let loc = pick(pri, sec, "CuttingLength");
    ToolItem {
        tool_name: t.tool_name,
        essai_part,
        edp_num,
        manufacturer,
        holder_name,
        outside_len,
        gage_len,
        description,
        diameter,
        loc,
        solfex: t.solfex,
        milling: t.milling_tool,
        drilling: t.drilling_tool,
    }
}

/// Normalizes the records of a catalog, in order.
pub fn normalize_all(database: ToolDatabase) -> (r: Vec<ToolItem>)
    ensures
        items_view(r@) == database@.map_values(|e: ToolEntryView| normalized(e)),
{
    let ghost entries = database@;
    let mut items: Vec<ToolItem> = Vec::new();
    for t in it: database.tools
        invariant
            it.seq().map_values(|t: ToolEntry| t@) == entries,
            items_view(items@) == entries.map_values(|e: ToolEntryView| normalized(e)).take(
                it.index(),
            ),
    {
        let ghost before = items_view(items@);
        let item = normalize(t);
        items.push(item);
        assert(items_view(items@) =~= before.push(item@));
        assert(entries.map_values(|e: ToolEntryView| normalized(e)).take(it.index() + 1)
            =~= entries.map_values(|e: ToolEntryView| normalized(e)).take(it.index()).push(
            item@,
        ));
    }
    assert(entries.map_values(|e: ToolEntryView| normalized(e)).take(entries.len() as int)
        =~= entries.map_values(|e: ToolEntryView| normalized(e)));
    items
}

/// Reads the text of a catalog into normalized records. A text that is no
/// JSON, or has not the shape of a catalog, gives no records.
pub fn parse_items(raw: &str) -> (r: Vec<ToolItem>)
    ensures
        items_view(r@) == items_of_text(raw@),
{
    match parse_database(raw) {
        Some(database) => normalize_all(database),
        None => {
            let items: Vec<ToolItem> = Vec::new();
            assert(items_view(items@) =~= Seq::empty());
            items
        },
    }
}

/// The rows of the table of a section over a list of names: one row for each
/// name, in order, with the text of the attribute of that name.
pub open spec fn table_of(section: Option<SectionView>, keys: Seq<Seq<char>>) -> Seq<
    (Seq<char>, Seq<char>),
> {
    Seq::new(keys.len(), |i: int| (keys[i], cell_text(section, keys[i])))
}

/// The texts of a list of rows.
pub open spec fn rows_view(rows: Seq<(String, String)>) -> Seq<(Seq<char>, Seq<char>)> {
    rows.map_values(|row: (String, String)| (row.0@, row.1@))
}

/// The rows of the table that shows a section: one for each of the given
/// names, blank where the section has no attribute of that name.
pub fn json_table(section: &Option<Section>, keys: &Vec<String>) -> (rows: Vec<(String, String)>)
    ensures
        rows_view(rows@) == table_of(section_view(*section), texts(keys@)),
{
    let mut rows: Vec<(String, String)> = Vec::new();
    let mut i: usize = 0;
    while i < keys.len()
        invariant
            i <= keys.len(),
            rows@.len() == i,
            forall|k: int|
                0 <= k < i ==> (#[trigger] rows@[k]).0@ == keys@[k]@ && rows@[k].1@ == cell_text(
                    section_view(*section),
                    keys@[k]@,
                ),
        decreases keys.len() - i,
    {
        let value = match field(section, keys[i].as_str()) {
            Some(s) => s,
            None => String::new(),
        };
        rows.push((keys[i].clone(), value));
        i += 1;
    }
    assert(rows_view(rows@) =~= table_of(section_view(*section), texts(keys@)));
    rows
}

} // verus!
