//! The raw records of the catalog: what a tool says of itself in the document,
//! before any field is resolved.

use crate::json::{classify, elements_model, json_model, json_of_text, members_model, parse_json};
use crate::json::{Json, JsonNode};
use vstd::prelude::*;

verus! {

/// The value of one attribute of a section.
#[derive(Clone, Debug, PartialEq, Eq)]
pub enum Scalar {
    /// A string.
    Text(String),
    /// A number, held as its decimal text.
    Number(String),
    /// `true` or `false`.
    Boolean(bool),
    /// Anything else: null, an array, an object.
    Other,
}

/// A value of an attribute as a mathematical value.
pub enum ScalarView {
    Text(Seq<char>),
    Number(Seq<char>),
    Boolean(bool),
    Other,
}

impl View for Scalar {
    type V = ScalarView;

    open spec fn view(&self) -> ScalarView {
        match *self {
            Scalar::Text(s) => ScalarView::Text(s@),
            Scalar::Number(s) => ScalarView::Number(s@),
            Scalar::Boolean(b) => ScalarView::Boolean(b),
            Scalar::Other => ScalarView::Other,
        }
    }
}

/// One attribute of a section: a name and its value.
#[derive(Clone, Debug, PartialEq, Eq)]
pub struct Attribute {
    pub key: String,
    pub value: Scalar,
}

impl View for Attribute {
    type V = (Seq<char>, ScalarView);

    open spec fn view(&self) -> (Seq<char>, ScalarView) {
        (self.key@, self.value@)
    }
}

/// The attributes of a list, each as a pair of texts and values.
pub open spec fn attributes_view(v: Seq<Attribute>) -> Seq<(Seq<char>, ScalarView)> {
    v.map_values(|a: Attribute| a@)
}

/// An attribute section of a record as the document gives it.
#[derive(Clone, Debug, PartialEq, Eq)]
pub enum Section {
    /// A mapping from names to values, in the order of the document model.
    Mapping(Vec<Attribute>),
    /// Present in the document, but not a mapping.
    Other,
}

/// A section as a mathematical value: the pairs of a mapping in order.
pub enum SectionView {
    Mapping(Seq<(Seq<char>, ScalarView)>),
    Other,
}

impl View for Section {
    type V = SectionView;

    open spec fn view(&self) -> SectionView {
        match *self {
            Section::Mapping(attributes) => SectionView::Mapping(attributes_view(attributes@)),
            Section::Other => SectionView::Other,
        }
    }
}

/// The view of a section that may be absent.
pub open spec fn section_view(s: Option<Section>) -> Option<SectionView> {
    match s {
        Some(section) => Some(section@),
        None => None,
    }
}

/// The name/value pairs of a section; none where it is absent or no mapping.
pub open spec fn section_pairs(s: Option<SectionView>) -> Seq<(Seq<char>, ScalarView)> {
    match s {
        Some(SectionView::Mapping(pairs)) => pairs,
        _ => Seq::empty(),
    }
}

/// The value that a list of pairs gives to a key: that of the first pair with
/// this key, if there is one.
pub open spec fn assoc_get<T>(pairs: Seq<(Seq<char>, T)>, key: Seq<char>) -> Option<T>
    decreases pairs.len(),
{
    if pairs.len() == 0 {
        None
    } else if pairs[0].0 == key {
        Some(pairs[0].1)
    } else {
        assoc_get(pairs.drop_first(), key)
    }
}

/// A key is given a value exactly if one of the pairs has it.
pub proof fn lemma_assoc_get_some<T>(pairs: Seq<(Seq<char>, T)>, key: Seq<char>)
    ensures
        assoc_get(pairs, key) is Some <==> exists|i: int|
            0 <= i < pairs.len() && (#[trigger] pairs[i]).0 == key,
    decreases pairs.len(),
{
    if pairs.len() > 0 {
        if pairs[0].0 != key {
            let rest = pairs.drop_first();
            lemma_assoc_get_some(rest, key);
            if assoc_get(rest, key) is Some {
                let i = choose|i: int| 0 <= i < rest.len() && (#[trigger] rest[i]).0 == key;
                assert(pairs[i + 1].0 == key);
            }
            if exists|i: int| 0 <= i < pairs.len() && (#[trigger] pairs[i]).0 == key {
                let i = choose|i: int| 0 <= i < pairs.len() && (#[trigger] pairs[i]).0 == key;
                assert(rest[i - 1].0 == key);
            }
        }
    }
}

/// A raw record of the catalog.
#[derive(Clone, Debug, PartialEq, Eq)]
pub struct ToolEntry {
    pub tool_name: String,
    pub sc_tool_type: String,
    pub solfex: Option<Section>,
    pub milling_tool: Option<Section>,
    pub drilling_tool: Option<Section>,
}

/// A raw record as a mathematical value.
pub struct ToolEntryView {
    pub tool_name: Seq<char>,
    pub sc_tool_type: Seq<char>,
    pub solfex: Option<SectionView>,
    pub milling_tool: Option<SectionView>,
    pub drilling_tool: Option<SectionView>,
}

impl View for ToolEntry {
    type V = ToolEntryView;

    open spec fn view(&self) -> ToolEntryView {
        ToolEntryView {
            tool_name: self.tool_name@,
            sc_tool_type: self.sc_tool_type@,
            solfex: section_view(self.solfex),
            milling_tool: section_view(self.milling_tool),
            drilling_tool: section_view(self.drilling_tool),
        }
    }
}

/// The catalog document: its records in order.
#[derive(Clone, Debug, PartialEq, Eq)]
pub struct ToolDatabase {
    pub tools: Vec<ToolEntry>,
}

impl View for ToolDatabase {
    type V = Seq<ToolEntryView>;

    open spec fn view(&self) -> Seq<ToolEntryView> {
        entries_view(self.tools@)
    }
}

/// The scalar that a JSON value stands for as an attribute's value.
pub open spec fn scalar_of_json(j: Json) -> ScalarView {
    match j {
        Json::Text(t) => ScalarView::Text(t),
        Json::Number(t) => ScalarView::Number(t),
        Json::Bool(b) => ScalarView::Boolean(b),
        _ => ScalarView::Other,
    }
}

/// The pairs of a section from the members of a JSON object.
pub open spec fn pairs_of_json(members: Seq<(Seq<char>, Json)>) -> Seq<(Seq<char>, ScalarView)> {
    members.map_values(|m: (Seq<char>, Json)| (m.0, scalar_of_json(m.1)))
}

/// The section that a JSON value stands for: a mapping if it is an object.
pub open spec fn section_of_json(j: Json) -> SectionView {
    match j {
        Json::Object(members) => SectionView::Mapping(pairs_of_json(members)),
        _ => SectionView::Other,
    }
}

/// The section under a key of a record: absent where the record has no such
/// member or gives it as null.
pub open spec fn optional_section(members: Seq<(Seq<char>, Json)>, key: Seq<char>) -> Option<
    SectionView,
> {
    match assoc_get(members, key) {
        None => None,
        Some(Json::Null) => None,
        Some(j) => Some(section_of_json(j)),
    }
}

/// The record that a JSON value stands for: an object whose members
/// `tool_name` and `sc_tool_type` are strings. Its sections are the members
/// `Solfex`, `milling_tool` and `drilling_tool`; other members do not count.
pub open spec fn entry_of_json(j: Json) -> Option<ToolEntryView> {
    match j {
        Json::Object(members) => match (
            assoc_get(members, "tool_name"@),
            assoc_get(members, "sc_tool_type"@),
        ) {
            (Some(Json::Text(name)), Some(Json::Text(kind))) => Some(
                ToolEntryView {
                    tool_name: name,
                    sc_tool_type: kind,
                    solfex: optional_section(members, "Solfex"@),
                    milling_tool: optional_section(members, "milling_tool"@),
                    drilling_tool: optional_section(members, "drilling_tool"@),
                },
            ),
            _ => None,
        },
        _ => None,
    }
}

/// The records of an array, if every element is a record.
pub open spec fn entries_of_json(items: Seq<Json>) -> Option<Seq<ToolEntryView>> {
    if forall|i: int| 0 <= i < items.len() ==> (#[trigger] entry_of_json(items[i])) is Some {
        Some(items.map_values(|j: Json| entry_of_json(j)->0))
    } else {
        None
    }
}

/// The catalog that a JSON document stands for: an object whose member
/// `tools` is an array of records.
pub open spec fn database_of_json(j: Json) -> Option<Seq<ToolEntryView>> {
    match j {
        Json::Object(members) => match assoc_get(members, "tools"@) {
            Some(Json::Array(items)) => entries_of_json(items),
            _ => None,
        },
        _ => None,
    }
}

/// The catalog that a text stands for, where it parses as JSON and has the
/// shape of a catalog.
pub open spec fn database_of_text(text: Seq<char>) -> Option<Seq<ToolEntryView>> {
    match json_of_text(text) {
        Some(j) => database_of_json(j),
        None => None,
    }
}

/// The view of a catalog that may have failed to load.
pub open spec fn database_view(d: Option<ToolDatabase>) -> Option<Seq<ToolEntryView>> {
    match d {
        Some(database) => Some(database@),
        None => None,
    }
}

/// The first member of an object with the given key.
pub fn find_member<'a>(entries: &Vec<(&'a String, &'a serde_json::Value)>, key: &str) -> (r:
    Option<&'a serde_json::Value>)
    ensures
        match r {
            Some(v) => assoc_get(members_model(entries@), key@) == Some(json_model(*v)),
            None => assoc_get(members_model(entries@), key@) is None,
        },
{
    let wanted: String = key.to_owned();
    let ghost members = members_model(entries@);
    let mut i: usize = 0;
    assert(members.skip(0) =~= members);
    while i < entries.len()
        invariant
            i <= entries.len(),
            wanted@ == key@,
            members == members_model(entries@),
            assoc_get(members, key@) == assoc_get(members.skip(i as int), key@),
        decreases entries.len() - i,
    {
        let e = &entries[i];
        assert(members.skip(i as int)[0] == members[i as int]);
        if *e.0 == wanted {
            return Some(e.1);
        }
        assert(members.skip(i as int).drop_first() == members.skip(i + 1));
        i += 1;
    }
    None
}

/// Reads a JSON value as the value of an attribute.
pub fn scalar_from_json(v: &serde_json::Value) -> (r: Scalar)
    ensures
        r@ == scalar_of_json(json_model(*v)),
{
    match classify(v) {
        JsonNode::Text(s) => Scalar::Text(s.clone()),
        JsonNode::Number(s) => Scalar::Number(s),
        JsonNode::Bool(b) => Scalar::Boolean(b),
        _ => Scalar::Other,
    }
}

/// Reads a JSON value as a section.
pub fn section_from_json(v: &serde_json::Value) -> (r: Section)
    ensures
        r@ == section_of_json(json_model(*v)),
{
    match classify(v) {
        JsonNode::Object(entries) => {
            let mut attributes: Vec<Attribute> = Vec::new();
            let mut i: usize = 0;
            while i < entries.len()
                invariant
                    i <= entries.len(),
                    attributes_view(attributes@) == pairs_of_json(members_model(entries@)).take(
                        i as int,
                    ),
                decreases entries.len() - i,
            {
                let e = &entries[i];
                let ghost before = attributes_view(attributes@);
                let attribute = Attribute { key: e.0.clone(), value: scalar_from_json(e.1) };
                attributes.push(attribute);
                assert(attributes_view(attributes@) =~= before.push(attribute@));
                assert(pairs_of_json(members_model(entries@)).take(i + 1) =~= pairs_of_json(
                    members_model(entries@),
                ).take(i as int).push(attribute@));
                i += 1;
            }
            assert(pairs_of_json(members_model(entries@)).take(i as int) =~= pairs_of_json(
                members_model(entries@),
            ));
            Section::Mapping(attributes)
        },
        _ => Section::Other,
    }
}

/// Reads the section under a key of a record.
pub fn optional_section_from_json<'a>(
    entries: &Vec<(&'a String, &'a serde_json::Value)>,
    key: &str,
) -> (r: Option<Section>)
    ensures
        section_view(r) == optional_section(members_model(entries@), key@),
{
    match find_member(entries, key) {
        None => None,
        Some(v) => match classify(v) {
            JsonNode::Null => None,
            _ => Some(section_from_json(v)),
        },
    }
}

/// The string under a key of a record, if there is one.
fn text_member<'a>(entries: &Vec<(&'a String, &'a serde_json::Value)>, key: &str) -> (r: Option<
    String,
>)
    ensures
        match r {
            Some(s) => assoc_get(members_model(entries@), key@) == Some(Json::Text(s@)),
            None => !(assoc_get(members_model(entries@), key@) matches Some(Json::Text(_))),
        },
{
    match find_member(entries, key) {
        None => None,
        Some(v) => match classify(v) {
            JsonNode::Text(s) => Some(s.clone()),
            _ => None,
        },
    }
}

impl ToolEntry {
    /// Reads a JSON value as a record; `None` where it has not the shape of one.
    pub fn from_json(v: &serde_json::Value) -> (r: Option<ToolEntry>)
        ensures
            match r {
                Some(entry) => entry_of_json(json_model(*v)) == Some(entry@),
                None => entry_of_json(json_model(*v)) is None,
            },
    {
        match classify(v) {
            JsonNode::Object(entries) => {
                let name = text_member(&entries, "tool_name");
                let kind = text_member(&entries, "sc_tool_type");
                match (name, kind) {
                    (Some(tool_name), Some(sc_tool_type)) => Some(
                        ToolEntry {
                            tool_name,
                            sc_tool_type,
                            solfex: optional_section_from_json(&entries, "Solfex"),
                            milling_tool: optional_section_from_json(&entries, "milling_tool"),
                            drilling_tool: optional_section_from_json(&entries, "drilling_tool"),
                        },
                    ),
                    _ => None,
                }
            },
            _ => None,
        }
    }
}

/// The views of a list of records.
pub open spec fn entries_view(tools: Seq<ToolEntry>) -> Seq<ToolEntryView> {
    tools.map_values(|t: ToolEntry| t@)
}

/// Reads the elements of a JSON array as records; `None` as soon as one of
/// them has not the shape of a record.
pub fn entries_from_json(items: &Vec<serde_json::Value>) -> (r: Option<Vec<ToolEntry>>)
    ensures
        match r {
            Some(tools) => entries_of_json(elements_model(items@)) == Some(entries_view(tools@)),
            None => entries_of_json(elements_model(items@)) is None,
        },
{
    let mut tools: Vec<ToolEntry> = Vec::new();
    let ghost models = elements_model(items@);
    let mut i: usize = 0;
    while i < items.len()
        invariant
            i <= items.len(),
            models == elements_model(items@),
            tools@.len() == i,
            forall|k: int|
                0 <= k < i ==> (#[trigger] entry_of_json(models[k])) == Some(tools@[k]@),
        decreases items.len() - i,
    {
        match ToolEntry::from_json(&items[i]) {
            Some(entry) => {
                tools.push(entry);
            },
            None => {
                assert(entry_of_json(models[i as int]) is None);
                return None;
            },
        }
        i += 1;
    }
    assert(entries_view(tools@) =~= entries_of_json(models)->0);
    Some(tools)
}

impl ToolDatabase {
    /// Reads a JSON document as a catalog; `None` where it has not the shape
    /// of one.
    pub fn from_json(v: &serde_json::Value) -> (r: Option<ToolDatabase>)
        ensures
            database_view(r) == database_of_json(json_model(*v)),
    {
        match classify(v) {
            JsonNode::Object(entries) => match find_member(&entries, "tools") {
                Some(list) => match classify(list) {
                    JsonNode::Array(items) => match entries_from_json(items) {
                        Some(tools) => Some(ToolDatabase { tools }),
                        None => None,
                    },
                    _ => None,
                },
                None => None,
            },
            _ => None,
        }
    }
}

/// Parses the text of a catalog. `None` where the text is no JSON or has not
/// the shape of a catalog.
pub fn parse_database(raw: &str) -> (r: Option<ToolDatabase>)
    ensures
        database_view(r) == database_of_text(raw@),
{
    match parse_json(raw) {
        Some(v) => ToolDatabase::from_json(&v),
        None => None,
    }
}

} // verus!
