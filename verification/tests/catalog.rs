use essai_control_panel::item::{field, normalize, parse_items, pick, val_to_string, ToolItem};
use essai_control_panel::record::{
    parse_database, Attribute, Scalar, Section, ToolDatabase, ToolEntry,
};

fn attr(key: &str, value: Scalar) -> Attribute {
    Attribute { key: key.to_string(), value }
}

fn text(key: &str, value: &str) -> Attribute {
    attr(key, Scalar::Text(value.to_string()))
}

fn mapping(attributes: Vec<Attribute>) -> Option<Section> {
    Some(Section::Mapping(attributes))
}

fn entry(kind: &str, milling: Option<Section>, drilling: Option<Section>) -> ToolEntry {
    ToolEntry {
        tool_name: "T".to_string(),
        sc_tool_type: kind.to_string(),
        solfex: None,
        milling_tool: milling,
        drilling_tool: drilling,
    }
}

#[test]
fn drilling_tool_prefers_drilling_section() {
    let raw = r#"{"tools":[{"tool_name":"T1","sc_tool_type":"drilling","drilling_tool":{"Length":"10"},"milling_tool":{"Length":"99","HolderName":"H1"}}]}"#;
    let items = parse_items(raw);
    assert_eq!(items.len(), 1);
    assert_eq!(items[0].tool_name, "T1");
    assert_eq!(items[0].outside_len, "10");
    assert_eq!(items[0].holder_name, "H1");
    assert_eq!(items[0].essai_part, "");
    assert_eq!(items[0].solfex, None);
    assert_eq!(
        items[0].drilling,
        mapping(vec![text("Length", "10")])
    );
    assert_eq!(
        items[0].milling,
        mapping(vec![text("HolderName", "H1"), text("Length", "99")])
    );
}

#[test]
fn malformed_text_gives_no_records() {
    assert_eq!(parse_items("not json").len(), 0);
    assert_eq!(parse_items("").len(), 0);
    assert!(parse_database("not json").is_none());
    assert!(parse_database("").is_none());
}

#[test]
fn text_of_another_shape_gives_no_records() {
    assert!(parse_database("[]").is_none());
    assert!(parse_database("{}").is_none());
    assert!(parse_database(r#"{"tools":{}}"#).is_none());
    assert!(parse_database(r#"{"tools":null}"#).is_none());
    assert!(parse_database(r#"{"tools":[1]}"#).is_none());
    assert!(parse_database(r#"{"tools":[{"tool_name":"a"}]}"#).is_none());
    assert!(parse_database(r#"{"tools":[{"sc_tool_type":"a"}]}"#).is_none());
    assert!(parse_database(r#"{"tools":[{"tool_name":1,"sc_tool_type":"a"}]}"#).is_none());
    assert!(parse_database(r#"{"tools":[{"tool_name":"a","sc_tool_type":null}]}"#).is_none());
    let one_bad = r#"{"tools":[{"tool_name":"a","sc_tool_type":"b"},{"tool_name":"c"}]}"#;
    assert!(parse_database(one_bad).is_none());
    assert_eq!(parse_items(one_bad).len(), 0);
}

#[test]
fn empty_catalog_is_loaded() {
    let database = parse_database(r#"{"tools":[]}"#);
    assert_eq!(database, Some(ToolDatabase { tools: vec![] }));
    assert_eq!(parse_items(r#"{"tools":[]}"#).len(), 0);
}

#[test]
fn records_keep_their_order_and_other_members_do_not_count() {
    let raw = r#"{"version":3,"tools":[
        {"tool_name":"B","sc_tool_type":"milling","extra":[1,2]},
        {"tool_name":"A","sc_tool_type":"drilling"}]}"#;
    let database = parse_database(raw).unwrap();
    assert_eq!(database.tools.len(), 2);
    assert_eq!(database.tools[0].tool_name, "B");
    assert_eq!(database.tools[0].sc_tool_type, "milling");
    assert_eq!(database.tools[1].tool_name, "A");
    assert_eq!(database.tools[1].sc_tool_type, "drilling");
    assert_eq!(database.tools[0].solfex, None);
    assert_eq!(database.tools[0].milling_tool, None);
    assert_eq!(database.tools[0].drilling_tool, None);
}

#[test]
fn sections_are_read_by_their_member_names() {
    let raw = r#"{"tools":[{"tool_name":"T","sc_tool_type":"x",
        "Solfex":{"S":"s"},"milling_tool":{"M":"m"},"drilling_tool":{"D":"d"}}]}"#;
    let database = parse_database(raw).unwrap();
    let t = &database.tools[0];
    assert_eq!(t.solfex, mapping(vec![text("S", "s")]));
    assert_eq!(t.milling_tool, mapping(vec![text("M", "m")]));
    assert_eq!(t.drilling_tool, mapping(vec![text("D", "d")]));
}

#[test]
fn null_section_is_absent_and_other_shapes_are_no_mapping() {
    let raw = r#"{"tools":[{"tool_name":"T","sc_tool_type":"x",
        "Solfex":null,"milling_tool":[1,2],"drilling_tool":"text"}]}"#;
    let database = parse_database(raw).unwrap();
    let t = &database.tools[0];
    assert_eq!(t.solfex, None);
    assert_eq!(t.milling_tool, Some(Section::Other));
    assert_eq!(t.drilling_tool, Some(Section::Other));
    let items = parse_items(raw);
    assert_eq!(items[0].outside_len, "");
    assert_eq!(items[0].milling, Some(Section::Other));
}

#[test]
fn attribute_values_of_every_shape() {
    let raw = r#"{"tools":[{"tool_name":"T","sc_tool_type":"x","Solfex":
        {"a":"s","b":10,"c":-5,"d":1.5,"e":true,"f":false,"g":null,"h":[1],"i":{"k":1}}}]}"#;
    let database = parse_database(raw).unwrap();
    assert_eq!(
        database.tools[0].solfex,
        mapping(vec![
            text("a", "s"),
            attr("b", Scalar::Number("10".to_string())),
            attr("c", Scalar::Number("-5".to_string())),
            attr("d", Scalar::Number("1.5".to_string())),
            attr("e", Scalar::Boolean(true)),
            attr("f", Scalar::Boolean(false)),
            attr("g", Scalar::Other),
            attr("h", Scalar::Other),
            attr("i", Scalar::Other),
        ])
    );
}

#[test]
fn numbers_are_shown_in_decimal_form() {
    let raw = r#"{"tools":[{"tool_name":"T","sc_tool_type":"milling","milling_tool":
        {"Length":12,"HLength":0.25,"Diameter":-3,"CuttingLength":1e2,"Message1":18446744073709551615}}]}"#;
    let items = parse_items(raw);
    assert_eq!(items[0].outside_len, "12");
    assert_eq!(items[0].gage_len, "0.25");
    assert_eq!(items[0].diameter, "-3");
    assert_eq!(items[0].loc, "100.0");
    assert_eq!(items[0].edp_num, "18446744073709551615");
}

#[test]
fn catalog_from_a_json_value() {
    let mut tool = serde_json::Map::new();
    tool.insert("tool_name".to_string(), serde_json::Value::String("T9".to_string()));
    tool.insert("sc_tool_type".to_string(), serde_json::Value::String("drilling".to_string()));
    let mut section = serde_json::Map::new();
    section.insert("Diameter".to_string(), serde_json::Value::from(8));
    tool.insert("drilling_tool".to_string(), serde_json::Value::Object(section));
    let mut document = serde_json::Map::new();
    document.insert(
        "tools".to_string(),
        serde_json::Value::Array(vec![serde_json::Value::Object(tool)]),
    );
    let database = ToolDatabase::from_json(&serde_json::Value::Object(document)).unwrap();
    assert_eq!(database.tools.len(), 1);
    assert_eq!(database.tools[0].tool_name, "T9");
    assert_eq!(
        database.tools[0].drilling_tool,
        mapping(vec![attr("Diameter", Scalar::Number("8".to_string()))])
    );
    assert!(ToolDatabase::from_json(&serde_json::Value::Null).is_none());
    assert!(ToolEntry::from_json(&serde_json::Value::Bool(true)).is_none());
}

#[test]
fn value_texts() {
    assert_eq!(val_to_string(&Scalar::Text("abc".to_string())), "abc");
    assert_eq!(val_to_string(&Scalar::Text(String::new())), "");
    assert_eq!(val_to_string(&Scalar::Number("3.25".to_string())), "3.25");
    assert_eq!(val_to_string(&Scalar::Boolean(true)), "true");
    assert_eq!(val_to_string(&Scalar::Boolean(false)), "false");
    assert_eq!(val_to_string(&Scalar::Other), "");
}

#[test]
fn field_of_a_section() {
    let section = mapping(vec![text("A", "1"), attr("B", Scalar::Other), text("C", "")]);
    assert_eq!(field(&section, "A"), Some("1".to_string()));
    assert_eq!(field(&section, "B"), Some(String::new()));
    assert_eq!(field(&section, "C"), Some(String::new()));
    assert_eq!(field(&section, "D"), None);
    assert_eq!(field(&section, "a"), None);
    assert_eq!(field(&None, "A"), None);
    assert_eq!(field(&Some(Section::Other), "A"), None);
    let twice = mapping(vec![text("A", "first"), text("A", "second")]);
    assert_eq!(field(&twice, "A"), Some("first".to_string()));
}

#[test]
fn pick_asks_the_first_section_then_the_second() {
    let first = mapping(vec![text("K", "one")]);
    let second = mapping(vec![text("K", "two"), text("L", "other")]);
    assert_eq!(pick(&first, &second, "K"), "one");
    assert_eq!(pick(&first, &second, "L"), "other");
    assert_eq!(pick(&first, &second, "M"), "");
    assert_eq!(pick(&None, &second, "K"), "two");
    assert_eq!(pick(&Some(Section::Other), &second, "K"), "two");
    let blank = mapping(vec![text("K", ""), attr("L", Scalar::Other)]);
    assert_eq!(pick(&blank, &second, "K"), "two");
    assert_eq!(pick(&blank, &second, "L"), "other");
    assert_eq!(pick(&second, &blank, "K"), "two");
    assert_eq!(pick(&blank, &None, "K"), "");
    assert_eq!(pick(&blank, &blank, "K"), "");
}

#[test]
fn drilling_section_comes_first_for_a_drilling_tool() {
    let item = normalize(entry(
        "drilling",
        mapping(vec![text("Diameter", "m")]),
        mapping(vec![text("Diameter", "d")]),
    ));
    assert_eq!(item.diameter, "d");
}

#[test]
fn milling_section_comes_first_for_any_other_tool() {
    for kind in ["milling", "", "Drilling", "drilling ", "turning"] {
        let item = normalize(entry(
            kind,
            mapping(vec![text("Diameter", "m")]),
            mapping(vec![text("Diameter", "d")]),
        ));
        assert_eq!(item.diameter, "m");
    }
}

#[test]
fn an_empty_primary_value_falls_through_to_the_secondary() {
    let item = normalize(entry(
        "drilling",
        mapping(vec![text("Length", "99"), text("HLength", "7")]),
        mapping(vec![text("Length", ""), attr("HLength", Scalar::Other)]),
    ));
    assert_eq!(item.outside_len, "99");
    assert_eq!(item.gage_len, "7");
    let item = normalize(entry(
        "milling",
        mapping(vec![text("Length", ""), attr("Diameter", Scalar::Other)]),
        mapping(vec![text("Length", "5")]),
    ));
    assert_eq!(item.outside_len, "5");
    assert_eq!(item.diameter, "");
}

#[test]
fn an_empty_primary_value_in_a_parsed_catalog() {
    let raw = r#"{"tools":[{"tool_name":"T1","sc_tool_type":"drilling","drilling_tool":{"Length":"","Diameter":null,"HLength":[]},"milling_tool":{"Length":"99","Diameter":8,"HLength":false}}]}"#;
    let items = parse_items(raw);
    assert_eq!(items[0].outside_len, "99");
    assert_eq!(items[0].diameter, "8");
    assert_eq!(items[0].gage_len, "false");
}

#[test]
fn an_empty_secondary_value_is_shown_as_it_is() {
    let item = normalize(entry(
        "drilling",
        mapping(vec![text("Length", "")]),
        mapping(vec![text("Length", "")]),
    ));
    assert_eq!(item.outside_len, "");
    let item = normalize(entry("drilling", mapping(vec![text("Length", "")]), None));
    assert_eq!(item.outside_len, "");
}

#[test]
fn field_absent_from_both_sections_is_empty() {
    let item = normalize(entry(
        "milling",
        mapping(vec![text("Length", "1")]),
        mapping(vec![text("HLength", "2")]),
    ));
    assert_eq!(item.description, "");
    assert_eq!(item.manufacturer, "");
    let bare = normalize(entry("drilling", None, None));
    assert_eq!(bare.outside_len, "");
    assert_eq!(bare.loc, "");
}

#[test]
fn every_display_field_has_its_attribute_name() {
    let section = mapping(vec![
        text("Message2", "part"),
        text("Message1", "edp"),
        text("Message3", "maker"),
        text("HolderName", "holder"),
        text("Length", "len"),
        text("HLength", "gage"),
        text("Description", "desc"),
        text("Diameter", "dia"),
        text("CuttingLength", "cut"),
    ]);
    let solfex = mapping(vec![text("Length", "never")]);
    let item: ToolItem = normalize(ToolEntry {
        tool_name: "N".to_string(),
        sc_tool_type: "milling".to_string(),
        solfex: solfex.clone(),
        milling_tool: section.clone(),
        drilling_tool: None,
    });
    assert_eq!(item.tool_name, "N");
    assert_eq!(item.essai_part, "part");
    assert_eq!(item.edp_num, "edp");
    assert_eq!(item.manufacturer, "maker");
    assert_eq!(item.holder_name, "holder");
    assert_eq!(item.outside_len, "len");
    assert_eq!(item.gage_len, "gage");
    assert_eq!(item.description, "desc");
    assert_eq!(item.diameter, "dia");
    assert_eq!(item.loc, "cut");
    assert_eq!(item.solfex, solfex);
    assert_eq!(item.milling, section);
    assert_eq!(item.drilling, None);
}

#[test]
fn solfex_section_answers_no_display_field() {
    let item = normalize(ToolEntry {
        tool_name: "N".to_string(),
        sc_tool_type: "milling".to_string(),
        solfex: mapping(vec![text("Length", "5")]),
        milling_tool: None,
        drilling_tool: None,
    });
    assert_eq!(item.outside_len, "");
}
