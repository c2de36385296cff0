use essai_control_panel::filter::{name_matches, passes, ToolFilter};
use essai_control_panel::item::{Schema, ToolItem};
use essai_control_panel::state::{local_db, DBSource, ViewState, ONLINE_DB};

const CATALOG: &str = r#"{"tools":[
    {"tool_name":"Drill 8mm","sc_tool_type":"drilling",
     "Solfex":{"Grade":"K20","Coating":"TiN"},
     "drilling_tool":{"Message2":"P-100","Message3":"Sandvik","HolderName":"H1","Diameter":8}},
    {"tool_name":"End Mill 10","sc_tool_type":"milling",
     "Solfex":{"Grade":"P10"},
     "milling_tool":{"Message2":"P-100","Message3":"Iscar","HolderName":"H2","Length":40}},
    {"tool_name":"Face Mill","sc_tool_type":"milling",
     "milling_tool":{"Message3":"Sandvik","HolderName":"H1"}},
    {"tool_name":"Tap M6","sc_tool_type":"tapping",
     "milling_tool":{"Message2":"P-200","Message3":"","HolderName":"H1"}}]}"#;

fn item(name: &str, part: &str, maker: &str, holder: &str) -> ToolItem {
    ToolItem {
        tool_name: name.to_string(),
        essai_part: part.to_string(),
        edp_num: String::new(),
        manufacturer: maker.to_string(),
        holder_name: holder.to_string(),
        outside_len: String::new(),
        gage_len: String::new(),
        description: String::new(),
        diameter: String::new(),
        loc: String::new(),
        solfex: None,
        milling: None,
        drilling: None,
    }
}

fn strings(v: &[&str]) -> Vec<String> {
    v.iter().map(|s| s.to_string()).collect()
}

#[test]
fn manufacturer_filter_rejects_before_the_tool_filter() {
    let it = item("Drill", "P-1", "Sandvik", "H1");
    let family = Some(ToolFilter::Family("P-1".to_string()));
    assert!(passes(&it, &None, &family, ""));
    assert!(passes(&it, &Some("Sandvik".to_string()), &family, ""));
    assert!(!passes(&it, &Some("Iscar".to_string()), &family, ""));
    let class = Some(ToolFilter::Class("P-1".to_string(), "H1".to_string()));
    assert!(passes(&it, &None, &class, ""));
    assert!(!passes(&it, &Some("Iscar".to_string()), &class, ""));
    assert!(!passes(&it, &Some("Iscar".to_string()), &None, ""));
    assert!(!passes(&it, &Some("sandvik".to_string()), &None, ""));
}

#[test]
fn tool_filter_decides_without_the_search() {
    let it = item("Drill", "P-1", "Sandvik", "H1");
    let family = Some(ToolFilter::Family("P-1".to_string()));
    assert!(passes(&it, &None, &family, "no such name"));
    let other = Some(ToolFilter::Family("P-2".to_string()));
    assert!(!passes(&it, &None, &other, "Drill"));
    assert!(!passes(&it, &None, &other, ""));
    let class = Some(ToolFilter::Class("P-1".to_string(), "H2".to_string()));
    assert!(!passes(&it, &None, &class, ""));
    let class = Some(ToolFilter::Class("P-2".to_string(), "H1".to_string()));
    assert!(!passes(&it, &None, &class, ""));
}

#[test]
fn search_is_over_the_name_and_ignores_case() {
    let it = item("End Mill 10", "", "", "");
    assert!(passes(&it, &None, &None, ""));
    assert!(passes(&it, &None, &None, "mill"));
    assert!(passes(&it, &None, &None, "MILL"));
    assert!(passes(&it, &None, &None, "End Mill 10"));
    assert!(passes(&it, &None, &None, "d m"));
    assert!(!passes(&it, &None, &None, "drill"));
    assert!(!passes(&it, &None, &None, "End Mill 100"));
    assert!(passes(&it, &Some(String::new()), &None, "end"));
    assert!(name_matches("ÉCOLE", "la petite école"));
    assert!(name_matches("", ""));
    assert!(!name_matches("a", ""));
}

#[test]
fn filter_labels() {
    assert_eq!(ToolFilter::Family("P-1".to_string()).label(), "Family: P-1");
    assert_eq!(
        ToolFilter::Class("P-1".to_string(), "H 2".to_string()).label(),
        "Class: P-1 | H 2"
    );
    assert_eq!(ToolFilter::Class(String::new(), String::new()).label(), "Class:  | ");
}

#[test]
fn sources() {
    assert_eq!(local_db(), "MasterToolDatabase.txt");
    assert!(ONLINE_DB.starts_with("https://"));
    assert!(ONLINE_DB.ends_with("/MasterToolDatabase.txt"));
}

#[test]
fn new_state_holds_the_catalog_and_what_follows_from_it() {
    let state = ViewState::new(DBSource::Online, CATALOG);
    assert_eq!(state.source(), DBSource::Online);
    assert_eq!(state.items().len(), 4);
    assert_eq!(state.items()[0].tool_name, "Drill 8mm");
    assert_eq!(state.items()[0].diameter, "8");
    assert_eq!(state.items()[1].outside_len, "40");
    assert_eq!(state.manufacturers(), &strings(&["Iscar", "Sandvik"]));
    assert_eq!(state.keys(Schema::Solfex), &strings(&["Coating", "Grade"]));
    assert_eq!(
        state.keys(Schema::Milling),
        &strings(&["HolderName", "Length", "Message2", "Message3"])
    );
    assert_eq!(
        state.keys(Schema::Drilling),
        &strings(&["Diameter", "HolderName", "Message2", "Message3"])
    );
    assert_eq!(state.search(), "");
    assert_eq!(state.manufacturer_filter(), &None);
    assert_eq!(state.tool_filter(), &None);
    assert_eq!(state.selected(), None);
    assert_eq!(state.active_tab(), Schema::Solfex);
    assert_eq!(Schema::default(), Schema::Solfex);
    assert!(!state.show_local_warning());
    assert_eq!(state.chip(), None);
    assert_eq!(state.visible(), vec![0, 1, 2, 3]);
}

#[test]
fn state_from_a_text_that_is_no_catalog_is_empty() {
    let state = ViewState::new(DBSource::Local, "not json");
    assert_eq!(state.source(), DBSource::Local);
    assert_eq!(state.items().len(), 0);
    assert_eq!(state.manufacturers().len(), 0);
    assert_eq!(state.keys(Schema::Solfex).len(), 0);
    assert_eq!(state.visible(), Vec::<usize>::new());
    assert!(state.selected_item().is_none());
    assert_eq!(state.table_rows(), Vec::<(String, String)>::new());
}

#[test]
fn reload_clears_the_selection() {
    let mut state = ViewState::new(DBSource::Online, CATALOG);
    state.click_item(2);
    assert_eq!(state.selected(), Some(2));
    state.reload(CATALOG);
    assert_eq!(state.selected(), None);
    assert_eq!(state.items().len(), 4);
    state.click_item(3);
    state.reload("");
    assert_eq!(state.selected(), None);
    assert_eq!(state.items().len(), 0);
    state.reload(CATALOG);
    assert_eq!(state.selected(), None);
}

#[test]
fn reload_replaces_records_and_derived_lists_and_clears_filters() {
    let mut state = ViewState::new(DBSource::Online, CATALOG);
    state.set_search("mill".to_string());
    state.set_manufacturer_filter(Some("Sandvik".to_string()));
    state.show_family(0);
    state.select_tab(Schema::Drilling);
    state.select_source(DBSource::Local);
    state.reload(
        r#"{"tools":[{"tool_name":"Only","sc_tool_type":"milling",
            "Solfex":{"New":1},"milling_tool":{"Message3":"Walter"}}]}"#,
    );
    assert_eq!(state.items().len(), 1);
    assert_eq!(state.items()[0].tool_name, "Only");
    assert_eq!(state.manufacturers(), &strings(&["Walter"]));
    assert_eq!(state.keys(Schema::Solfex), &strings(&["New"]));
    assert_eq!(state.keys(Schema::Milling), &strings(&["Message3"]));
    assert_eq!(state.keys(Schema::Drilling), &Vec::<String>::new());
    assert_eq!(state.selected(), None);
    assert_eq!(state.manufacturer_filter(), &None);
    assert_eq!(state.tool_filter(), &None);
    assert_eq!(state.search(), "mill");
    assert_eq!(state.active_tab(), Schema::Drilling);
    assert_eq!(state.source(), DBSource::Local);
    assert!(state.show_local_warning());
}

#[test]
fn choosing_a_source() {
    let mut state = ViewState::new(DBSource::Online, CATALOG);
    assert!(!state.select_source(DBSource::Online));
    assert!(!state.show_local_warning());
    assert!(state.select_source(DBSource::Local));
    assert_eq!(state.source(), DBSource::Local);
    assert!(state.show_local_warning());
    state.dismiss_warning();
    assert!(!state.show_local_warning());
    assert!(!state.select_source(DBSource::Local));
    assert!(state.show_local_warning());
    state.dismiss_warning();
    assert!(state.select_source(DBSource::Online));
    assert_eq!(state.source(), DBSource::Online);
    assert!(!state.show_local_warning());
    assert_eq!(state.items().len(), 4);
}

#[test]
fn clicking_selects_and_clicking_again_deselects() {
    let mut state = ViewState::new(DBSource::Online, CATALOG);
    state.click_item(1);
    assert_eq!(state.selected(), Some(1));
    assert_eq!(state.selected_item().unwrap().tool_name, "End Mill 10");
    state.click_item(0);
    assert_eq!(state.selected(), Some(0));
    state.click_item(0);
    assert_eq!(state.selected(), None);
    assert!(state.selected_item().is_none());
    state.click_item(3);
    state.click_item(4);
    assert_eq!(state.selected(), Some(3));
    state.click_item(usize::MAX);
    assert_eq!(state.selected(), Some(3));
}

#[test]
fn family_and_class_filters_come_from_a_record() {
    let mut state = ViewState::new(DBSource::Online, CATALOG);
    state.show_family(0);
    assert_eq!(state.tool_filter(), &Some(ToolFilter::Family("P-100".to_string())));
    assert_eq!(state.chip(), Some("Family: P-100".to_string()));
    assert_eq!(state.visible(), vec![0, 1]);
    state.show_class(1);
    assert_eq!(
        state.tool_filter(),
        &Some(ToolFilter::Class("P-100".to_string(), "H2".to_string()))
    );
    assert_eq!(state.chip(), Some("Class: P-100 | H2".to_string()));
    assert_eq!(state.visible(), vec![1]);
    state.show_family(2);
    state.show_class(2);
    state.show_family(9);
    state.show_class(9);
    assert_eq!(state.chip(), Some("Class: P-100 | H2".to_string()));
    state.clear_tool_filter();
    assert_eq!(state.tool_filter(), &None);
    assert_eq!(state.chip(), None);
    assert_eq!(state.visible(), vec![0, 1, 2, 3]);
}

#[test]
fn listed_records_follow_filters_and_search() {
    let mut state = ViewState::new(DBSource::Online, CATALOG);
    state.set_search("MILL".to_string());
    assert_eq!(state.search(), "MILL");
    assert_eq!(state.visible(), vec![1, 2]);
    assert!(state.passes(&state.items()[1]));
    assert!(!state.passes(&state.items()[0]));
    state.set_manufacturer_filter(Some("Sandvik".to_string()));
    assert_eq!(state.manufacturer_filter(), &Some("Sandvik".to_string()));
    assert_eq!(state.visible(), vec![2]);
    state.show_family(0);
    assert_eq!(state.visible(), vec![0]);
    state.set_manufacturer_filter(Some("Iscar".to_string()));
    assert_eq!(state.visible(), vec![1]);
    state.set_manufacturer_filter(Some("Walter".to_string()));
    assert_eq!(state.visible(), Vec::<usize>::new());
    state.set_manufacturer_filter(None);
    assert_eq!(state.visible(), vec![0, 1]);
}

#[test]
fn table_of_the_active_schema() {
    let mut state = ViewState::new(DBSource::Online, CATALOG);
    assert_eq!(
        state.table_rows(),
        vec![
            ("Coating".to_string(), String::new()),
            ("Grade".to_string(), String::new()),
        ]
    );
    state.click_item(0);
    assert_eq!(
        state.table_rows(),
        vec![
            ("Coating".to_string(), "TiN".to_string()),
            ("Grade".to_string(), "K20".to_string()),
        ]
    );
    state.click_item(1);
    assert_eq!(
        state.table_rows(),
        vec![
            ("Coating".to_string(), String::new()),
            ("Grade".to_string(), "P10".to_string()),
        ]
    );
    state.select_tab(Schema::Milling);
    assert_eq!(state.active_tab(), Schema::Milling);
    assert_eq!(
        state.table_rows(),
        vec![
            ("HolderName".to_string(), "H2".to_string()),
            ("Length".to_string(), "40".to_string()),
            ("Message2".to_string(), "P-100".to_string()),
            ("Message3".to_string(), "Iscar".to_string()),
        ]
    );
    state.select_tab(Schema::Drilling);
    assert_eq!(
        state.table_rows(),
        vec![
            ("Diameter".to_string(), String::new()),
            ("HolderName".to_string(), String::new()),
            ("Message2".to_string(), String::new()),
            ("Message3".to_string(), String::new()),
        ]
    );
}
