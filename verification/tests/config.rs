use toml_edit::DocumentMut;
use tor_to_arti::bridges::get_bridges_from_file;
use tor_to_arti::config::{
    save_bridges_in_arti_log, BridgesUpdate, ConfigDocument, ConfigError, BRIDGES_KEY,
    BRIDGES_TABLE,
};

fn normalize(s: &str) -> Vec<String> {
    s.lines().map(|l| l.trim().to_string()).filter(|l| !l.is_empty()).collect()
}

fn two_lines() -> Vec<String> {
    vec!["Bridge 1.2.3.4:443 ABCD".to_string(), "Bridge 5.6.7.8:9001 EF01".to_string()]
}

fn read_back(saved: &str) -> Option<String> {
    ConfigDocument::parse(saved).expect("saved text is a document").bridges()
}

#[test]
fn test_save_bridges_in_arti_log_positive() {
    let mut bridges_conf = String::new();
    bridges_conf.push_str("UseBridges 1\n");
    bridges_conf.push_str("Bridge 64.65.62.199:443 4B0F565A6D8A005504EDF99CBC2DFE12E7D97D81\n");
    bridges_conf.push_str("Bridge 37.187.74.97:9001 F745D5A34A289EF0C88544D0DC400B21120F5E81\n");
    bridges_conf.push_str("Bridge 72.167.47.69:80 946D40F81F304814AE2D1A83CB4F219336E90ABF\n");
    let bridges = get_bridges_from_file(&bridges_conf);
    let config = "# Arti configuration\n[bridges]\nenabled = true\nbridges = \"\"\n";

    let text = save_bridges_in_arti_log(config, &BridgesUpdate::Replace(bridges)).unwrap();
    let doc = text.parse::<DocumentMut>().unwrap();

    let expected_bridges = "Bridge 64.65.62.199:443 4B0F565A6D8A005504EDF99CBC2DFE12E7D97D81
            Bridge 37.187.74.97:9001 F745D5A34A289EF0C88544D0DC400B21120F5E81
            Bridge 72.167.47.69:80 946D40F81F304814AE2D1A83CB4F219336E90ABF";

    let bridges_from_config_file = doc["bridges"]["bridges"].as_str().expect("missing bridges.bridges");

    let mut exp_lines = normalize(expected_bridges);
    let mut got_lines = normalize(bridges_from_config_file);
    assert_eq!(exp_lines, got_lines);
    exp_lines.sort();
    got_lines.sort();
    assert_eq!(exp_lines, got_lines);
}

#[test]
fn field_names_are_bridges() {
    assert_eq!(BRIDGES_TABLE, "bridges");
    assert_eq!(BRIDGES_KEY, "bridges");
}

#[test]
fn replace_touches_the_field_alone() {
    let text = "[bridges]\nbridges = \"old\"\nother = 1\n";
    let saved = save_bridges_in_arti_log(text, &BridgesUpdate::Replace(two_lines())).unwrap();
    let doc = saved.parse::<DocumentMut>().unwrap();
    assert_eq!(
        doc["bridges"]["bridges"].as_str(),
        Some("Bridge 1.2.3.4:443 ABCD\nBridge 5.6.7.8:9001 EF01\n")
    );
    assert_eq!(doc["bridges"]["other"].as_integer(), Some(1));
    assert!(saved.contains("other = 1\n"));
    assert!(saved.starts_with("[bridges]\nbridges = "));
}

#[test]
fn replace_keeps_comments_and_other_tables() {
    let text = "# top\nname = \"x\" # why\n\n[proxy]\nport = 9150\n\n[bridges]\n# the list\nenabled = true\nbridges = \"old\"\n\n[logging]\nlevel = \"info\"\n";
    let saved = save_bridges_in_arti_log(text, &BridgesUpdate::Replace(two_lines())).unwrap();
    let expected = text.replace(
        "bridges = \"old\"",
        "bridges = \"\"\"\nBridge 1.2.3.4:443 ABCD\nBridge 5.6.7.8:9001 EF01\n\"\"\"",
    );
    assert_eq!(saved, expected);
}

#[test]
fn replace_round_trip() {
    let lines = vec![
        "Bridge 1.2.3.4:443 ABCD".to_string(),
        "Bridge [2001:db8::1]:443 \"quoted\" \\ back".to_string(),
        "Bridge 1.2.3.4:443 ABCD".to_string(),
        "Bridge obfs4 ü ☂ 'x' = # [y]".to_string(),
    ];
    let saved = save_bridges_in_arti_log("[bridges]\n", &BridgesUpdate::Replace(lines.clone())).unwrap();
    let value = read_back(&saved).expect("the field is set");
    let split: Vec<String> = value.lines().map(String::from).collect();
    assert_eq!(split, lines);
    assert_eq!(get_bridges_from_file(&value), lines);
    let doc = saved.parse::<DocumentMut>().unwrap();
    assert_eq!(doc["bridges"]["bridges"].as_str(), Some(value.as_str()));
}

#[test]
fn replace_with_no_lines_stores_a_line_feed() {
    let saved = save_bridges_in_arti_log("[bridges]\nbridges = \"old\"\n", &BridgesUpdate::Replace(vec![])).unwrap();
    assert_eq!(read_back(&saved), Some("\n".to_string()));
}

#[test]
fn replace_twice_gives_the_same_field() {
    let update = BridgesUpdate::Replace(two_lines());
    let once = save_bridges_in_arti_log("[bridges]\nbridges = \"old\"\nother = 1\n", &update).unwrap();
    let twice = save_bridges_in_arti_log(&once, &update).unwrap();
    assert_eq!(read_back(&once), read_back(&twice));
    assert_eq!(read_back(&twice), Some("Bridge 1.2.3.4:443 ABCD\nBridge 5.6.7.8:9001 EF01\n".to_string()));
    assert_eq!(once, twice);
}

#[test]
fn replace_makes_the_table_where_it_is_missing() {
    let saved = save_bridges_in_arti_log("name = \"x\"\n", &BridgesUpdate::Replace(two_lines())).unwrap();
    let doc = saved.parse::<DocumentMut>().unwrap();
    assert_eq!(
        doc["bridges"]["bridges"].as_str(),
        Some("Bridge 1.2.3.4:443 ABCD\nBridge 5.6.7.8:9001 EF01\n")
    );
    assert_eq!(doc["name"].as_str(), Some("x"));
    let of_nothing = save_bridges_in_arti_log("", &BridgesUpdate::Replace(two_lines())).unwrap();
    assert_eq!(read_back(&of_nothing), Some("Bridge 1.2.3.4:443 ABCD\nBridge 5.6.7.8:9001 EF01\n".to_string()));
}

#[test]
fn replace_in_an_inline_table() {
    let saved = save_bridges_in_arti_log("bridges = { enabled = true }\n", &BridgesUpdate::Replace(two_lines())).unwrap();
    let doc = saved.parse::<DocumentMut>().unwrap();
    assert_eq!(
        doc["bridges"]["bridges"].as_str(),
        Some("Bridge 1.2.3.4:443 ABCD\nBridge 5.6.7.8:9001 EF01\n")
    );
    assert_eq!(doc["bridges"]["enabled"].as_bool(), Some(true));
}

#[test]
fn replace_over_a_field_that_is_no_string() {
    let saved = save_bridges_in_arti_log("[bridges]\nbridges = [1, 2]\n", &BridgesUpdate::Replace(two_lines())).unwrap();
    assert_eq!(read_back(&saved), Some("Bridge 1.2.3.4:443 ABCD\nBridge 5.6.7.8:9001 EF01\n".to_string()));
}

#[test]
fn replace_is_refused_where_bridges_is_no_table() {
    let update = BridgesUpdate::Replace(two_lines());
    assert_eq!(save_bridges_in_arti_log("bridges = 1\n", &update), Err(ConfigError::NotATable));
    assert_eq!(save_bridges_in_arti_log("bridges = \"x\"\n", &update), Err(ConfigError::NotATable));
    assert_eq!(save_bridges_in_arti_log("bridges = [1]\n", &update), Err(ConfigError::NotATable));
    assert_eq!(save_bridges_in_arti_log("[[bridges]]\nbridges = \"x\"\n", &update), Err(ConfigError::NotATable));
}

#[test]
fn refused_update_leaves_the_document() {
    let mut document = ConfigDocument::parse("bridges = 1\nother = 2\n").unwrap();
    assert_eq!(document.set_bridges(&BridgesUpdate::Replace(two_lines())), Err(ConfigError::NotATable));
    assert_eq!(document.render(), "bridges = 1\nother = 2\n");
    assert_eq!(document.bridges(), None);
}

#[test]
fn text_that_is_no_document_is_refused() {
    for text in ["[bridges\n", "bridges = \n", "a = 1\na = 2\n", "= 1", "[a]\n[a]\n"] {
        for update in [BridgesUpdate::Replace(two_lines()), BridgesUpdate::Delete] {
            match save_bridges_in_arti_log(text, &update) {
                Err(ConfigError::Parse(message)) => assert!(!message.is_empty()),
                other => panic!("for {:?}: {:?}", text, other),
            }
        }
        assert!(matches!(ConfigDocument::parse(text), Err(ConfigError::Parse(_))));
    }
}

#[test]
fn delete_removes_the_key() {
    let text = "[bridges]\nenabled = true\nbridges = \"Bridge a\\n\"\nother = 1\n";
    assert_eq!(read_back(text), Some("Bridge a\n".to_string()));
    let saved = save_bridges_in_arti_log(text, &BridgesUpdate::Delete).unwrap();
    assert_eq!(saved, "[bridges]\nenabled = true\nother = 1\n");
    assert_eq!(read_back(&saved), None);
    let doc = saved.parse::<DocumentMut>().unwrap();
    assert!(doc["bridges"].get("bridges").is_none());
    assert!(doc["bridges"].is_table());
    assert_eq!(doc["bridges"]["other"].as_integer(), Some(1));
}

#[test]
fn delete_after_replace_leaves_no_field() {
    for text in ["", "[bridges]\n", "bridges = {}\n", "[bridges]\nbridges = \"\"\n"] {
        let set = save_bridges_in_arti_log(text, &BridgesUpdate::Replace(two_lines())).unwrap();
        assert!(read_back(&set).is_some());
        let cleared = save_bridges_in_arti_log(&set, &BridgesUpdate::Delete).unwrap();
        assert_eq!(read_back(&cleared), None, "for {:?}", text);
        let doc = cleared.parse::<DocumentMut>().unwrap();
        assert!(doc["bridges"].get("bridges").is_none(), "for {:?}", text);
    }
}

#[test]
fn delete_in_an_inline_table() {
    let saved = save_bridges_in_arti_log("bridges = { bridges = \"x\", enabled = true }\n", &BridgesUpdate::Delete).unwrap();
    let doc = saved.parse::<DocumentMut>().unwrap();
    assert!(doc["bridges"].get("bridges").is_none());
    assert_eq!(doc["bridges"]["enabled"].as_bool(), Some(true));
}

#[test]
fn delete_where_there_is_nothing_to_remove() {
    for text in ["", "name = \"x\"\n", "[bridges]\nenabled = true\n", "bridges = 1\n", "[[bridges]]\nbridges = \"x\"\n"] {
        assert_eq!(save_bridges_in_arti_log(text, &BridgesUpdate::Delete), Ok(text.to_string()));
    }
}

#[test]
fn delete_twice_is_delete_once() {
    let once = save_bridges_in_arti_log("[bridges]\nbridges = \"x\"\nother = 1\n", &BridgesUpdate::Delete).unwrap();
    let twice = save_bridges_in_arti_log(&once, &BridgesUpdate::Delete).unwrap();
    assert_eq!(once, twice);
}

#[test]
fn field_is_read_only_where_it_is_a_string() {
    assert_eq!(read_back("[bridges]\nbridges = \"\"\n"), Some(String::new()));
    assert_eq!(read_back("[bridges]\nbridges = \"a\\tb\"\n"), Some("a\tb".to_string()));
    assert_eq!(read_back("bridges.bridges = 'x'\n"), Some("x".to_string()));
    assert_eq!(read_back("bridges = { bridges = \"y\" }\n"), Some("y".to_string()));
    assert_eq!(read_back("[bridges]\nbridges = 1\n"), None);
    assert_eq!(read_back("[bridges]\nother = \"x\"\n"), None);
    assert_eq!(read_back("bridges = \"x\"\n"), None);
    assert_eq!(read_back("[other]\nbridges = \"x\"\n"), None);
    assert_eq!(read_back(""), None);
}

#[test]
fn document_is_written_as_it_was_read() {
    let text = "# c\n[bridges] # d\nbridges  =  'x'   # e\n\n[[more]]\na = [1,\n 2]\n";
    assert_eq!(ConfigDocument::parse(text).unwrap().render(), text);
}

#[test]
fn document_methods_follow_each_other() {
    let mut document = ConfigDocument::parse("[bridges]\nother = 1\n").unwrap();
    assert_eq!(document.bridges(), None);
    assert_eq!(document.set_bridges(&BridgesUpdate::Replace(two_lines())), Ok(()));
    assert_eq!(document.bridges(), Some("Bridge 1.2.3.4:443 ABCD\nBridge 5.6.7.8:9001 EF01\n".to_string()));
    assert_eq!(document.set_bridges(&BridgesUpdate::Delete), Ok(()));
    assert_eq!(document.bridges(), None);
    assert_eq!(document.render(), "[bridges]\nother = 1\n");
}
