use tor_to_arti::bridges::{bridges_text, get_bridges_from_file, TOR_BRIDGE_PREFIX};

/// The same selection written with the string methods of the standard
/// library.
fn with_std(contents: &str) -> Vec<String> {
    contents
        .lines()
        .map(str::trim)
        .filter(|s| !s.is_empty())
        .filter(|s| !s.starts_with("#"))
        .filter(|s| s.starts_with(TOR_BRIDGE_PREFIX))
        .map(String::from)
        .collect()
}

fn bridges_conf() -> String {
    let mut text = String::new();
    text.push_str("UseBridges 1\n");
    text.push_str("Bridge 64.65.62.199:443 4B0F565A6D8A005504EDF99CBC2DFE12E7D97D81\n");
    text.push_str("Bridge 37.187.74.97:9001 F745D5A34A289EF0C88544D0DC400B21120F5E81\n");
    text.push_str("Bridge 72.167.47.69:80 946D40F81F304814AE2D1A83CB4F219336E90ABF\n");
    text
}

#[test]
fn test_get_bridges_from_file_positive() {
    let bridges = get_bridges_from_file(&bridges_conf());
    let expected = vec![
        "Bridge 64.65.62.199:443 4B0F565A6D8A005504EDF99CBC2DFE12E7D97D81".to_string(),
        "Bridge 37.187.74.97:9001 F745D5A34A289EF0C88544D0DC400B21120F5E81".to_string(),
        "Bridge 72.167.47.69:80 946D40F81F304814AE2D1A83CB4F219336E90ABF".to_string(),
    ];

    assert_eq!(bridges.len(), 3, "Vec should contain 3 elements");
    assert!(
        !bridges.contains(&String::from("UseBridges 1")),
        "Vec should not contains 'UseBridges'"
    );
    assert_eq!(expected, bridges, "Expected bridges result mismatch");
}

#[test]
fn filtering_keeps_bridge_lines_only() {
    let text = "UseBridges 1\nBridge 1.2.3.4:443 ABCD\n# comment\n\nBridge 5.6.7.8:9001 EF01\n";
    assert_eq!(
        get_bridges_from_file(text),
        vec!["Bridge 1.2.3.4:443 ABCD".to_string(), "Bridge 5.6.7.8:9001 EF01".to_string()]
    );
}

#[test]
fn prefix_is_bridge_and_a_blank() {
    assert_eq!(TOR_BRIDGE_PREFIX, "Bridge ");
}

#[test]
fn empty_text_has_no_bridges() {
    assert_eq!(get_bridges_from_file(""), Vec::<String>::new());
    assert_eq!(get_bridges_from_file("\n\n\n"), Vec::<String>::new());
    assert_eq!(get_bridges_from_file("   \t  "), Vec::<String>::new());
}

#[test]
fn last_line_needs_no_line_feed() {
    assert_eq!(get_bridges_from_file("Bridge a"), vec!["Bridge a".to_string()]);
    assert_eq!(
        get_bridges_from_file("Bridge a\nBridge b"),
        vec!["Bridge a".to_string(), "Bridge b".to_string()]
    );
}

#[test]
fn lines_are_trimmed() {
    assert_eq!(get_bridges_from_file("  \tBridge a b \t \n"), vec!["Bridge a b".to_string()]);
    assert_eq!(get_bridges_from_file("Bridge a\r\nBridge b\r\n"), vec![
        "Bridge a".to_string(),
        "Bridge b".to_string()
    ]);
    assert_eq!(get_bridges_from_file("\u{a0}\u{3000}Bridge a\u{2003}\u{85}\n"), vec![
        "Bridge a".to_string()
    ]);
}

#[test]
fn order_and_duplicates_are_kept() {
    assert_eq!(get_bridges_from_file("Bridge b\nBridge a\nBridge b\n"), vec![
        "Bridge b".to_string(),
        "Bridge a".to_string(),
        "Bridge b".to_string()
    ]);
}

#[test]
fn comments_and_other_lines_are_dropped() {
    assert_eq!(get_bridges_from_file("#Bridge a\n # Bridge b\n"), Vec::<String>::new());
    assert_eq!(get_bridges_from_file("bridge a\nBridges a\nBridge\nBridge\ta\n"), Vec::<String>::new());
    assert_eq!(get_bridges_from_file("UseBridges 1\nClientTransportPlugin obfs4\n"), Vec::<String>::new());
    assert_eq!(get_bridges_from_file("xBridge a\n"), Vec::<String>::new());
}

#[test]
fn prefix_alone_is_trimmed_away() {
    assert_eq!(get_bridges_from_file("Bridge \n"), Vec::<String>::new());
    assert_eq!(get_bridges_from_file("Bridge  x\n"), vec!["Bridge  x".to_string()]);
}

#[test]
fn other_characters_pass_through() {
    assert_eq!(get_bridges_from_file("Bridge zürich ☂ 𝄞\n"), vec!["Bridge zürich ☂ 𝄞".to_string()]);
    assert_eq!(get_bridges_from_file("é\nBridge é\n\u{200b}Bridge a\n"), vec!["Bridge é".to_string()]);
}

#[test]
fn reader_agrees_with_the_standard_library() {
    let texts = [
        "",
        "\n",
        "\r\n",
        "Bridge a",
        "Bridge a\n",
        "Bridge a\r",
        "Bridge a\r\n",
        "Bridge a\rBridge b\n",
        " Bridge a \n\tBridge b\t\n",
        "\u{b}Bridge a\u{c}\n\u{1680}Bridge b\u{2028}\u{2029}Bridge c\u{202f}\u{205f}\n",
        "\u{2000}Bridge 0\u{200a}\n\u{200b}Bridge 1\u{200b}\n\u{feff}Bridge 2\n",
        "# Bridge a\n#\n##\nBridge #\n",
        "UseBridges 1\nBridge 1.2.3.4:443 ABCD\n# comment\n\nBridge 5.6.7.8:9001 EF01\n",
        "Bridge \nBridge\nBridge  \nBridge  a\n",
        "\n\nBridge a\n\n\nBridge b\n\n",
        "Bridge a\u{0}\nBridge \u{7f}\n\u{1f}Bridge b\n\u{1c}Bridge c\u{1e}\n",
    ];
    for text in texts {
        assert_eq!(get_bridges_from_file(text), with_std(text), "for {:?}", text);
    }
}

#[test]
fn stored_text_joins_lines_with_line_feeds() {
    assert_eq!(bridges_text(&vec!["Bridge a".to_string(), "Bridge b".to_string()]), "Bridge a\nBridge b\n");
    assert_eq!(bridges_text(&vec!["Bridge a".to_string()]), "Bridge a\n");
    assert_eq!(bridges_text(&vec![]), "\n");
    assert_eq!(bridges_text(&vec![String::new(), String::new()]), "\n\n");
}

#[test]
fn stored_text_agrees_with_join() {
    let lists: Vec<Vec<String>> = vec![
        vec![],
        vec!["x".to_string()],
        vec!["Bridge 1".to_string(), "Bridge 2".to_string(), "Bridge 3".to_string()],
        vec!["".to_string(), "a".to_string(), "".to_string()],
    ];
    for lines in lists {
        assert_eq!(bridges_text(&lines), format!("{}\n", lines.join("\n")));
    }
}

#[test]
fn stored_bridges_are_read_back() {
    let lines = vec![
        "Bridge 1.2.3.4:443 ABCD".to_string(),
        "Bridge 5.6.7.8:9001 EF01".to_string(),
        "Bridge 1.2.3.4:443 ABCD".to_string(),
    ];
    let stored = bridges_text(&lines);
    assert_eq!(get_bridges_from_file(&stored), lines);
    let split: Vec<String> = stored.lines().map(String::from).collect();
    assert_eq!(split, lines);
    assert_eq!(get_bridges_from_file(&bridges_text(&vec![])), Vec::<String>::new());
}

#[test]
fn reading_twice_changes_nothing() {
    let first = get_bridges_from_file(" Bridge a \nx\n#y\nBridge b\n");
    let again = get_bridges_from_file(&bridges_text(&first));
    assert_eq!(first, again);
}
