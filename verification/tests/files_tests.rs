use yoakore::files::{
    compile_search_pattern, file_tool_definitions, glob_under, list_args, listing_text, read_file_args,
    read_file_text, search_args, write_file_args, written_text, EntryKind, SearchState,
};

#[test]
fn tool_definitions() {
    let defs = file_tool_definitions();
    let names: Vec<&str> = defs.iter().map(|d| d.name.as_str()).collect();
    assert_eq!(names, vec!["read_file", "write_file", "list_directory", "search_files"]);
    for d in &defs {
        let v: serde_json::Value = serde_json::from_str(&d.parameters).unwrap();
        assert_eq!(v["type"], "object");
    }
    let v: serde_json::Value = serde_json::from_str(&defs[0].parameters).unwrap();
    assert_eq!(v["properties"]["limit"]["default"], 1000);
    assert_eq!(v["required"][0], "path");
}

#[test]
fn read_file_arguments_and_defaults() {
    let a = read_file_args("{\"path\":\"x.txt\",\"offset\":2}");
    assert_eq!(a.path, "x.txt");
    assert_eq!(a.offset, 2);
    assert_eq!(a.limit, 1000);
    let a = read_file_args("{\"path\":5,\"limit\":-1}");
    assert_eq!(a.path, "");
    assert_eq!(a.limit, 1000);
    let w = write_file_args("{\"path\":\"p\",\"content\":\"c\",\"append\":true}");
    assert_eq!((w.path.as_str(), w.content.as_str(), w.append), ("p", "c", true));
    let w = write_file_args("not json");
    assert_eq!((w.path.as_str(), w.content.as_str(), w.append), ("", "", false));
    let l = list_args("{}");
    assert_eq!((l.path.as_str(), l.pattern.as_str()), (".", "*"));
    let s = search_args("{\"pattern\":\"fo+\"}");
    assert_eq!((s.path.as_str(), s.pattern.as_str(), s.glob.as_str()), (".", "fo+", "*"));
}

#[test]
fn numbered_lines() {
    let content = "a\nb\r\nc\n";
    assert_eq!(read_file_text(content, 0, 1000), "1: a\n2: b\n3: c");
    assert_eq!(read_file_text(content, 1, 1), "2: b");
    assert_eq!(read_file_text(content, 5, 10), "");
    assert_eq!(read_file_text(content, 2, 0), "");
}

#[test]
fn write_report_counts_bytes() {
    assert_eq!(written_text("héllo", "f.txt"), "Written 6 bytes to f.txt");
    assert_eq!(written_text("", "e"), "Written 0 bytes to e");
}

#[test]
fn directory_listing() {
    assert_eq!(glob_under("src", "*.rs"), "src/*.rs");
    assert_eq!(listing_text(&vec![]), "No matching entries found.");
    let entries = vec![
        (EntryKind::Dir, "src/a".to_string()),
        (EntryKind::File, "src/b.rs".to_string()),
        (EntryKind::Unknown, "src/c".to_string()),
    ];
    assert_eq!(listing_text(&entries), "[dir] src/a\n[file] src/b.rs\n[?] src/c");
}

#[test]
fn search_reports_matching_lines() {
    let p = compile_search_pattern("fo+").ok().unwrap();
    let mut st = SearchState::new();
    assert!(!st.scan_file(&p, "a.txt", "foo\nbar\nfoooo"));
    assert!(!st.scan_file(&p, "b.txt", "nothing"));
    assert_eq!(st.report(), "a.txt:1: foo\na.txt:3: foooo");
    assert_eq!(SearchState::new().report(), "No matches found.");
}

#[test]
fn search_stops_at_fifty() {
    let p = compile_search_pattern("x").ok().unwrap();
    let mut st = SearchState::new();
    let content: String = (0..60).map(|i| format!("x{}\n", i)).collect();
    assert!(st.scan_file(&p, "f", &content));
    let report = st.report();
    assert!(report.ends_with("f:50: x49\n... (truncated at 50 matches)"));
    assert_eq!(report.lines().count(), 51);
}

#[test]
fn invalid_pattern() {
    match compile_search_pattern("(") {
        Err(e) => {
            assert!(e.starts_with("Invalid regex: "));
            assert!(e.len() > "Invalid regex: ".len());
        }
        Ok(_) => panic!("the pattern should not compile"),
    }
}
