use rofi_browser_menu::protocol::{extract_targets, extract_window_tree, extract_ws_url};
use rofi_browser_menu::tabs::filter_targets;
use rofi_browser_menu::windows::{
    choose_window, collect_windows, focus_class_command, focus_id_command,
};

#[test]
fn discovery_response_yields_the_debugger_url() {
    let body = "{\"Browser\":\"Brave\",\"webSocketDebuggerUrl\":\"ws://localhost:9222/devtools/browser/abc\"}";
    assert_eq!(
        extract_ws_url(body),
        Some("ws://localhost:9222/devtools/browser/abc".to_string())
    );
    assert_eq!(extract_ws_url("{\"Browser\":\"Brave\"}"), None);
    assert_eq!(extract_ws_url("not json"), None);
    assert_eq!(extract_ws_url("{\"webSocketDebuggerUrl\":7}"), None);
}

#[test]
fn target_listing_keeps_only_ordinary_pages() {
    let text = "{\"id\":3,\"result\":{\"targetInfos\":[\
        {\"targetId\":\"t1\",\"type\":\"page\",\"title\":\"One\",\"url\":\"http://one\"},\
        {\"targetId\":\"t2\",\"type\":\"worker\",\"title\":\"W\",\"url\":\"http://w\"},\
        {\"targetId\":\"t3\",\"type\":\"page\",\"title\":\"Ext\",\"url\":\"chrome-extension://abc/page.html\"},\
        {\"targetId\":\"t4\",\"type\":\"page\",\"title\":\"Two\",\"url\":\"http://two\"}\
        ]}}";
    let raw = extract_targets(text).expect("listing should parse");
    assert_eq!(raw.len(), 4);
    let tabs = filter_targets(&raw);
    assert_eq!(tabs.len(), 2);
    assert_eq!(tabs[0].target_id, "t1");
    assert_eq!(tabs[0].title, "One");
    assert_eq!(tabs[0].url, "http://one");
    assert_eq!(tabs[1].target_id, "t4");
    assert_eq!(tabs[1].title, "Two");
}

#[test]
fn target_defaults_apply_when_fields_are_absent() {
    let text = "{\"result\":{\"targetInfos\":[{\"targetId\":\"t9\",\"type\":\"page\"}]}}";
    let raw = extract_targets(text).expect("listing should parse");
    let tabs = filter_targets(&raw);
    assert_eq!(tabs.len(), 1);
    assert_eq!(tabs[0].title, "Untitled");
    assert_eq!(tabs[0].url, "");
}

#[test]
fn non_listing_messages_yield_nothing() {
    assert!(extract_targets("{\"id\":1,\"result\":{}}").is_none());
    assert!(extract_targets("junk").is_none());
    assert!(extract_targets("{\"result\":{\"targetInfos\":3}}").is_none());
}

#[test]
fn window_tree_search_prefers_the_tab_title() {
    let tree_text = "{\"name\":\"root\",\"nodes\":[\
        {\"window\":11,\"name\":\"editor\",\"nodes\":[]},\
        {\"window\":22,\"name\":\"Page One - Brave-browser\",\"nodes\":[]},\
        {\"name\":\"split\",\"nodes\":[\
        {\"window\":33,\"name\":\"Page Two - Brave Beta\",\"nodes\":[]}\
        ]}]}";
    let tree = extract_window_tree(tree_text).expect("tree should parse");
    let windows = collect_windows(&tree, "Brave Beta", "Brave-browser");
    assert_eq!(windows.len(), 2);
    assert_eq!(windows[0].0, 22);
    assert_eq!(windows[1].0, 33);
    // the window naming the activated tab wins
    assert_eq!(choose_window(&windows, "Page Two"), Some(33));
    // no name matches: fall back to the first collected window
    assert_eq!(choose_window(&windows, "Elsewhere"), Some(22));
    // nothing collected: nothing to focus
    assert_eq!(choose_window(&Vec::new(), "x"), None);
}

#[test]
fn unparseable_window_tree_yields_nothing() {
    assert!(extract_window_tree("not json at all").is_none());
    let leaf = extract_window_tree("{\"window\":7,\"name\":\"lone\"}").expect("should parse");
    assert_eq!(leaf.window_id, Some(7));
    assert_eq!(leaf.name.as_deref(), Some("lone"));
    assert!(leaf.nodes.is_empty());
}

#[test]
fn focus_commands_are_exact() {
    assert_eq!(focus_class_command("Brave-browser"), "[class=\"Brave-browser\"] focus");
    assert_eq!(focus_id_command(12345), "[id=\"12345\"] focus");
}
