use rofi_browser_menu::cdp::{
    cdp_envelope, json_escape, msg_activate_target, msg_close_target, msg_create_target,
    msg_get_targets, msg_set_auto_attach, msg_set_discover_targets, version_url,
};
use rofi_browser_menu::config::BrowserConfig;
use rofi_browser_menu::history::{
    extract_url, format_history_line, format_history_rows, history_prompt, history_query,
};
use rofi_browser_menu::menu::{build_menu, close_tab_options, menu_prompt, tab_line};
use rofi_browser_menu::search::{build_search_url, search_prompt_label};
use rofi_browser_menu::tabs::Tab;
use rofi_browser_menu::text::{join_lines, usize_to_string};

fn tab(id: &str, title: &str, url: &str) -> Tab {
    Tab { target_id: id.to_string(), title: title.to_string(), url: url.to_string() }
}

fn profile() -> BrowserConfig {
    BrowserConfig::resolve(Some(&"brave-beta".to_string()), "/home/me").0
}

#[test]
fn menu_renders_count_search_tabs_and_actions_in_order() {
    let tabs = vec![tab("a", "First", "http://one"), tab("b", "Second", "http://two")];
    let menu = build_menu(&tabs, &profile());
    let expected = "Tabs: 2\n\
                    ────\n\
                    Search (Brave Beta)\n\
                    ────\n\
                    1. First - http://one\n\
                    2. Second - http://two\n\
                    ────\n\
                    - Bookmarks\n\
                    - Bookmarks incognito\n\
                    - New Tab\n\
                    - Close Tab\n\
                    - Close ALL Tabs\n\
                    - Search in incognito\n\
                    - History\n\
                    - Exit\n";
    assert_eq!(menu, expected);
    assert!(menu.starts_with("Tabs: 2"));
    assert!(menu.contains("Search (Brave Beta)"));
    assert!(menu.ends_with(
        "- Bookmarks\n- Bookmarks incognito\n- New Tab\n- Close Tab\n- Close ALL Tabs\n- Search in incognito\n- History\n- Exit\n"
    ));
}

#[test]
fn menu_with_no_tabs_has_no_numbered_lines() {
    let menu = build_menu(&Vec::new(), &profile());
    assert!(menu.starts_with("Tabs: 0\n"));
    assert!(!menu.contains("1. "));
}

#[test]
fn tab_lines_number_from_one() {
    let t = tab("x", "Title", "http://u");
    assert_eq!(tab_line(1, &t), "1. Title - http://u");
    let opts = close_tab_options(&vec![
        tab("a", "A", "http://a"),
        tab("b", "B", "http://b"),
    ]);
    assert_eq!(opts, vec!["1. A - http://a".to_string(), "2. B - http://b".to_string()]);
    assert_eq!(join_lines(&opts), "1. A - http://a\n2. B - http://b");
}

#[test]
fn prompts_carry_the_display_name() {
    assert_eq!(menu_prompt("Brave Beta"), "Brave Beta Tabs");
    assert_eq!(history_prompt("Brave Beta"), "Brave Beta History");
    assert_eq!(search_prompt_label("Brave Beta", false), "Search Brave Beta");
    assert_eq!(search_prompt_label("Zen Browser", true), "Search Zen Browser (Incognito)");
}

#[test]
fn history_line_is_padded_to_forty_then_two_spaces_then_url() {
    let title = "A very long page title that exceeds forty characters for sure";
    let url = "http://example.com";
    let line = format_history_line(title, url);
    let chars: Vec<char> = line.chars().collect();
    assert_eq!(chars.len(), 40 + 2 + url.chars().count());
    let field: String = chars[..40].iter().collect();
    assert_eq!(field, title.chars().take(40).collect::<String>());
    assert_eq!(chars[40], ' ');
    assert_eq!(chars[41], ' ');
    let rest: String = chars[42..].iter().collect();
    assert_eq!(rest, url);
    // reversing the find-first-http step recovers the URL exactly
    assert_eq!(extract_url(&line), Some(url.to_string()));
}

#[test]
fn short_history_title_is_padded_not_truncated() {
    let line = format_history_line("Tiny", "http://x");
    assert!(line.starts_with("Tiny"));
    assert_eq!(line.chars().count(), 42 + "http://x".chars().count());
    assert_eq!(extract_url(&line), Some("http://x".to_string()));
}

#[test]
fn history_rows_keep_query_order() {
    let rows = vec![
        ("Newest".to_string(), "http://n".to_string()),
        ("Older".to_string(), "http://o".to_string()),
    ];
    let lines = format_history_rows(&rows);
    assert_eq!(lines.len(), 2);
    assert!(lines[0].starts_with("Newest"));
    assert!(lines[1].starts_with("Older"));
}

#[test]
fn extract_url_without_http_yields_nothing() {
    assert_eq!(extract_url("no address here"), None);
    assert_eq!(extract_url(""), None);
}

#[test]
fn history_query_is_verbatim() {
    assert_eq!(
        history_query(),
        "SELECT title, url FROM urls WHERE title IS NOT NULL AND title != '' ORDER BY last_visit_time DESC LIMIT 100000"
    );
}

#[test]
fn search_url_percent_encodes_reserved_characters() {
    let url = build_search_url("c++ tutorial");
    assert_eq!(url, "https://search.brave.com/search?q=c%2B%2B%20tutorial");
    assert!(!url.contains("c++"));
    assert!(!url.contains(' '));
    let url = build_search_url("a&b=c?d");
    assert_eq!(url, "https://search.brave.com/search?q=a%26b%3Dc%3Fd");
    let url = build_search_url("plain");
    assert_eq!(url, "https://search.brave.com/search?q=plain");
}

#[test]
fn decimal_rendering_is_exact() {
    assert_eq!(usize_to_string(0), "0");
    assert_eq!(usize_to_string(7), "7");
    assert_eq!(usize_to_string(10), "10");
    assert_eq!(usize_to_string(907), "907");
    assert_eq!(usize_to_string(100000), "100000");
}

#[test]
fn protocol_messages_are_exact() {
    assert_eq!(
        msg_set_discover_targets(),
        "{\"id\":1,\"method\":\"Target.setDiscoverTargets\",\"params\":{\"discover\":true}}"
    );
    assert_eq!(
        msg_set_auto_attach(),
        "{\"id\":2,\"method\":\"Target.setAutoAttach\",\"params\":{\"autoAttach\":true,\"waitForDebuggerOnStart\":false,\"flatten\":true}}"
    );
    assert_eq!(
        msg_get_targets(),
        "{\"id\":3,\"method\":\"Target.getTargets\",\"params\":{}}"
    );
    assert_eq!(
        msg_create_target("about:blank"),
        "{\"id\":1,\"method\":\"Target.createTarget\",\"params\":{\"url\":\"about:blank\"}}"
    );
    assert_eq!(
        msg_activate_target("TID1"),
        "{\"id\":1,\"method\":\"Target.activateTarget\",\"params\":{\"targetId\":\"TID1\"}}"
    );
    assert_eq!(
        msg_close_target("TID2"),
        "{\"id\":1,\"method\":\"Target.closeTarget\",\"params\":{\"targetId\":\"TID2\"}}"
    );
}

#[test]
fn envelope_escapes_json_strings() {
    assert_eq!(json_escape("plain"), "plain");
    assert_eq!(json_escape("a\"b\\c"), "a\\\"b\\\\c");
    assert_eq!(json_escape("line\nbreak\ttab"), "line\\nbreak\\ttab");
    assert_eq!(json_escape("\u{1}"), "\\u0001");
    assert_eq!(
        msg_create_target("http://x/?q=\"quoted\""),
        "{\"id\":1,\"method\":\"Target.createTarget\",\"params\":{\"url\":\"http://x/?q=\\\"quoted\\\"\"}}"
    );
    assert_eq!(cdp_envelope(5, "M.x", "{}"), "{\"id\":5,\"method\":\"M.x\",\"params\":{}}");
}

#[test]
fn version_url_uses_the_profile_port() {
    assert_eq!(version_url(9222), "http://localhost:9222/json/version");
    assert_eq!(version_url(1), "http://localhost:1/json/version");
}
