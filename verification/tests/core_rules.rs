use rofi_browser_menu::bookmarks::{bookmarks_path, filter_bookmark_lines, prepare_bookmarks};
use rofi_browser_menu::config::{BrowserConfig, BrowserKind};
use rofi_browser_menu::dispatch::{
    classify_selection, close_all_confirmed, close_batch, parse_selection_index, Action,
};
use rofi_browser_menu::tabs::Tab;

fn strings(v: &[&str]) -> Vec<String> {
    v.iter().map(|s| s.to_string()).collect()
}

#[test]
fn config_recognized_values_resolve_deterministically() {
    let home = "/home/me";
    let (c, warned) = BrowserConfig::resolve(Some(&"brave-beta".to_string()), home);
    assert!(!warned);
    assert_eq!(c.name, "Brave Beta");
    assert_eq!(c.executable, "brave-browser-beta");
    assert_eq!(
        c.history_path,
        "/home/me/.config/BraveSoftware/Brave-Browser-Beta/Default/History"
    );
    assert_eq!(c.window_class, "Brave-browser");
    assert_eq!(c.cdp_port, 9222);

    let (c, warned) = BrowserConfig::resolve(Some(&"brave".to_string()), home);
    assert!(!warned);
    assert_eq!(c.name, "Brave");
    assert_eq!(c.executable, "brave-browser");
    assert_eq!(
        c.history_path,
        "/home/me/.config/BraveSoftware/Brave-Browser/Default/History"
    );
    assert_eq!(c.window_class, "Brave-browser");

    let (c, warned) = BrowserConfig::resolve(Some(&"zen".to_string()), home);
    assert!(!warned);
    assert_eq!(c.name, "Zen Browser");
    assert_eq!(c.executable, "zen-browser");
    assert_eq!(c.history_path, "/home/me/.zen/default/places.sqlite");
    assert_eq!(c.window_class, "zen");

    let (c, warned) = BrowserConfig::resolve(Some(&"chromium".to_string()), home);
    assert!(!warned);
    assert_eq!(c.name, "Chromium");
    assert_eq!(c.executable, "chromium");
    assert_eq!(c.history_path, "/home/me/.config/chromium/Default/History");
    assert_eq!(c.window_class, "Chromium");
}

#[test]
fn config_unrecognized_value_falls_back_with_warning() {
    let (c, warned) = BrowserConfig::resolve(Some(&"netscape".to_string()), "/h");
    assert!(warned);
    assert_eq!(c.name, "Brave Beta");
    let (c, warned) = BrowserConfig::resolve(Some(&"".to_string()), "/h");
    assert!(warned);
    assert_eq!(c.name, "Brave Beta");
}

#[test]
fn config_absent_selector_defaults_without_warning() {
    let (c, warned) = BrowserConfig::resolve(None, "/h");
    assert!(!warned);
    assert_eq!(c.name, "Brave Beta");
    let (kind, warned) = BrowserConfig::resolve_kind(None);
    assert!(!warned);
    assert!(kind == BrowserKind::BraveBeta);
}

#[test]
fn bookmark_filter_drops_and_sorts() {
    let input = strings(&["", "#a", "/b", "zzz", "#", "aaa"]);
    let filtered = filter_bookmark_lines(&input);
    assert_eq!(filtered, strings(&["zzz", "aaa"]));
    let sorted = prepare_bookmarks(&input);
    assert_eq!(sorted, strings(&["aaa", "zzz"]));
}

#[test]
fn bookmark_filter_is_idempotent() {
    let input = strings(&["", "#a", "/b", "zzz", "#", "aaa", "mid", "/x", "q"]);
    let once = filter_bookmark_lines(&input);
    let twice = filter_bookmark_lines(&once);
    assert_eq!(once, twice);
}

#[test]
fn bookmark_filter_is_order_independent() {
    let a = strings(&["", "#a", "/b", "zzz", "#", "aaa"]);
    let mut b = a.clone();
    b.reverse();
    assert_eq!(prepare_bookmarks(&a), prepare_bookmarks(&b));
}

#[test]
fn bookmark_sort_keeps_duplicates_and_handles_empty_input() {
    let dup = strings(&["b", "a", "b"]);
    assert_eq!(prepare_bookmarks(&dup), strings(&["a", "b", "b"]));
    assert_eq!(prepare_bookmarks(&Vec::new()), Vec::<String>::new());
    let only_excluded = strings(&["", "#x", "/y"]);
    assert_eq!(prepare_bookmarks(&only_excluded), Vec::<String>::new());
}

#[test]
fn bookmarks_path_is_under_home() {
    assert_eq!(bookmarks_path("/home/me"), "/home/me/.config/surfraw/bookmarks");
}

#[test]
fn numeric_selection_parses_to_zero_based_index() {
    assert_eq!(parse_selection_index("1. Example - http://x"), Some(0));
    assert_eq!(parse_selection_index("0. whatever"), Some(0));
    assert_eq!(parse_selection_index("12. t - u"), Some(11));
    assert_eq!(parse_selection_index("nope"), None);
    assert_eq!(parse_selection_index(""), None);
    assert_eq!(parse_selection_index("12x. t"), None);
    assert_eq!(parse_selection_index("99999999999999999999999999. t"), None);
}

#[test]
fn selection_grammar_matches_each_action() {
    assert!(classify_selection("Search (Brave Beta)") == Action::SearchRegular);
    assert!(classify_selection("- Bookmarks") == Action::Bookmarks { incognito: false });
    assert!(classify_selection("- Bookmarks incognito") == Action::Bookmarks { incognito: true });
    assert!(classify_selection("- History") == Action::History);
    assert!(classify_selection("- Search in incognito") == Action::SearchIncognito);
    assert!(classify_selection("- New Tab") == Action::NewTab);
    assert!(classify_selection("- Close Tab") == Action::CloseTabMenu);
    assert!(classify_selection("- Close ALL Tabs") == Action::CloseAllMenu);
    assert!(classify_selection("- Exit") == Action::Exit);
    assert!(classify_selection("2. Foo - bar") == Action::ActivateTab { index: 1 });
    assert!(classify_selection("7x. broken") == Action::ParseError);
    assert!(classify_selection("") == Action::NoAction);
    assert!(classify_selection("- Unknown") == Action::NoAction);
}

#[test]
fn rendered_tab_lines_dispatch_to_their_own_tab() {
    let t = tab("id-z", "Some - Title. with noise", "http://z/?q=1");
    let line = rofi_browser_menu::menu::tab_line(3, &t);
    assert!(classify_selection(&line) == Action::ActivateTab { index: 2 });
}

#[test]
fn close_all_requires_exact_confirmation() {
    assert!(close_all_confirmed("YES"));
    assert!(!close_all_confirmed(""));
    assert!(!close_all_confirmed("NO"));
    assert!(!close_all_confirmed("yes"));
    assert!(!close_all_confirmed("Yes"));
    assert!(!close_all_confirmed("YES "));
    assert!(!close_all_confirmed("anything"));
}

fn tab(id: &str, title: &str, url: &str) -> Tab {
    Tab { target_id: id.to_string(), title: title.to_string(), url: url.to_string() }
}

#[test]
fn close_batch_resolves_each_chosen_line_independently() {
    let tabs = vec![
        tab("id-a", "A", "http://a"),
        tab("id-b", "B", "http://b"),
        tab("id-c", "C", "http://c"),
    ];
    // one invalid target id in the middle must not change what the
    // others receive: every resolvable line stays in the batch
    let chosen = strings(&[
        "1. A - http://a",
        "2. B - http://b",
        "3. C - http://c",
    ]);
    let ids = close_batch(&chosen, &tabs);
    assert_eq!(ids, strings(&["id-a", "id-b", "id-c"]));
}

#[test]
fn close_batch_ignores_bad_lines_and_out_of_range_indices() {
    let tabs = vec![tab("id-a", "A", "u"), tab("id-b", "B", "u")];
    let chosen = strings(&["9. gone", "not a line", "2. B - u", "0. floor"]);
    let ids = close_batch(&chosen, &tabs);
    // "9." is out of range, the garbage line fails to parse, "2." is
    // tab id-b, and "0." floors to the first tab
    assert_eq!(ids, strings(&["id-b", "id-a"]));
}
