use gopher_server::config::Config;
use gopher_server::log::{format_record, missing_message, record, request_message, Category};
use gopher_server::menu::{Entry, Menu};
use gopher_server::path::{is_cgi_path, resolve, split_on, split_query};

fn entry(name: &str, is_dir: bool) -> Entry {
    Entry { name: String::from(name), is_dir }
}

#[test]
fn new_menu_is_empty() {
    assert!(Menu::new().items.is_empty());
    assert_eq!(Menu::new().render(), ".\r\n");
}

#[test]
fn normalize_path_drops_empty_and_dot_segments() {
    assert_eq!(Menu::normalize_path("a//b/./c/"), "a/b/c");
    assert_eq!(Menu::normalize_path("/x"), "x");
    assert_eq!(Menu::normalize_path("./"), "");
    assert_eq!(Menu::normalize_path(""), "");
    assert_eq!(Menu::normalize_path("../up/.hidden"), "../up/.hidden");
}

#[test]
fn menu_has_one_item_per_entry_with_root_relative_selectors() {
    let config = Config::new(String::from("/srv"), String::from("example.org"), 70, None);
    let entries = vec![entry("x", false), entry("y", true), entry("z z", false)];
    let menu = Menu::from_entries(" /docs//./sub/ \r\n", &entries, &config);
    assert_eq!(menu.items.len(), 3);
    let selectors: Vec<&str> = menu.items.iter().map(|i| i.selector.as_str()).collect();
    assert_eq!(selectors, vec!["docs/sub/x", "docs/sub/y", "docs/sub/z z"]);
    assert_eq!(menu.items[0].media, 0);
    assert_eq!(menu.items[1].media, 1);
    assert_eq!(menu.items[2].description, "z z");
    assert_eq!(menu.items[1].host, "example.org");
    assert_eq!(menu.items[1].port, 70);
    assert_eq!(
        menu.render(),
        "0x\t/docs/sub/x\texample.org\t70\r\n1y\t/docs/sub/y\texample.org\t70\r\n0z z\t/docs/sub/z z\texample.org\t70\r\n.\r\n"
    );
    assert_eq!(menu.to_bytes(), menu.render().into_bytes());
}

#[test]
fn empty_listing_gives_only_end_line() {
    let config = Config::new(String::from("."), String::from("h"), 0, None);
    let menu = Menu::from_entries("", &Vec::new(), &config);
    assert_eq!(menu.render(), ".\r\n");
}

#[test]
fn port_numbers_render_in_decimal() {
    let config = Config::new(String::from("."), String::from("h"), 4294967295, None);
    let menu = Menu::from_entries("", &vec![entry("a", false)], &config);
    assert_eq!(menu.render(), "0a\t/a\th\t4294967295\r\n.\r\n");
    let config = Config::new(String::from("."), String::from("h"), 0, None);
    let menu = Menu::from_entries("", &vec![entry("a", true)], &config);
    assert_eq!(menu.render(), "1a\t/a\th\t0\r\n.\r\n");
}

#[test]
fn resolve_joins_root_and_trimmed_request() {
    assert_eq!(resolve("/srv/gopher", "  docs \r\n"), "/srv/gopher/docs");
    assert_eq!(resolve(".", ""), "./");
    assert_eq!(resolve("/r", "\u{3000}x\u{a0}"), "/r/x");
}

#[test]
fn cgi_bin_is_found_in_any_case() {
    assert!(is_cgi_path("/srv/cgi-bin/x.sh"));
    assert!(is_cgi_path("/srv/CGI-BIN/x.sh?a"));
    assert!(is_cgi_path("cgi-bin"));
    assert!(!is_cgi_path("/srv/cgi-binx/x.sh"));
    assert!(!is_cgi_path("/srv/cgi/bin"));
    assert!(!is_cgi_path(""));
}

#[test]
fn split_query_keeps_all_after_first_mark() {
    assert_eq!(split_query("a?b?c"), (String::from("a"), String::from("bc")));
    assert_eq!(split_query("a"), (String::from("a"), String::new()));
    assert_eq!(split_query("?q"), (String::new(), String::from("q")));
}

#[test]
fn split_on_keeps_empty_pieces() {
    assert_eq!(split_on("/a//b", '/'), vec!["", "a", "", "b"]);
    assert_eq!(split_on("", '/'), vec![""]);
}

#[test]
fn log_records_have_stamp_category_and_message() {
    assert_eq!(
        format_record("01/02/2024 03:04:05.678", Category::Info, "Listening on 127.0.0.1:7070"),
        "[01/02/2024 03:04:05.678] Info: Listening on 127.0.0.1:7070\n"
    );
    let r = record(Category::Error, "x");
    assert!(r.starts_with('['));
    assert!(r.ends_with("] Error: x\n"));
    let stamp: Vec<char> = r[1..r.len() - "] Error: x\n".len()].chars().collect();
    let n = stamp.len();
    assert!(n >= 23);
    assert_eq!((stamp[2], stamp[5]), ('/', '/'));
    assert_eq!((stamp[n - 13], stamp[n - 10], stamp[n - 7], stamp[n - 4]), (' ', ':', ':', '.'));
    for i in [0, 1, 3, 4, n - 12, n - 11, n - 9, n - 8, n - 6, n - 5, n - 3, n - 2, n - 1] {
        assert!(stamp[i].is_ascii_digit());
    }
}

#[test]
fn log_messages_name_address_and_request() {
    assert_eq!(request_message("1.2.3.4:5", " docs\r\n"), "1.2.3.4:5 - /docs");
    assert_eq!(missing_message("1.2.3.4:5", "nope\n"), "1.2.3.4:5 - /nope doesn't exist!");
    assert_eq!(Category::Request.name(), "Request");
    assert_eq!(Category::Error.name(), "Error");
    assert_eq!(Category::Info.name(), "Info");
}
