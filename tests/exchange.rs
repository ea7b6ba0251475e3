use gopher_server::cgi::Cgi;
use gopher_server::config::Config;
use gopher_server::handler::{
    gophermap_response, not_found_response, parse_request, Action, Event, Exchange, Phase,
};
use gopher_server::log::Category;
use gopher_server::menu::Entry;

fn config() -> Config {
    Config::new(
        String::from("/srv/gopher"),
        String::from("localhost"),
        7070,
        None,
    )
}

fn entry(name: &str, is_dir: bool) -> Entry {
    Entry { name: String::from(name), is_dir }
}

fn expect_log(action: Action, category: Category, message: &str) {
    match action {
        Action::Log(c, m) => {
            assert_eq!(c, category);
            assert_eq!(m, message);
        }
        _ => panic!("expected a log record"),
    }
}

fn expect_path(action: Action, kind: &str, path: &str) {
    let (k, p) = match action {
        Action::IsDirectory(p) => ("dir", p),
        Action::IsFile(p) => ("file", p),
        Action::Read(p) => ("read", p),
        Action::List(p) => ("list", p),
        _ => panic!("expected an action on a path"),
    };
    assert_eq!(k, kind);
    assert_eq!(p, path);
}

fn expect_reply(action: Action) -> Vec<u8> {
    match action {
        Action::Reply(b) => b,
        _ => panic!("expected a reply"),
    }
}

fn begin(config: &Config, request: &str) -> Exchange {
    let (mut ex, first) = Exchange::start(config, request, "10.0.0.1:4000");
    let message = format!("10.0.0.1:4000 - /{}", request.trim());
    expect_log(first, Category::Request, &message);
    let path = format!("/srv/gopher/{}", request.trim());
    expect_path(ex.step(config, Event::Logged), "dir", &path);
    ex
}

#[test]
fn root_menu_lists_file_and_directory() {
    let config = config();
    let mut ex = begin(&config, "");
    expect_path(ex.step(&config, Event::Answer(true)), "file", "/srv/gopher//gophermap");
    expect_path(ex.step(&config, Event::Answer(false)), "list", "/srv/gopher/");
    let listing = vec![entry("about.txt", false), entry("docs", true)];
    let reply = expect_reply(ex.step(&config, Event::Listing(listing)));
    assert_eq!(
        reply,
        b"0about.txt\t/about.txt\tlocalhost\t7070\r\n1docs\t/docs\tlocalhost\t7070\r\n.\r\n".to_vec()
    );
    assert_eq!(ex.phase, Phase::Done);
}

#[test]
fn missing_request_gets_error_menu() {
    let config = config();
    let mut ex = begin(&config, "missing\r\n");
    expect_path(ex.step(&config, Event::Answer(false)), "file", "/srv/gopher/missing");
    expect_log(
        ex.step(&config, Event::Answer(false)),
        Category::Error,
        "10.0.0.1:4000 - /missing doesn't exist!",
    );
    let reply = expect_reply(ex.step(&config, Event::Logged));
    assert_eq!(
        reply,
        b"3 missing doesn't exist!\terror.host\t1\r\ni This resource cannot be located.\terror.host\t1\r\n.\r\n"
            .to_vec()
    );
}

#[test]
fn script_receives_query_and_output_is_sent_as_is() {
    let config = config();
    let mut ex = begin(&config, "cgi-bin/echo.sh?hello=1");
    expect_path(
        ex.step(&config, Event::Answer(false)),
        "file",
        "/srv/gopher/cgi-bin/echo.sh",
    );
    match ex.step(&config, Event::Answer(true)) {
        Action::Run(cgi) => {
            assert_eq!(cgi.program, "/srv/gopher/cgi-bin/echo.sh");
            assert_eq!(cgi.query_string, "hello=1");
        }
        _ => panic!("expected a script run"),
    }
    let reply = expect_reply(ex.step(&config, Event::Contents(b"hello=1".to_vec())));
    assert_eq!(reply, b"hello=1".to_vec());
}

#[test]
fn gophermap_is_sent_with_end_line() {
    let config = config();
    let mut ex = begin(&config, "docs");
    expect_path(ex.step(&config, Event::Answer(true)), "file", "/srv/gopher/docs/gophermap");
    expect_path(ex.step(&config, Event::Answer(true)), "read", "/srv/gopher/docs/gophermap");
    let map = b"iWelcome\tfake\t(NULL)\t0\r\n".to_vec();
    let reply = expect_reply(ex.step(&config, Event::Contents(map)));
    assert_eq!(reply, b"iWelcome\tfake\t(NULL)\t0\r\n.\r\n".to_vec());
}

#[test]
fn plain_file_is_sent_byte_for_byte() {
    let config = config();
    let mut ex = begin(&config, "about.txt");
    expect_path(ex.step(&config, Event::Answer(false)), "file", "/srv/gopher/about.txt");
    expect_path(ex.step(&config, Event::Answer(true)), "read", "/srv/gopher/about.txt");
    let bytes = vec![0u8, 255, 10, 46, 13, 10];
    let reply = expect_reply(ex.step(&config, Event::Contents(bytes.clone())));
    assert_eq!(reply, bytes);
}

#[test]
fn file_check_uses_decoded_path_but_reads_raw_path() {
    let config = config();
    let mut ex = begin(&config, "a%20b.txt");
    expect_path(ex.step(&config, Event::Answer(false)), "file", "/srv/gopher/a b.txt");
    expect_path(ex.step(&config, Event::Answer(true)), "read", "/srv/gopher/a%20b.txt");
}

#[test]
fn undecodable_path_aborts() {
    let config = config();
    let mut ex = begin(&config, "bad%FF");
    assert!(matches!(ex.step(&config, Event::Answer(false)), Action::Abort));
    assert_eq!(ex.phase, Phase::Done);
}

#[test]
fn event_out_of_place_aborts() {
    let config = config();
    let mut ex = begin(&config, "docs");
    assert!(matches!(ex.step(&config, Event::Logged), Action::Abort));
    assert!(matches!(ex.step(&config, Event::Answer(true)), Action::Abort));
}

#[test]
fn upper_case_cgi_bin_runs_script() {
    let config = config();
    let mut ex = begin(&config, "CGI-Bin/run?x?y");
    expect_path(ex.step(&config, Event::Answer(false)), "file", "/srv/gopher/CGI-Bin/run");
    match ex.step(&config, Event::Answer(true)) {
        Action::Run(cgi) => {
            assert_eq!(cgi.program, "/srv/gopher/CGI-Bin/run");
            assert_eq!(cgi.query_string, "xy");
        }
        _ => panic!("expected a script run"),
    }
}

#[test]
fn selector_sent_back_resolves_to_entry() {
    let config = config();
    let mut ex = begin(&config, "docs/");
    expect_path(ex.step(&config, Event::Answer(true)), "file", "/srv/gopher/docs//gophermap");
    expect_path(ex.step(&config, Event::Answer(false)), "list", "/srv/gopher/docs/");
    let reply = expect_reply(ex.step(&config, Event::Listing(vec![entry("notes.txt", false)])));
    assert_eq!(reply, b"0notes.txt\t/docs/notes.txt\tlocalhost\t7070\r\n.\r\n".to_vec());
    let request = parse_request(b"/docs/notes.txt\r\n").unwrap();
    assert_eq!(request, "/docs/notes.txt\r\n");
    let (next, _) = Exchange::start(&config, &request, "10.0.0.1:4000");
    assert_eq!(next.path, "/srv/gopher//docs/notes.txt");
}

#[test]
fn parse_request_keeps_whole_line() {
    assert!(parse_request(b"").is_none());
    assert_eq!(parse_request(b"\n").unwrap(), "\n");
    assert_eq!(parse_request(b"missing\r\n").unwrap(), "missing\r\n");
    assert_eq!(parse_request(b"/abc\r\n").unwrap(), "/abc\r\n");
    assert_eq!(parse_request(b"/a\xffb").unwrap(), "/a\u{FFFD}b");
}

#[test]
fn received_line_names_missing_resource() {
    let config = config();
    let request = parse_request(b"missing\r\n").unwrap();
    let mut ex = begin(&config, &request);
    expect_path(ex.step(&config, Event::Answer(false)), "file", "/srv/gopher/missing");
    ex.step(&config, Event::Answer(false));
    let reply = expect_reply(ex.step(&config, Event::Logged));
    assert!(reply.starts_with(b"3 missing doesn't exist!\t"));
}

#[test]
fn selector_with_leading_space_resolves_to_entry() {
    let config = config();
    let mut ex = begin(&config, " b");
    expect_path(ex.step(&config, Event::Answer(true)), "file", "/srv/gopher/b/gophermap");
    ex.step(&config, Event::Answer(false));
    let reply = expect_reply(ex.step(&config, Event::Listing(vec![entry("X", false)])));
    assert_eq!(reply, b"0X\t/b/X\tlocalhost\t7070\r\n.\r\n".to_vec());
}

#[test]
fn not_found_response_trims_request() {
    let r = not_found_response("  gone \t");
    assert_eq!(
        r,
        b"3 gone doesn't exist!\terror.host\t1\r\ni This resource cannot be located.\terror.host\t1\r\n.\r\n"
            .to_vec()
    );
}

#[test]
fn gophermap_response_appends_end_line() {
    assert_eq!(gophermap_response(Vec::new()), b".\r\n".to_vec());
    assert_eq!(gophermap_response(b"x".to_vec()), b"x.\r\n".to_vec());
}

#[test]
fn cgi_new_decodes_and_splits() {
    let c = Cgi::new("/r/cgi-bin/s.sh?q=%41%2").unwrap();
    assert_eq!(c.program, "/r/cgi-bin/s.sh");
    assert_eq!(c.query_string, "q=A%2");
    let c = Cgi::new("/r/cgi-bin/s%3Fh").unwrap();
    assert_eq!(c.program, "/r/cgi-bin/s");
    assert_eq!(c.query_string, "h");
    assert!(Cgi::new("/r/cgi-bin/%ff").is_none());
}
