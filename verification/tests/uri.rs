use hyper_uds::uri::uri_text;
use hyper_uds::{make_hyper_uri, UdsConnector, Uri};

fn parts(base: &str, path: &str) -> (Option<String>, Option<String>) {
    let uri = make_hyper_uri(base, path).unwrap();
    (uri.scheme, uri.host)
}

fn target(base: &str, path: &str) -> String {
    let uri = make_hyper_uri(base, path).unwrap();
    UdsConnector::new().call(&uri).unwrap()
}

#[test]
fn text_has_the_socket_in_hexadecimal() {
    assert_eq!(uri_text("/a", "/foo/?bar=baz"), "unix://2f61:0/foo/?bar=baz");
    assert_eq!(uri_text("", ""), "unix://:0");
    assert_eq!(uri_text("\u{e9}\u{7f}", "/"), "unix://c3a97f:0/");
}

#[test]
fn uri_has_scheme_and_host() {
    assert_eq!(parts("/a", "/"), (Some("unix".to_owned()), Some("2f61".to_owned())));
    assert_eq!(parts("", "/"), (Some("unix".to_owned()), Some(String::new())));
}

#[test]
fn uri_leads_back_to_the_socket() {
    assert_eq!(target("/tmp/hyper_uds.sock", "/"), "/tmp/hyper_uds.sock");
    assert_eq!(target("/tmp/hyper_uds.sock", "/foo/?bar=baz"), "/tmp/hyper_uds.sock");
    assert_eq!(target(r"C:\Temp\hyper_uds.sock", "/"), r"C:\Temp\hyper_uds.sock");
    assert_eq!(target("", "/"), "");
    assert_eq!(target("/\u{fc}\u{1f600}", ""), "/\u{fc}\u{1f600}");
    assert_eq!(target("/a", "?q=me@example.org"), "/a");
    assert_eq!(target("/a", "/~me@example.org"), "/a");
    assert_eq!(target("/a", "80/x"), "/a");
}

#[test]
fn at_sign_before_the_path_moves_the_host() {
    assert_eq!(parts("/a", "@2f62/").1, Some("2f62".to_owned()));
    assert_eq!(target("/a", "@2f62/"), "/b");
    assert_eq!(target("/a", "x@y@2F61:1/"), "/a");
    assert_eq!(parts("/a", "@[::1]:80/").1, Some("[::1]".to_owned()));
}

#[test]
fn different_sockets_have_different_uris() {
    assert_ne!(uri_text("/a", "/"), uri_text("/b", "/"));
    assert_ne!(uri_text("/a", "/"), uri_text("/a", "/x"));
    assert_ne!(uri_text("", "0:0/"), uri_text("0", "/"));
}

#[test]
fn path_that_is_no_uri_is_refused() {
    assert_eq!(make_hyper_uri("/a", "/ b").unwrap_err().message, "invalid uri character");
    assert_eq!(make_hyper_uri("/a", "\u{e9}").unwrap_err().message, "invalid uri character");
    assert_eq!(make_hyper_uri("/a", ":1/").unwrap_err().message, "invalid authority");
    assert_eq!(make_hyper_uri("/a", "@").unwrap_err().message, "invalid authority");
}

#[test]
fn longest_uri_is_accepted() {
    let base = "x".repeat(32762);
    assert_eq!(target(&base, "/"), base);
    assert_eq!(make_hyper_uri(&base, "/y").unwrap_err().message, "uri too long");
    assert_eq!(uri_text("/a", &"/".repeat(65521)).len(), 65534);
    assert_eq!(target("/a", &"/".repeat(65521)), "/a");
    assert_eq!(make_hyper_uri("/a", &"/".repeat(65522)).unwrap_err().message, "uri too long");
}

#[test]
fn every_path_character_is_accepted() {
    let mut path = String::from("/");
    for c in "!$%&'()*+,-./0123456789:;=?@ABCXYZ[\\]^_abcxyz|~".chars() {
        path.push(c);
    }
    assert_eq!(target("/a", &path), "/a");
}

#[test]
fn parsed_parts_make_a_uri() {
    let uri = Uri::from_parsed(Ok((
        Some("x".to_owned()),
        Some("y".to_owned()),
        Some(7),
        Some("/z".to_owned()),
    )))
    .unwrap();
    assert_eq!(uri.scheme, Some("x".to_owned()));
    assert_eq!(uri.host, Some("y".to_owned()));
    assert_eq!(uri.port, Some(7));
    assert_eq!(uri.path_and_query, Some("/z".to_owned()));
    let error = Uri::from_parsed(Err("empty string".to_owned())).unwrap_err();
    assert_eq!(error.message, "empty string");
}

#[test]
fn any_uri_can_be_parsed() {
    let uri = Uri::parse("http://me@example.org:80/x").unwrap();
    assert_eq!(uri.scheme, Some("http".to_owned()));
    assert_eq!(uri.host, Some("example.org".to_owned()));
    assert_eq!(uri.port, Some(80));
    let uri = Uri::parse("/x").unwrap();
    assert_eq!((uri.scheme, uri.host), (None, None));
    assert_eq!(Uri::parse("").unwrap_err().message, "empty string");
    assert_eq!(Uri::parse("unix://").unwrap_err().message, "invalid format");
}

fn asked(base: &str, path: &str) -> Option<String> {
    make_hyper_uri(base, path).unwrap().path_and_query
}

#[test]
fn uri_asks_for_its_path() {
    assert_eq!(asked("/a", "/foo/?bar=baz"), Some("/foo/?bar=baz".to_owned()));
    assert_eq!(asked("/b", "/foo/?bar=baz"), Some("/foo/?bar=baz".to_owned()));
    assert_eq!(asked("/a", "?bar"), Some("?bar".to_owned()));
    assert_eq!(asked("/a", ""), Some("/".to_owned()));
    assert_eq!(asked("/a", "#top"), Some("/".to_owned()));
    assert_eq!(asked("/a", "/x#top"), Some("/x".to_owned()));
    assert_eq!(asked("/a", "/x?y#z"), Some("/x?y".to_owned()));
    assert_eq!(asked("/a", "80/x"), Some("/x".to_owned()));
}

fn port(base: &str, path: &str) -> Option<u16> {
    make_hyper_uri(base, path).unwrap().port
}

#[test]
fn port_is_zero_for_a_request_path() {
    assert_eq!(port("/a", "/"), Some(0));
    assert_eq!(port("/b", "/foo/?bar=baz"), Some(0));
    assert_eq!(port("/a", "?q=me@example.org:80"), Some(0));
    assert_eq!(port("/a", "#top"), Some(0));
    assert_eq!(port("", ""), Some(0));
}

#[test]
fn start_of_the_path_goes_on_with_the_port() {
    assert_eq!(port("/a", "80/x"), Some(80));
    assert_eq!(port("/b", "80/x"), Some(80));
    assert_eq!(port("/a", "65535/"), Some(65535));
    assert_eq!(port("/a", "0000000007"), Some(7));
    assert_eq!(port("/a", "65536/"), None);
    assert_eq!(port("/a", "x/"), None);
    assert_eq!(port("/a", "+1/"), None);
}

#[test]
fn start_of_the_path_can_bring_a_port() {
    assert_eq!(port("/a", "@[::1]:80/"), Some(80));
    assert_eq!(port("/a", "@[::1]/"), None);
    assert_eq!(port("/a", "x@y@2F61:1/"), Some(1));
    assert_eq!(port("/a", "@2f62:+1/"), Some(1));
    assert_eq!(port("/a", "@2f62:/"), None);
    assert_eq!(port("/a", "@2f62/"), None);
}
