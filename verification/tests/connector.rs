use hyper_uds::connector::decoded_path;
use hyper_uds::hexcode::HexError;
use hyper_uds::{ConnectError, ErrorKind, UdsConnector, Uri};

fn call(scheme: Option<&str>, host: Option<&str>) -> Result<String, ConnectError> {
    let uri = Uri {
        scheme: scheme.map(str::to_owned),
        host: host.map(str::to_owned),
        port: None,
        path_and_query: None,
    };
    UdsConnector::new().call(&uri)
}

fn message(scheme: Option<&str>, host: Option<&str>) -> String {
    call(scheme, host).unwrap_err().message()
}

#[test]
fn host_names_the_socket() {
    assert_eq!(call(Some("unix"), Some("2f746d702f78")).unwrap(), "/tmp/x");
    assert_eq!(call(Some("unix"), Some("2F746D702F78")).unwrap(), "/tmp/x");
    assert_eq!(call(Some("unix"), Some("")).unwrap(), "");
    assert_eq!(call(Some("unix"), Some("c3A9")).unwrap(), "\u{e9}");
    assert_eq!(call(Some("unix"), Some("00ff".get(0..2).unwrap())).unwrap(), "\0");
}

#[test]
fn socket_depends_on_scheme_and_host_alone() {
    let plain = Uri {
        scheme: Some("unix".to_owned()),
        host: Some("2f4a".to_owned()),
        port: None,
        path_and_query: None,
    };
    let other = Uri {
        scheme: Some("unix".to_owned()),
        host: Some("2F4A".to_owned()),
        port: Some(80),
        path_and_query: Some("/x?y".to_owned()),
    };
    assert_eq!(UdsConnector::new().call(&plain).unwrap(), "/J");
    assert_eq!(UdsConnector::new().call(&other).unwrap(), "/J");
    assert!(call(Some("unix"), Some("2fz")).is_err());
    assert!(call(Some("unix"), Some("2FZ")).is_err());
}

#[test]
fn default_connector_is_the_new_one() {
    let uri = Uri {
        scheme: Some("unix".to_owned()),
        host: Some("61".to_owned()),
        port: None,
        path_and_query: None,
    };
    assert_eq!(UdsConnector::default().call(&uri).unwrap(), "a");
    assert_eq!(format!("{:?}", UdsConnector::new()), "UdsConnector");
}

#[test]
fn other_schemes_are_refused() {
    match call(Some("http"), Some("61")) {
        Err(ConnectError::Scheme { scheme }) => assert_eq!(scheme, Some("http".to_owned())),
        other => panic!("{:?}", other),
    }
    assert_eq!(
        message(Some("http"), Some("61")),
        r#"expected req to have "unix" scheme but it has Some("http")"#
    );
    assert_eq!(
        message(Some("UNIX"), None),
        r#"expected req to have "unix" scheme but it has Some("UNIX")"#
    );
    assert_eq!(message(None, Some("61")), r#"expected req to have "unix" scheme but it has None"#);
}

#[test]
fn missing_host_is_refused() {
    assert!(matches!(call(Some("unix"), None), Err(ConnectError::NoHost)));
    assert_eq!(call(Some("unix"), None).unwrap_err().kind(), ErrorKind::Other);
    assert_eq!(message(Some("unix"), None), "could not decode UDS path from req host None");
}

#[test]
fn host_that_is_not_hexadecimal_is_refused() {
    match call(Some("unix"), Some("abc")) {
        Err(ConnectError::Hex { host, error }) => {
            assert_eq!(host, "abc");
            assert_eq!(error, HexError::OddLength);
        }
        other => panic!("{:?}", other),
    }
    match call(Some("unix"), Some("61g\n")) {
        Err(ConnectError::Hex { host, error }) => {
            assert_eq!(host, "61g\n");
            assert_eq!(error, HexError::InvalidHexCharacter { c: 'g', index: 2 });
        }
        other => panic!("{:?}", other),
    }
    match call(Some("unix"), Some("6\u{e9}1")) {
        Err(ConnectError::Hex { error, .. }) => {
            assert_eq!(error, HexError::InvalidHexCharacter { c: '\u{c3}', index: 1 });
        }
        other => panic!("{:?}", other),
    }
    assert_eq!(
        message(Some("unix"), Some("abc")),
        r#"could not decode UDS path from req host "abc": Odd number of digits"#
    );
    assert_eq!(
        message(Some("unix"), Some("2f746d702f78gh")),
        r#"could not decode UDS path from req host "2f746d702f78gh": "#.to_owned()
            + "Invalid character 'g' at position 12"
    );
    assert_eq!(
        message(Some("unix"), Some("a\"")),
        "could not decode UDS path from req host \"a\\\"\": Invalid character '\"' at position 1"
    );
}

#[test]
fn host_that_is_not_unicode_is_refused() {
    match call(Some("unix"), Some("61ff")) {
        Err(ConnectError::Utf8 { host, .. }) => assert_eq!(host, "61ff"),
        other => panic!("{:?}", other),
    }
    assert_eq!(
        message(Some("unix"), Some("61ff")),
        "could not decode UDS path from req host Some(\"61ff\"): \
         invalid utf-8 sequence of 1 bytes from index 1"
    );
    assert_eq!(
        message(Some("unix"), Some("61c3")),
        "could not decode UDS path from req host Some(\"61c3\"): \
         incomplete utf-8 byte sequence from index 1"
    );
}

#[test]
fn fixed_size_message_is_known() {
    let error =
        ConnectError::Hex { host: "61".to_owned(), error: HexError::InvalidStringLength };
    assert_eq!(
        error.message(),
        r#"could not decode UDS path from req host "61": Invalid string length"#
    );
}

#[test]
fn message_is_made_of_its_parts() {
    let hex = ConnectError::Hex { host: "h".to_owned(), error: HexError::OddLength };
    assert_eq!(hex.message_with("Q", "C"), "could not decode UDS path from req host Q: C");
    let utf8 = ConnectError::Utf8 { host: "h".to_owned(), reason: "r".to_owned() };
    assert_eq!(utf8.message_with("Q", "C"), "could not decode UDS path from req host Some(Q): C");
    let scheme = ConnectError::Scheme { scheme: Some("s".to_owned()) };
    assert_eq!(
        scheme.message_with("Q", "C"),
        r#"expected req to have "unix" scheme but it has Some(Q)"#
    );
}

#[test]
fn decoded_text_is_the_path() {
    assert_eq!(decoded_path("h", Ok("/a".to_owned())).unwrap(), "/a");
    match decoded_path("h", Err("why".to_owned())) {
        Err(ConnectError::Utf8 { host, reason }) => {
            assert_eq!(host, "h");
            assert_eq!(reason, "why");
        }
        other => panic!("{:?}", other),
    }
}
