use hyper_uds::sockaddr::AddressError;
use hyper_uds::{sockaddr_un, ErrorKind};

fn error(path: Option<&str>) -> AddressError {
    match sockaddr_un::new(path) {
        Ok(_) => panic!("an address"),
        Err(error) => error,
    }
}

#[test]
fn address_holds_the_path() {
    let (addr, len) = match sockaddr_un::new(Some("/a\u{e9}")) {
        Ok(address) => address,
        Err(error) => panic!("{:?}", error),
    };
    assert_eq!(addr.sun_family, 1);
    assert_eq!(len, 7);
    let mut expected = [0; 108];
    expected[0] = 47;
    expected[1] = 97;
    expected[2] = -61;
    expected[3] = -87;
    assert_eq!(addr.sun_path, expected);
}

#[test]
fn longest_path_leaves_room_for_a_zero() {
    let path = "x".repeat(107);
    let (addr, len) = match sockaddr_un::new(Some(&path)) {
        Ok(address) => address,
        Err(error) => panic!("{:?}", error),
    };
    assert_eq!(len, 110);
    assert_eq!(addr.sun_path[106], 120);
    assert_eq!(addr.sun_path[107], 0);
    assert_eq!(error(Some(&"x".repeat(108))), AddressError::TooLong);
}

#[test]
fn empty_path_is_an_address() {
    let (addr, len) = match sockaddr_un::new(Some("")) {
        Ok(address) => address,
        Err(error) => panic!("{:?}", error),
    };
    assert_eq!(len, 3);
    assert_eq!(addr.sun_path, [0; 108]);
}

#[test]
fn bad_paths_are_told_apart() {
    assert_eq!(error(None), AddressError::NotUtf8);
    assert_eq!(error(Some("a\0b")), AddressError::InteriorNul);
    let mut long = "x".repeat(200);
    long.push('\0');
    assert_eq!(error(Some(&long)), AddressError::InteriorNul);
    assert_eq!(AddressError::TooLong.kind(), ErrorKind::InvalidInput);
    assert_eq!(AddressError::NotUtf8.message(), "path must be utf-8");
    assert_eq!(AddressError::InteriorNul.message(), "path contains interior null byte");
    assert_eq!(AddressError::TooLong.message(), "path must be shorter than SUN_LEN");
}
