use hyper_uds::incoming::{accepted, AcceptStep};
use hyper_uds::sockaddr::AddressError;
use hyper_uds::socket::{
    selected, shut_down, transferred, OpenStep, Purpose, RecvStep, SocketError, INVALID_SOCKET,
};
use hyper_uds::ErrorKind;

#[test]
fn listener_is_bound_and_listens() {
    assert!(matches!(OpenStep::start(), OpenStep::Create));
    assert!(matches!(OpenStep::created(5), OpenStep::Protect));
    match OpenStep::protected(Purpose::Bind, Some("/a"), 1) {
        OpenStep::Bind(addr, len) => {
            assert_eq!(len, 5);
            assert_eq!(addr.sun_path[0], 47);
        }
        _ => panic!("not bound"),
    }
    assert!(matches!(OpenStep::attached(Purpose::Bind, 0), OpenStep::Listen(128)));
    assert!(matches!(OpenStep::listening(0), OpenStep::Ready));
}

#[test]
fn client_connects() {
    match OpenStep::protected(Purpose::Connect, Some("/tmp/x"), 1) {
        OpenStep::Connect(_, len) => assert_eq!(len, 9),
        _ => panic!("not connected"),
    }
    assert!(matches!(OpenStep::attached(Purpose::Connect, 0), OpenStep::Ready));
}

#[test]
fn accepted_socket_needs_no_address() {
    assert!(matches!(OpenStep::protected(Purpose::Accept, None, 1), OpenStep::Ready));
}

#[test]
fn failed_calls_end_the_opening() {
    assert!(matches!(
        OpenStep::created(INVALID_SOCKET),
        OpenStep::Failed(SocketError::Winsock)
    ));
    assert!(matches!(
        OpenStep::protected(Purpose::Connect, None, 0),
        OpenStep::Failed(SocketError::LastOs)
    ));
    assert!(matches!(
        OpenStep::protected(Purpose::Connect, None, 1),
        OpenStep::Failed(SocketError::Address(AddressError::NotUtf8))
    ));
    assert!(matches!(
        OpenStep::attached(Purpose::Bind, -1),
        OpenStep::Failed(SocketError::Winsock)
    ));
    assert!(matches!(OpenStep::listening(-1), OpenStep::Failed(SocketError::Winsock)));
}

#[test]
fn reading_waits_until_there_is_something() {
    assert_eq!(selected(-1, 1, 10), RecvStep::Failed);
    assert_eq!(selected(0, 0, 10), RecvStep::Sleep(1));
    assert_eq!(selected(1, 1, 10), RecvStep::Recv(10));
    assert_eq!(selected(0, 0, usize::MAX), RecvStep::Sleep(1));
}

#[test]
fn replies_are_counts_or_errors() {
    assert_eq!(transferred(0), Ok(0));
    assert_eq!(transferred(7), Ok(7));
    assert_eq!(transferred(-1), Err(SocketError::Winsock));
    assert_eq!(shut_down(0), Ok(()));
    assert_eq!(shut_down(-1), Err(SocketError::Winsock));
}

#[test]
fn listener_passes_over_failures() {
    assert!(matches!(accepted::<u8>(Ok(3)), AcceptStep::Yield(3)));
    let failure = std::io::Error::new(std::io::ErrorKind::ConnectionAborted, "gone");
    assert!(matches!(accepted::<u8>(Err(failure)), AcceptStep::Retry));
}

#[test]
fn quiet_looks_change_nothing() {
    for quiet in 0..3 {
        let mut slept = vec![];
        let mut looks = vec![(0, 0); quiet];
        looks.push((1, 1));
        let mut received = None;
        for (result, readable) in looks {
            match selected(result, readable, 10) {
                RecvStep::Sleep(seconds) => slept.push(seconds),
                step => received = Some(step),
            }
        }
        assert_eq!(slept, vec![1; quiet]);
        assert_eq!(received, Some(RecvStep::Recv(10)));
    }
}

#[test]
fn listener_hands_out_successes_in_order() {
    let mut handed_out = vec![];
    for attempt in [Ok(1), Err(std::io::ErrorKind::Interrupted.into()), Ok(2), Ok(3)] {
        match accepted::<u8>(attempt) {
            AcceptStep::Yield(connection) => handed_out.push(connection),
            AcceptStep::Retry => (),
        }
    }
    assert_eq!(handed_out, vec![1, 2, 3]);
}

#[test]
fn only_addresses_have_a_kind_of_their_own() {
    assert_eq!(
        SocketError::Address(AddressError::TooLong).kind(),
        Some(ErrorKind::InvalidInput)
    );
    assert_eq!(SocketError::Winsock.kind(), None);
    assert_eq!(SocketError::LastOs.kind(), None);
}
