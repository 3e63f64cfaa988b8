use hyper_uds::read_half::{
    poll_read, read_buffer, read_requested, PendingRead, ReadPoll, ReaderEvent, ReaderState,
};
use hyper_uds::{ErrorKind, StreamError};

fn broken() -> std::io::Error {
    std::io::Error::new(std::io::ErrorKind::BrokenPipe, "broken")
}

fn ready(poll: ReadPoll) -> usize {
    match poll {
        ReadPoll::Ready(count) => count,
        _ => panic!("not ready"),
    }
}

#[test]
fn nothing_is_there_at_first() {
    let mut pending = PendingRead::new();
    let mut buf = [7; 4];
    assert!(pending.must_read());
    assert!(matches!(pending.poll_read(&mut buf), ReadPoll::Request));
    assert_eq!(buf, [7; 4]);
    assert!(pending.must_read());
}

#[test]
fn bytes_come_out_in_order() {
    let mut pending = PendingRead::new();
    pending.store(&[1, 2, 3, 4, 5, 0, 0], Ok(5));
    assert!(!pending.must_read());
    let mut buf = [9; 2];
    assert_eq!(ready(pending.poll_read(&mut buf)), 2);
    assert_eq!(buf, [1, 2]);
    let mut buf = [9; 5];
    assert_eq!(ready(pending.poll_read(&mut buf)), 3);
    assert_eq!(buf, [3, 4, 5, 9, 9]);
    assert!(pending.must_read());
    assert!(matches!(pending.poll_read(&mut buf), ReadPoll::Request));
    pending.store(&[6, 7], Ok(1));
    pending.store(&[8, 9], Ok(2));
    assert_eq!(ready(pending.poll_read(&mut buf)), 3);
    assert_eq!(buf, [6, 8, 9, 9, 9]);
}

#[test]
fn poll_without_room_takes_nothing() {
    let mut pending = PendingRead::new();
    pending.store(&[1], Ok(1));
    let mut none: [u8; 0] = [];
    assert_eq!(ready(pending.poll_read(&mut none)), 0);
    let mut buf = [0; 1];
    assert_eq!(ready(pending.poll_read(&mut buf)), 1);
    assert_eq!(buf, [1]);
}

#[test]
fn end_of_stream_stays() {
    let mut pending = PendingRead::new();
    pending.store(&[1, 2], Ok(2));
    pending.store(&[1, 2], Ok(0));
    let mut buf = [0; 8];
    assert_eq!(ready(pending.poll_read(&mut buf)), 2);
    assert_eq!(ready(pending.poll_read(&mut buf)), 0);
    assert_eq!(ready(pending.poll_read(&mut buf)), 0);
    assert!(!pending.must_read());
}

#[test]
fn read_error_comes_once_after_the_bytes() {
    let mut pending = PendingRead::new();
    pending.store(&[1, 2], Ok(2));
    pending.store(&[], Err(broken()));
    assert!(!pending.must_read());
    let mut buf = [0; 8];
    assert_eq!(ready(pending.poll_read(&mut buf)), 2);
    match pending.poll_read(&mut buf) {
        ReadPoll::Failed(StreamError::Io(err)) => {
            assert_eq!(err.kind(), std::io::ErrorKind::BrokenPipe);
        }
        _ => panic!("no error"),
    }
    assert_eq!(ready(pending.poll_read(&mut buf)), 0);
    assert!(!pending.must_read());
}

#[test]
fn request_to_a_lost_reader_fails() {
    assert!(matches!(read_requested(true), ReadPoll::Pending));
    match read_requested(false) {
        ReadPoll::Failed(error) => assert_eq!(error.message(), Some("reader receiver dropped")),
        _ => panic!("no error"),
    }
}

#[test]
fn stream_errors_have_messages() {
    assert_eq!(StreamError::ReaderPoisoned.message(), Some("reader mutex poisoned"));
    assert_eq!(StreamError::WriterPoisoned.message(), Some("writer mutex poisoned"));
    assert_eq!(StreamError::FlusherGone.message(), Some("flush receiver dropped"));
    assert_eq!(StreamError::Io(broken()).message(), None);
    assert_eq!(StreamError::ReaderPoisoned.kind(), Some(ErrorKind::Other));
    assert_eq!(StreamError::FlusherGone.kind(), Some(ErrorKind::Other));
    assert_eq!(StreamError::Io(broken()).kind(), None);
}

#[test]
fn reader_serves_one_request_at_a_time() {
    let state = ReaderState::start();
    assert_eq!(state, ReaderState::Receive);
    let state = state.next(ReaderEvent::Asked);
    assert_eq!(state, ReaderState::Check);
    let state = state.next(ReaderEvent::Checked { must_read: true });
    assert_eq!(state, ReaderState::Read);
    let state = state.next(ReaderEvent::ReadDone);
    assert_eq!(state, ReaderState::Store);
    let state = state.next(ReaderEvent::Stored);
    assert_eq!(state, ReaderState::Wake);
    let state = state.next(ReaderEvent::Woke);
    assert_eq!(state, ReaderState::Receive);
    let state = state.next(ReaderEvent::Asked);
    let state = state.next(ReaderEvent::Checked { must_read: false });
    assert_eq!(state, ReaderState::Wake);
}

#[test]
fn reader_stops() {
    assert_eq!(ReaderState::Receive.next(ReaderEvent::Closed), ReaderState::Stop);
    assert_eq!(ReaderState::Check.next(ReaderEvent::Poisoned), ReaderState::Stop);
    assert_eq!(ReaderState::Store.next(ReaderEvent::Poisoned), ReaderState::Stop);
}

#[test]
fn poisoned_reader_is_reported() {
    let mut buf = [7; 2];
    match poll_read(None, &mut buf) {
        ReadPoll::Failed(error) => assert_eq!(error.message(), Some("reader mutex poisoned")),
        _ => panic!("no error"),
    }
    assert_eq!(buf, [7; 2]);
    let mut pending = PendingRead::new();
    pending.store(&[1, 2, 3], Ok(3));
    assert_eq!(ready(poll_read(Some(&mut pending), &mut buf)), 2);
    assert_eq!(buf, [1, 2]);
    assert_eq!(ready(poll_read(Some(&mut pending), &mut buf)), 1);
    assert_eq!(buf, [3, 2]);
}

#[test]
fn reader_has_a_buffer() {
    assert_eq!(read_buffer(), vec![0; 1024]);
}

#[test]
fn one_request_is_one_read() {
    let mut pending = PendingRead::new();
    let mut buf = [0; 4];
    assert!(matches!(pending.poll_read(&mut buf), ReadPoll::Request));
    assert!(matches!(pending.poll_read(&mut buf), ReadPoll::Request));
    let first = ReaderState::start().next(ReaderEvent::Asked);
    let first = first.next(ReaderEvent::Checked { must_read: pending.must_read() });
    assert_eq!(first, ReaderState::Read);
    pending.store(&[5], Ok(1));
    let second = ReaderState::start().next(ReaderEvent::Asked);
    let second = second.next(ReaderEvent::Checked { must_read: pending.must_read() });
    assert_eq!(second, ReaderState::Wake);
}
