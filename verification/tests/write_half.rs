use hyper_uds::buffer::has_room;
use hyper_uds::write_half::{
    flush_requested, poll_flush, poll_shutdown, poll_write, FlushPoll, FlusherEvent, FlusherState,
    PendingWrite, ShutdownPoll,
};
use hyper_uds::StreamError;

fn refused() -> std::io::Error {
    std::io::Error::new(std::io::ErrorKind::ConnectionRefused, "refused")
}

#[test]
fn nothing_is_to_flush_at_first() {
    let mut pending = PendingWrite::new();
    assert!(matches!(pending.poll_flush(), FlushPoll::Ready));
    assert!(pending.take_chunk().is_none());
}

#[test]
fn written_bytes_are_taken_in_order() {
    let mut pending = PendingWrite::new();
    assert_eq!(pending.poll_write(&[1, 2]).unwrap(), 2);
    assert_eq!(pending.poll_write(&[3]).unwrap(), 1);
    assert!(matches!(pending.poll_flush(), FlushPoll::Request));
    assert_eq!(pending.take_chunk().unwrap().to_vec(), vec![1, 2, 3]);
    assert!(pending.take_chunk().is_none());
    assert!(matches!(pending.poll_flush(), FlushPoll::Request));
    assert!(!pending.finish(Ok(())));
    assert!(matches!(pending.poll_flush(), FlushPoll::Ready));
}

#[test]
fn flush_waits_for_what_came_meanwhile() {
    let mut pending = PendingWrite::new();
    pending.poll_write(&[1]).unwrap();
    assert_eq!(pending.take_chunk().unwrap().to_vec(), vec![1]);
    pending.poll_write(&[2]).unwrap();
    assert!(pending.finish(Ok(())));
    assert!(matches!(pending.poll_flush(), FlushPoll::Request));
    assert_eq!(pending.take_chunk().unwrap().to_vec(), vec![2]);
    assert!(!pending.finish(Ok(())));
    assert!(matches!(pending.poll_flush(), FlushPoll::Ready));
}

#[test]
fn empty_write_must_be_flushed() {
    let mut pending = PendingWrite::new();
    assert_eq!(pending.poll_write(&[]).unwrap(), 0);
    assert!(matches!(pending.poll_flush(), FlushPoll::Request));
    assert!(pending.take_chunk().is_none());
    assert!(!pending.finish(Ok(())));
    assert!(matches!(pending.poll_flush(), FlushPoll::Ready));
}

#[test]
fn write_error_comes_once_from_a_write() {
    let mut pending = PendingWrite::new();
    pending.poll_write(&[1]).unwrap();
    assert!(pending.take_chunk().is_some());
    assert!(!pending.finish(Err(refused())));
    match pending.poll_write(&[2]) {
        Err(StreamError::Io(err)) => {
            assert_eq!(err.kind(), std::io::ErrorKind::ConnectionRefused);
        }
        other => panic!("{:?}", other),
    }
    assert_eq!(pending.poll_write(&[3]).unwrap(), 0);
    assert_eq!(pending.poll_write(&[4]).unwrap(), 0);
    assert!(pending.take_chunk().is_none());
}

#[test]
fn write_error_comes_once_from_a_flush() {
    let mut pending = PendingWrite::new();
    pending.poll_write(&[1]).unwrap();
    assert!(pending.take_chunk().is_some());
    pending.finish(Err(refused()));
    assert!(matches!(pending.poll_flush(), FlushPoll::Failed(StreamError::Io(_))));
    assert!(matches!(pending.poll_flush(), FlushPoll::Request));
    assert!(pending.take_chunk().is_none());
    assert!(!pending.finish(Ok(())));
    assert!(matches!(pending.poll_flush(), FlushPoll::Ready));
    assert_eq!(pending.poll_write(&[2]).unwrap(), 0);
}

#[test]
fn bytes_left_behind_by_an_error_stay() {
    let mut pending = PendingWrite::new();
    pending.poll_write(&[1]).unwrap();
    assert!(pending.take_chunk().is_some());
    pending.poll_write(&[2]).unwrap();
    pending.finish(Err(refused()));
    assert!(matches!(pending.poll_flush(), FlushPoll::Failed(StreamError::Io(_))));
    assert!(pending.take_chunk().is_none());
    assert!(pending.finish(Ok(())));
    assert!(matches!(pending.poll_flush(), FlushPoll::Request));
}

#[test]
fn request_to_a_lost_flusher_fails() {
    assert!(matches!(flush_requested(true), FlushPoll::Pending));
    match flush_requested(false) {
        FlushPoll::Failed(error) => assert_eq!(error.message(), Some("flush receiver dropped")),
        _ => panic!("no error"),
    }
}

#[test]
fn shutdown_waits_for_the_flush() {
    assert!(matches!(poll_shutdown(FlushPoll::Ready), ShutdownPoll::Shutdown));
    assert!(matches!(poll_shutdown(FlushPoll::Request), ShutdownPoll::Request));
    assert!(matches!(poll_shutdown(FlushPoll::Pending), ShutdownPoll::Pending));
    match poll_shutdown(FlushPoll::Failed(StreamError::WriterPoisoned)) {
        ShutdownPoll::Failed(error) => assert_eq!(error.message(), Some("writer mutex poisoned")),
        _ => panic!("no error"),
    }
}

#[test]
fn flusher_takes_until_nothing_is_left() {
    let state = FlusherState::start();
    assert_eq!(state, FlusherState::Receive);
    let state = state.next(FlusherEvent::Asked);
    assert_eq!(state, FlusherState::Take);
    assert_eq!(state.next(FlusherEvent::Taken { any: false }), FlusherState::Finish);
    let state = state.next(FlusherEvent::Taken { any: true });
    assert_eq!(state, FlusherState::Write);
    let state = state.next(FlusherEvent::Wrote);
    assert_eq!(state, FlusherState::Finish);
    assert_eq!(state.next(FlusherEvent::Finished { again: true }), FlusherState::Take);
    let state = state.next(FlusherEvent::Finished { again: false });
    assert_eq!(state, FlusherState::Wake);
    assert_eq!(state.next(FlusherEvent::Woke), FlusherState::Receive);
}

#[test]
fn flusher_stops() {
    assert_eq!(FlusherState::Receive.next(FlusherEvent::Closed), FlusherState::Stop);
    assert_eq!(FlusherState::Take.next(FlusherEvent::Poisoned), FlusherState::Stop);
    assert_eq!(FlusherState::Finish.next(FlusherEvent::Poisoned), FlusherState::Stop);
}

#[test]
fn new_buffer_has_room() {
    let pending = PendingWrite::new();
    assert!(has_room(&pending.bytes, 0));
    assert!(has_room(&pending.bytes, isize::MAX as usize / 2));
    assert!(!has_room(&pending.bytes, isize::MAX as usize / 2 + 1));
    assert!(!has_room(&pending.bytes, usize::MAX));
}

#[test]
fn poisoned_writer_is_reported() {
    match poll_write(None, &[1]) {
        Err(error) => assert_eq!(error.message(), Some("writer mutex poisoned")),
        Ok(_) => panic!("no error"),
    }
    match poll_flush(None) {
        FlushPoll::Failed(error) => assert_eq!(error.message(), Some("writer mutex poisoned")),
        _ => panic!("no error"),
    }
    let mut pending = PendingWrite::new();
    assert_eq!(poll_write(Some(&mut pending), &[1, 2]).unwrap(), 2);
    assert!(matches!(poll_flush(Some(&mut pending)), FlushPoll::Request));
    assert_eq!(pending.take_chunk().unwrap().to_vec(), vec![1, 2]);
}
