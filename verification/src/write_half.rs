//! The writing half of a stream whose socket only blocks.
//!
//! What is written is kept under a lock. A flush asks a thread to write it to the socket.

use vstd::prelude::*;

use crate::buffer::buffered;
use crate::buffer::has_room_for;
use crate::stream_error::StreamError;

verus! {

/// What the stream has left for the flushing thread to write.
pub struct PendingWrite {
    /// Bytes that were accepted and that the thread has not taken yet.
    pub bytes: bytes::BytesMut,
    /// The thread has written everything.
    pub flushed: bool,
    /// The error that ended the writing, until it is reported.
    pub err: Option<std::io::Error>,
    /// Nothing more will be accepted.
    pub eof: bool,
}

/// A [`PendingWrite`] with the bytes that it holds.
pub struct PendingWriteView {
    pub bytes: Seq<u8>,
    pub flushed: bool,
    pub err: Option<std::io::Error>,
    pub eof: bool,
}

/// What a poll for a flush comes to.
pub enum FlushPoll {
    /// Everything is flushed.
    Ready,
    /// The writing has failed.
    Failed(StreamError),
    /// Something is left: ask the flushing thread, then see [`flush_requested`].
    Request,
    /// The flushing thread has been asked and will wake the caller.
    Pending,
}

/// What a poll for a shutdown comes to.
pub enum ShutdownPoll {
    /// Everything is flushed: shut the socket down.
    Shutdown,
    /// The writing has failed.
    Failed(StreamError),
    /// Something is left: ask the flushing thread.
    Request,
    /// The flushing thread has been asked and will wake the caller.
    Pending,
}

impl View for PendingWrite {
    type V = PendingWriteView;

    open spec fn view(&self) -> PendingWriteView {
        PendingWriteView {
            bytes: buffered(self.bytes),
            flushed: self.flushed,
            err: self.err,
            eof: self.eof,
        }
    }
}

impl PendingWriteView {
    /// Nothing written yet, so nothing to flush.
    pub open spec fn initial() -> PendingWriteView {
        PendingWriteView { bytes: Seq::empty(), flushed: true, err: None, eof: false }
    }

    /// An error also ends the writing, and where everything is flushed, nothing is left.
    pub open spec fn well_formed(self) -> bool {
        &&& self.err is Some ==> self.eof
        &&& self.flushed ==> self.bytes.len() == 0
    }

    /// The outcome of writing `buf`: how much of it was accepted.
    pub open spec fn write(self, buf: Seq<u8>) -> Result<usize, StreamError> {
        if self.err is Some {
            Err(StreamError::Io(self.err->0))
        } else if self.eof {
            Ok(0)
        } else {
            Ok(buf.len() as usize)
        }
    }

    /// What is there after writing `buf`.
    pub open spec fn written(self, buf: Seq<u8>) -> PendingWriteView {
        if self.err is Some {
            PendingWriteView { err: None, ..self }
        } else if self.eof {
            self
        } else {
            PendingWriteView { bytes: self.bytes + buf, flushed: false, ..self }
        }
    }

    /// The outcome of a poll for a flush.
    pub open spec fn flush(self) -> FlushPoll {
        if self.err is Some {
            FlushPoll::Failed(StreamError::Io(self.err->0))
        } else if self.flushed {
            FlushPoll::Ready
        } else {
            FlushPoll::Request
        }
    }

    /// What a poll for a flush comes to in the end, where asking the thread, if that is called for,
    /// succeeds or not.
    pub open spec fn flush_outcome(self, sent: bool) -> FlushPoll {
        if self.flush() is Request {
            flush_request(sent)
        } else {
            self.flush()
        }
    }

    /// What is there after a poll for a flush.
    pub open spec fn flush_polled(self) -> PendingWriteView {
        PendingWriteView { err: None, ..self }
    }

    /// What the thread takes to write.
    pub open spec fn chunk(self) -> Option<Seq<u8>> {
        if self.bytes.len() > 0 && !self.eof && self.err is None {
            Some(self.bytes)
        } else {
            None
        }
    }

    /// What is left after the thread has taken what it takes.
    pub open spec fn chunk_taken(self) -> PendingWriteView {
        if self.chunk() is Some {
            PendingWriteView { bytes: Seq::empty(), ..self }
        } else {
            self
        }
    }

    /// Whether the thread has to take more after a write to the socket that came to `result`.
    pub open spec fn again(self, result: Result<(), std::io::Error>) -> bool {
        result is Ok && self.bytes.len() > 0
    }

    /// What is there after a write to the socket that came to `result`.
    pub open spec fn finished(self, result: Result<(), std::io::Error>) -> PendingWriteView {
        match result {
            Ok(()) => PendingWriteView {
                flushed: self.flushed || self.bytes.len() == 0,
                ..self
            },
            Err(err) => PendingWriteView { err: Some(err), eof: true, ..self },
        }
    }
}

impl PendingWrite {
    /// Nothing written yet.
    pub fn new() -> (pending: PendingWrite)
        ensures
            pending@ == PendingWriteView::initial(),
            pending@.well_formed(),
    {
        PendingWrite { bytes: bytes::BytesMut::new(), flushed: true, err: None, eof: false }
    }

    /// Accepts all of `buf`, unless the writing has failed: then the error is reported, once, and
    /// after it nothing is accepted.
    pub fn poll_write(&mut self, buf: &[u8]) -> (written: Result<usize, StreamError>)
        requires
            old(self)@.err is None && !old(self)@.eof ==> has_room_for(
                old(self)@.bytes.len(),
                buf@.len(),
            ),
        ensures
            written == old(self)@.write(buf@),
            final(self)@ == old(self)@.written(buf@),
            old(self)@.well_formed() ==> final(self)@.well_formed(),
            match written {
                Ok(count) => {
                    &&& old(self)@.err is None
                    &&& count == (if old(self)@.eof {
                        0
                    } else {
                        buf@.len()
                    })
                    &&& final(self)@.bytes == old(self)@.bytes + buf@.take(count as int)
                    &&& final(self)@.flushed == (old(self)@.eof && old(self)@.flushed)
                },
                Err(error) => {
                    &&& old(self)@.err matches Some(err) && error == StreamError::Io(err)
                    &&& final(self)@.bytes == old(self)@.bytes
                    &&& final(self)@.flushed == old(self)@.flushed
                },
            },
            final(self)@.err is None,
            final(self)@.eof == old(self)@.eof,
    {
        if let Some(err) = self.err.take() {
            Err(StreamError::Io(err))
        } else if self.eof {
            Ok(0)
        } else {
            self.bytes.extend_from_slice(buf);
            self.flushed = false;
            Ok(buf.len())
        }
    }

    /// Tells whether everything is flushed. An error is reported first, once.
    pub fn poll_flush(&mut self) -> (poll: FlushPoll)
        ensures
            poll == old(self)@.flush(),
            final(self)@ == old(self)@.flush_polled(),
            old(self)@.well_formed() ==> final(self)@.well_formed(),
            match poll {
                FlushPoll::Ready => old(self)@.err is None && old(self)@.flushed,
                FlushPoll::Failed(error) => old(self)@.err matches Some(err) && error
                    == StreamError::Io(err),
                FlushPoll::Request => old(self)@.err is None && !old(self)@.flushed,
                FlushPoll::Pending => false,
            },
            final(self)@.bytes == old(self)@.bytes,
            final(self)@.flushed == old(self)@.flushed,
            final(self)@.eof == old(self)@.eof,
            final(self)@.err is None,
    {
        if let Some(err) = self.err.take() {
            FlushPoll::Failed(StreamError::Io(err))
        } else if self.flushed {
            FlushPoll::Ready
        } else {
            FlushPoll::Request
        }
    }

    /// Takes everything that is left to write, unless the writing has failed.
    pub fn take_chunk(&mut self) -> (chunk: Option<bytes::BytesMut>)
        ensures
            old(self)@.chunk() == (match chunk {
                Some(chunk) => Some(buffered(chunk)),
                None => None,
            }),
            final(self)@ == old(self)@.chunk_taken(),
            old(self)@.well_formed() ==> final(self)@.well_formed(),
            match chunk {
                Some(chunk) => {
                    &&& !old(self)@.eof && old(self)@.err is None
                    &&& buffered(chunk).len() > 0
                    &&& buffered(chunk) == old(self)@.bytes
                    &&& final(self)@.bytes.len() == 0
                },
                None => {
                    &&& old(self)@.bytes.len() == 0 || old(self)@.eof || old(self)@.err is Some
                    &&& final(self)@.bytes == old(self)@.bytes
                },
            },
            final(self)@.flushed == old(self)@.flushed,
            final(self)@.err == old(self)@.err,
            final(self)@.eof == old(self)@.eof,
    {
        if !self.bytes.is_empty() && !self.eof && self.err.is_none() {
            Some(self.bytes.split())
        } else {
            None
        }
    }

    /// Notes how writing to the socket went, and tells whether there is more to take by now.
    pub fn finish(&mut self, result: Result<(), std::io::Error>) -> (again: bool)
        ensures
            again == old(self)@.again(result),
            final(self)@ == old(self)@.finished(result),
            old(self)@.well_formed() ==> final(self)@.well_formed(),
            final(self)@.bytes == old(self)@.bytes,
            match result {
                Ok(()) => {
                    &&& again <==> old(self)@.bytes.len() > 0
                    &&& final(self)@.flushed == (old(self)@.flushed || !again)
                    &&& final(self)@.err == old(self)@.err
                    &&& final(self)@.eof == old(self)@.eof
                },
                Err(err) => {
                    &&& !again
                    &&& final(self)@.flushed == old(self)@.flushed
                    &&& final(self)@.err == Some(err)
                    &&& final(self)@.eof
                },
            },
    {
        match result {
            Ok(()) => if self.bytes.is_empty() {
                self.flushed = true;
                false
            } else {
                true
            },
            Err(err) => {
                self.err = Some(err);
                self.eof = true;
                false
            },
        }
    }
}

/// What a poll for a flush comes to after the thread has been asked: it will wake the caller,
/// unless it is gone.
pub open spec fn flush_request(sent: bool) -> FlushPoll {
    if sent {
        FlushPoll::Pending
    } else {
        FlushPoll::Failed(StreamError::FlusherGone)
    }
}

/// What a poll for a flush comes to after the thread has been asked: it will wake the caller,
/// unless it is gone.
pub fn flush_requested(sent: bool) -> (poll: FlushPoll)
    ensures
        poll == flush_request(sent),
        sent ==> poll is Pending,
        !sent ==> poll == FlushPoll::Failed(StreamError::FlusherGone),
{
    if sent {
        FlushPoll::Pending
    } else {
        FlushPoll::Failed(StreamError::FlusherGone)
    }
}

/// Writes to what is pending, which there is none of where its lock is poisoned. A write is never
/// put off: there is an outcome at once, and nobody has to be woken.
pub fn poll_write(pending: Option<&mut PendingWrite>, buf: &[u8]) -> (written: Result<
    usize,
    StreamError,
>)
    requires
        pending matches Some(pending) ==> (pending@.err is None && !pending@.eof ==> has_room_for(
            pending@.bytes.len(),
            buf@.len(),
        )),
    ensures
        match pending {
            Some(pending) => {
                &&& written == pending@.write(buf@)
                &&& final(pending)@ == pending@.written(buf@)
            },
            None => written == Err::<usize, StreamError>(StreamError::WriterPoisoned),
        },
{
    match pending {
        Some(pending) => pending.poll_write(buf),
        None => Err(StreamError::WriterPoisoned),
    }
}

/// Polls what is pending for a flush, which there is none of where its lock is poisoned.
pub fn poll_flush(pending: Option<&mut PendingWrite>) -> (poll: FlushPoll)
    ensures
        match pending {
            Some(pending) => {
                &&& poll == pending@.flush()
                &&& final(pending)@ == pending@.flush_polled()
            },
            None => poll == FlushPoll::Failed(StreamError::WriterPoisoned),
        },
{
    match pending {
        Some(pending) => pending.poll_flush(),
        None => FlushPoll::Failed(StreamError::WriterPoisoned),
    }
}

/// What a poll for a shutdown comes to, given what a poll for a flush came to.
pub open spec fn shutdown(flush: FlushPoll) -> ShutdownPoll {
    match flush {
        FlushPoll::Ready => ShutdownPoll::Shutdown,
        FlushPoll::Failed(err) => ShutdownPoll::Failed(err),
        FlushPoll::Request => ShutdownPoll::Request,
        FlushPoll::Pending => ShutdownPoll::Pending,
    }
}

/// What a poll for a shutdown comes to, given what a poll for a flush came to: the socket is shut
/// down only after everything is flushed.
pub fn poll_shutdown(flush: FlushPoll) -> (poll: ShutdownPoll)
    ensures
        poll == (match flush {
            FlushPoll::Ready => ShutdownPoll::Shutdown,
            FlushPoll::Failed(err) => ShutdownPoll::Failed(err),
            FlushPoll::Request => ShutdownPoll::Request,
            FlushPoll::Pending => ShutdownPoll::Pending,
        }),
        poll == shutdown(flush),
{
    match flush {
        FlushPoll::Ready => ShutdownPoll::Shutdown,
        FlushPoll::Failed(err) => ShutdownPoll::Failed(err),
        FlushPoll::Request => ShutdownPoll::Request,
        FlushPoll::Pending => ShutdownPoll::Pending,
    }
}

/// What the flushing thread does next.
#[derive(Clone, Copy, Debug, PartialEq, Eq, Structural)]
pub enum FlusherState {
    /// Wait for someone to ask for a flush.
    Receive,
    /// Lock the pending bytes and take them.
    Take,
    /// Write what was taken to the socket.
    Write,
    /// Lock the pending bytes and note how the write went; without anything to write, it went well.
    Finish,
    /// Wake whoever asked.
    Wake,
    /// Nothing: the thread is done.
    Stop,
}

/// What the flushing thread's last action came to.
#[derive(Clone, Copy, Debug, PartialEq, Eq, Structural)]
pub enum FlusherEvent {
    /// Someone asks for a flush.
    Asked,
    /// Nobody can ask for a flush any more.
    Closed,
    /// The pending bytes were taken, where there were any to take.
    Taken { any: bool },
    /// The socket was written to.
    Wrote,
    /// How the write went was noted.
    Finished { again: bool },
    /// The lock is poisoned.
    Poisoned,
    /// The one who asked was woken.
    Woke,
}

impl FlusherState {
    /// The events that an action can come to.
    pub open spec fn accepts(self, event: FlusherEvent) -> bool {
        match self {
            FlusherState::Receive => event is Asked || event is Closed,
            FlusherState::Take => event is Taken || event is Poisoned,
            FlusherState::Write => event is Wrote,
            FlusherState::Finish => event is Finished || event is Poisoned,
            FlusherState::Wake => event is Woke,
            FlusherState::Stop => false,
        }
    }

    /// What the thread does after an event.
    pub open spec fn after(self, event: FlusherEvent) -> FlusherState {
        match event {
            FlusherEvent::Asked => FlusherState::Take,
            FlusherEvent::Closed => FlusherState::Stop,
            FlusherEvent::Taken { any } => if any {
                FlusherState::Write
            } else {
                FlusherState::Finish
            },
            FlusherEvent::Wrote => FlusherState::Finish,
            FlusherEvent::Finished { again } => if again {
                FlusherState::Take
            } else {
                FlusherState::Wake
            },
            FlusherEvent::Poisoned => FlusherState::Stop,
            FlusherEvent::Woke => FlusherState::Receive,
        }
    }

    /// What the thread does first.
    pub fn start() -> (state: FlusherState)
        ensures
            state == FlusherState::Receive,
    {
        FlusherState::Receive
    }

    /// What the thread does after an event.
    pub fn next(self, event: FlusherEvent) -> (state: FlusherState)
        requires
            self.accepts(event),
        ensures
            state == self.after(event),
    {
        match event {
            FlusherEvent::Asked => FlusherState::Take,
            FlusherEvent::Closed => FlusherState::Stop,
            FlusherEvent::Taken { any } => if any {
                FlusherState::Write
            } else {
                FlusherState::Finish
            },
            FlusherEvent::Wrote => FlusherState::Finish,
            FlusherEvent::Finished { again } => if again {
                FlusherState::Take
            } else {
                FlusherState::Wake
            },
            FlusherEvent::Poisoned => FlusherState::Stop,
            FlusherEvent::Woke => FlusherState::Receive,
        }
    }
}

/// A stream's writing half at work: the thread, what is pending, and what has passed through.
pub struct Writing {
    pub thread: FlusherState,
    pub pending: PendingWriteView,
    /// What is left to send of what the thread has taken.
    pub chunk: Option<Seq<u8>>,
    /// How writing went what the thread has taken, until that is noted.
    pub outcome: Option<Result<(), std::io::Error>>,
    /// The bytes that were accepted.
    pub accepted: Seq<u8>,
    /// The bytes that the socket took.
    pub sent: Seq<u8>,
    /// A write to the socket has failed.
    pub failed: bool,
    /// How often an error was reported.
    pub reported: nat,
    /// How many polls asked the thread to flush.
    pub requested: nat,
    /// How many of them the thread has heard.
    pub asked: nat,
    /// How often the thread woke the one who asked.
    pub woken: nat,
}

/// A step of the stream or of its flushing thread, which come in any order.
pub enum WritingStep {
    /// The stream writes.
    Write(Seq<u8>),
    /// The stream polls for a flush or a shutdown; the thread is there to be asked or not.
    Flush(bool),
    /// The thread takes what is pending.
    Take,
    /// The socket takes so many bytes of what the thread has taken.
    Send(nat),
    /// The thread is done with writing to the socket.
    Wrote(Result<(), std::io::Error>),
    /// The thread notes how the write to the socket went.
    Finish,
    /// The thread does anything else.
    Thread(FlusherEvent),
}

impl Writing {
    /// A new stream.
    pub open spec fn initial() -> Writing {
        Writing {
            thread: FlusherState::Receive,
            pending: PendingWriteView::initial(),
            chunk: None,
            outcome: None,
            accepted: Seq::empty(),
            sent: Seq::empty(),
            failed: false,
            reported: 0,
            requested: 0,
            asked: 0,
            woken: 0,
        }
    }

    /// What is left to send of what the thread has taken.
    pub open spec fn in_flight(self) -> Seq<u8> {
        match self.chunk {
            Some(chunk) => chunk,
            None => Seq::empty(),
        }
    }

    /// Whether a step can come next. The thread hears each request once and hears all of them
    /// before the end, and a write to the socket goes well only where everything was sent.
    pub open spec fn allows(self, step: WritingStep) -> bool {
        match step {
            WritingStep::Write(buf) => buf.len() <= usize::MAX,
            WritingStep::Flush(_) => true,
            WritingStep::Take => self.thread.accepts(
                FlusherEvent::Taken { any: self.pending.chunk() is Some },
            ),
            WritingStep::Send(count) => self.thread is Write && count <= self.in_flight().len(),
            WritingStep::Wrote(result) => {
                &&& self.thread.accepts(FlusherEvent::Wrote)
                &&& result is Ok ==> self.in_flight().len() == 0
            },
            WritingStep::Finish => self.thread.accepts(
                FlusherEvent::Finished { again: self.pending.again(self.outcome->0) },
            ),
            WritingStep::Thread(event) => {
                &&& self.thread.accepts(event)
                &&& event !is Taken
                &&& event !is Wrote
                &&& event !is Finished
                &&& event is Asked ==> self.asked < self.requested
                &&& event is Closed ==> self.asked == self.requested
            },
        }
    }

    /// What a step leads to.
    pub open spec fn after(self, step: WritingStep) -> Writing {
        match step {
            WritingStep::Write(buf) => Writing {
                pending: self.pending.written(buf),
                accepted: self.accepted + (match self.pending.write(buf) {
                    Ok(count) => buf.take(count as int),
                    Err(_) => Seq::empty(),
                }),
                reported: self.reported + (if self.pending.write(buf) is Err { 1nat } else { 0 }),
                ..self
            },
            WritingStep::Flush(sent) => Writing {
                pending: self.pending.flush_polled(),
                reported: self.reported + (if self.pending.flush() is Failed { 1nat } else { 0 }),
                requested: self.requested + (if self.pending.flush() is Request && sent {
                    1nat
                } else {
                    0
                }),
                ..self
            },
            WritingStep::Take => Writing {
                thread: self.thread.after(
                    FlusherEvent::Taken { any: self.pending.chunk() is Some },
                ),
                pending: self.pending.chunk_taken(),
                chunk: self.pending.chunk(),
                outcome: if self.pending.chunk() is Some { None } else { Some(Ok(())) },
                ..self
            },
            WritingStep::Send(count) => Writing {
                chunk: Some(self.in_flight().skip(count as int)),
                sent: self.sent + self.in_flight().take(count as int),
                ..self
            },
            WritingStep::Wrote(result) => Writing {
                thread: self.thread.after(FlusherEvent::Wrote),
                outcome: Some(result),
                failed: self.failed || result is Err,
                ..self
            },
            WritingStep::Finish => Writing {
                thread: self.thread.after(
                    FlusherEvent::Finished { again: self.pending.again(self.outcome->0) },
                ),
                pending: self.pending.finished(self.outcome->0),
                chunk: None,
                outcome: None,
                ..self
            },
            WritingStep::Thread(event) => Writing {
                thread: self.thread.after(event),
                asked: self.asked + (if event is Asked { 1nat } else { 0 }),
                woken: self.woken + (if event is Woke { 1nat } else { 0 }),
                ..self
            },
        }
    }

    /// What some steps lead to, where each of them can come after those before it.
    pub open spec fn run(steps: Seq<WritingStep>) -> Option<Writing>
        decreases steps.len(),
    {
        if steps.len() == 0 {
            Some(Writing::initial())
        } else {
            match Writing::run(steps.drop_last()) {
                Some(writing) => if writing.allows(steps.last()) {
                    Some(writing.after(steps.last()))
                } else {
                    None
                },
                None => None,
            }
        }
    }

    /// A write to the socket has failed and the thread has not noted it yet.
    pub open spec fn failing(self) -> bool {
        self.outcome matches Some(Err(_))
    }

    /// What is always so, with what only the thread sees.
    spec fn consistent(self) -> bool {
        &&& !self.failed || self.failing() ==> self.sent + self.in_flight() + self.pending.bytes
            == self.accepted
        &&& self.sent.is_prefix_of(self.accepted)
        &&& self.pending.well_formed()
        &&& self.pending.eof == (self.failed && !self.failing())
        &&& self.reported == (if self.pending.eof && self.pending.err is None { 1nat } else { 0 })
        &&& self.failing() ==> self.failed && self.chunk is Some
        &&& self.failed ==> self.thread !is Write
        &&& self.thread is Write ==> self.chunk is Some && self.outcome is None
        &&& self.thread is Finish ==> {
            &&& self.outcome is Some
            &&& self.outcome->0 is Ok ==> self.in_flight().len() == 0
        }
        &&& self.outcome is Some ==> self.thread is Finish || self.thread is Stop
        &&& self.chunk is Some ==> {
            &&& !self.pending.flushed
            &&& self.thread is Write || self.thread is Finish || self.thread is Stop
            &&& !self.failed || self.failing()
        }
        &&& self.asked == 0 ==> {
            &&& self.sent.len() == 0
            &&& self.thread is Receive || self.thread is Stop
            &&& self.chunk is None
        }
        &&& self.asked <= self.requested
        &&& match self.thread {
            FlusherState::Receive => self.asked == self.woken,
            FlusherState::Stop => self.woken <= self.asked <= self.woken + 1,
            _ => self.asked == self.woken + 1,
        }
    }
}

/// However writes, flushes and the work of the thread interleave:
/// - What was sent is a prefix of what was accepted: nothing is lost, repeated or moved on the way.
///   Until a write to the socket fails, what was not sent is being sent or is pending.
/// - Nothing is sent before a poll for a flush or a shutdown asked the thread to flush, and the
///   thread is asked once by each of them. As long as something accepted is not sent and no write
///   has failed, a poll for a flush asks the thread.
/// - Once a failure is noted, it is reported, and only once. A flush that completes finds
///   everything sent, or an error reported before.
/// - Each one who asks the thread is woken before the next one is heard, unless a poisoned lock
///   stops the thread.
pub proof fn law_writing(steps: Seq<WritingStep>)
    requires
        Writing::run(steps) is Some,
    ensures
        ({
            let writing = Writing::run(steps)->0;
            &&& writing.sent.is_prefix_of(writing.accepted)
            &&& !writing.failed ==> writing.sent + writing.in_flight() + writing.pending.bytes
                == writing.accepted
            &&& !writing.failed && writing.sent != writing.accepted ==> writing.pending.flush()
                == FlushPoll::Request
            &&& writing.requested == 0 ==> writing.sent.len() == 0
            &&& writing.asked <= writing.requested
            &&& writing.pending.well_formed()
            &&& writing.pending.eof == (writing.failed && !writing.failing())
            &&& writing.reported == (if writing.pending.eof && writing.pending.err is None {
                1nat
            } else {
                0
            })
            &&& writing.pending.flush() is Ready ==> writing.sent == writing.accepted
                || writing.reported == 1
            &&& match writing.thread {
                FlusherState::Receive => writing.asked == writing.woken,
                FlusherState::Stop => writing.woken <= writing.asked <= writing.woken + 1,
                _ => writing.asked == writing.woken + 1,
            }
        }),
{
    lemma_consistent(steps);
}

/// Every run is consistent.
proof fn lemma_consistent(steps: Seq<WritingStep>)
    requires
        Writing::run(steps) is Some,
    ensures
        (Writing::run(steps)->0).consistent(),
    decreases steps.len(),
{
    let writing = Writing::run(steps)->0;
    if steps.len() > 0 {
        lemma_consistent(steps.drop_last());
        if !writing.failed || writing.failing() {
            assert(writing.sent + writing.in_flight() + writing.pending.bytes
                =~= writing.accepted);
        }
    }
}

/// What was written to the stream, one buffer after the other.
pub open spec fn offered(steps: Seq<WritingStep>) -> Seq<u8>
    decreases steps.len(),
{
    if steps.len() == 0 {
        Seq::empty()
    } else {
        let earlier = offered(steps.drop_last());
        match steps.last() {
            WritingStep::Write(buf) => earlier + buf,
            _ => earlier,
        }
    }
}

/// Until a write to the socket has failed, every write is accepted whole: all that was written to
/// the stream is accepted, and is sent, being sent or pending, in the order of the writes.
pub proof fn law_writes_are_accepted(steps: Seq<WritingStep>)
    requires
        Writing::run(steps) is Some,
        !(Writing::run(steps)->0).failed,
    ensures
        ({
            let writing = Writing::run(steps)->0;
            &&& writing.accepted == offered(steps)
            &&& writing.sent + writing.in_flight() + writing.pending.bytes == offered(steps)
        }),
    decreases steps.len(),
{
    lemma_consistent(steps);
    if steps.len() > 0 {
        let earlier = Writing::run(steps.drop_last())->0;
        lemma_consistent(steps.drop_last());
        assert(!earlier.failed);
        law_writes_are_accepted(steps.drop_last());
        match steps.last() {
            WritingStep::Write(buf) => {
                assert(buf.take(buf.len() as int) =~= buf);
            },
            _ => {},
        }
    }
}

/// The one who asked is woken only once everything is flushed or the writing has failed.
pub proof fn law_wakes_when_flushed(steps: Seq<WritingStep>)
    requires
        steps.len() > 0,
        Writing::run(steps) is Some,
        (Writing::run(steps)->0).thread is Wake,
        (Writing::run(steps.drop_last())->0).thread !is Wake,
    ensures
        ({
            let writing = Writing::run(steps)->0;
            &&& writing.pending.flushed || writing.pending.eof
            &&& !writing.failed ==> writing.sent == writing.accepted && writing.pending.flush()
                == FlushPoll::Ready
        }),
{
    lemma_consistent(steps);
    lemma_consistent(steps.drop_last());
    let writing = Writing::run(steps)->0;
    if !writing.failed {
        assert(writing.sent =~= writing.accepted);
    }
}

/// The socket is shut down only where everything that was accepted is sent, or after an error has
/// been reported.
pub proof fn law_shutdown(steps: Seq<WritingStep>, sent: bool)
    requires
        Writing::run(steps) is Some,
    ensures
        ({
            let writing = Writing::run(steps)->0;
            let flush = writing.pending.flush_outcome(sent);
            &&& shutdown(flush) is Shutdown <==> flush is Ready
            &&& shutdown(flush) is Pending <==> flush is Pending
            &&& forall|err: StreamError| #[trigger]
                shutdown(FlushPoll::Failed(err)) == ShutdownPoll::Failed(err)
            &&& shutdown(flush) is Shutdown ==> writing.sent == writing.accepted
                || writing.reported == 1
        }),
{
    law_writing(steps);
}

/// The thread stops only where nobody can ask any more or a lock is poisoned, and it listens for
/// the next request only after it has woken the one before.
pub proof fn law_flusher_thread(state: FlusherState, event: FlusherEvent)
    requires
        state.accepts(event),
    ensures
        state !is Stop,
        state.after(event) is Stop <==> event is Closed || event is Poisoned,
        state.after(event) is Receive <==> state is Wake,
        state.after(event) is Write <==> (event matches FlusherEvent::Taken { any } && any),
        state is Write ==> state.after(event) is Finish,
{
}

/// What is pending is what the fields hold.
pub proof fn law_write_view(pending: PendingWrite)
    ensures
        pending@.bytes == buffered(pending.bytes),
        pending@.flushed == pending.flushed,
        pending@.err == pending.err,
        pending@.eof == pending.eof,
{
}

/// Until the writing has ended, a write is accepted whole, behind what is pending, and has to be
/// flushed. After an error it fails with that error, once, and then accepts nothing.
pub proof fn law_write(pending: PendingWriteView, buf: Seq<u8>)
    requires
        buf.len() <= usize::MAX,
    ensures
        ({
            let after = pending.written(buf);
            &&& after.err is None
            &&& after.eof == pending.eof
            &&& match pending.write(buf) {
                Ok(count) => {
                    &&& pending.err is None
                    &&& count <= buf.len()
                    &&& count < buf.len() ==> pending.eof
                    &&& pending.eof ==> count == 0 && after == pending
                    &&& after.bytes == pending.bytes + buf.take(count as int)
                    &&& !pending.eof ==> !after.flushed && after.flush() == FlushPoll::Request
                },
                Err(error) => {
                    &&& pending.err matches Some(err) && error == StreamError::Io(err)
                    &&& after.bytes == pending.bytes
                    &&& after.flushed == pending.flushed
                },
            }
        }),
{
    assert(buf.take(buf.len() as int) =~= buf);
    assert(pending.bytes + buf.take(0) =~= pending.bytes);
}

/// Two writes in a row leave what one write of both buffers leaves, and accept as much, until the
/// writing has ended.
pub proof fn law_writes_join(pending: PendingWriteView, buf: Seq<u8>, later: Seq<u8>)
    requires
        buf.len() + later.len() <= usize::MAX,
        pending.err is None,
    ensures
        pending.written(buf).written(later) == pending.written(buf + later),
        match (
            pending.write(buf),
            pending.written(buf).write(later),
            pending.write(buf + later),
        ) {
            (Ok(first), Ok(second), Ok(both)) => first + second == both,
            _ => false,
        },
{
    assert(pending.bytes + buf + later =~= pending.bytes + (buf + later));
}

/// A poll for a flush fails only with the error that is there, which it takes. Otherwise it
/// completes where everything is flushed and asks the thread where not. It changes nothing else.
/// It comes to [`FlushPoll::Pending`] exactly where the thread was asked, so someone will wake the
/// caller. Where the thread cannot be asked, the poll fails.
pub proof fn law_flush(pending: PendingWriteView, sent: bool)
    ensures
        match pending.flush() {
            FlushPoll::Ready => pending.err is None && pending.flushed,
            FlushPoll::Failed(error) => pending.err matches Some(err) && error == StreamError::Io(
                err,
            ),
            FlushPoll::Request => pending.err is None && !pending.flushed,
            FlushPoll::Pending => false,
        },
        pending.flush_polled().bytes == pending.bytes,
        pending.flush_polled().flushed == pending.flushed,
        pending.flush_polled().eof == pending.eof,
        pending.flush_polled().err is None,
        ({
            let outcome = pending.flush_outcome(sent);
            &&& outcome !is Request
            &&& outcome is Pending <==> sent && pending.flush() is Request
            &&& pending.flush() is Request && !sent ==> outcome == FlushPoll::Failed(
                StreamError::FlusherGone,
            )
            &&& pending.flush() !is Request ==> outcome == pending.flush()
        }),
{
}

/// The thread takes everything that is pending at once, and nothing after the writing has ended.
/// Taking changes nothing else; what is taken still has to be flushed.
pub proof fn law_take(pending: PendingWriteView)
    ensures
        ({
            let after = pending.chunk_taken();
            &&& match pending.chunk() {
                Some(chunk) => {
                    &&& !pending.eof && pending.err is None
                    &&& chunk.len() > 0
                    &&& chunk + after.bytes == pending.bytes
                    &&& after.bytes.len() == 0
                },
                None => {
                    &&& pending.bytes.len() == 0 || pending.eof || pending.err is Some
                    &&& after.bytes == pending.bytes
                },
            }
            &&& after.flushed == pending.flushed
            &&& after.err == pending.err
            &&& after.eof == pending.eof
        }),
{
    assert(pending.chunk() is Some ==> pending.bytes + Seq::<u8>::empty() =~= pending.bytes);
}

/// After a write to the socket that went well, the thread goes on exactly where more is pending by
/// now, and everything is flushed where nothing is. After one that failed, it does not go on, and
/// the next write or poll for a flush reports the error. What is pending is kept.
pub proof fn law_finish(
    pending: PendingWriteView,
    result: Result<(), std::io::Error>,
    buf: Seq<u8>,
)
    requires
        buf.len() <= usize::MAX,
    ensures
        ({
            let after = pending.finished(result);
            &&& after.bytes == pending.bytes
            &&& match result {
                Ok(()) => {
                    &&& pending.again(result) <==> pending.bytes.len() > 0
                    &&& after.flushed == (pending.flushed || !pending.again(result))
                    &&& after.err == pending.err
                    &&& after.eof == pending.eof
                },
                Err(err) => {
                    &&& !pending.again(result)
                    &&& after.flushed == pending.flushed
                    &&& after.err == Some(err)
                    &&& after.eof
                    &&& after.write(buf) == Err::<usize, StreamError>(StreamError::Io(err))
                    &&& after.flush() == FlushPoll::Failed(StreamError::Io(err))
                },
            }
        }),
{
}

/// After a write to the socket has failed, nothing more is ever sent.
pub proof fn law_nothing_sent_after_failure(steps: Seq<WritingStep>, failure: int)
    requires
        Writing::run(steps) is Some,
        0 <= failure <= steps.len(),
        Writing::run(steps.take(failure)) is Some,
        (Writing::run(steps.take(failure))->0).failed,
    ensures
        (Writing::run(steps)->0).failed,
        (Writing::run(steps)->0).sent == (Writing::run(steps.take(failure))->0).sent,
    decreases steps.len(),
{
    if failure < steps.len() {
        let earlier = steps.drop_last();
        assert(earlier.take(failure) == steps.take(failure));
        law_nothing_sent_after_failure(earlier, failure);
        lemma_consistent(earlier);
    } else {
        assert(steps.take(failure) == steps);
    }
}

/// An error is reported once, by whichever poll comes first, and after it nothing is accepted any
/// more.
pub proof fn law_write_end(pending: PendingWriteView, buf: Seq<u8>, later: Seq<u8>)
    requires
        pending.well_formed(),
        pending.eof,
    ensures
        pending.err is Some ==> {
            &&& pending.write(buf) == Err::<usize, StreamError>(StreamError::Io(pending.err->0))
            &&& pending.flush() == FlushPoll::Failed(StreamError::Io(pending.err->0))
            &&& pending.written(buf).err is None
            &&& pending.flush_polled().err is None
        },
        pending.written(buf).write(later) == Ok::<usize, StreamError>(0),
        pending.flush_polled().write(later) == Ok::<usize, StreamError>(0),
        pending.written(buf).written(later).bytes == pending.bytes,
{
}

/// Where nothing is written meanwhile and the socket takes what it is given, one round of the
/// thread flushes everything. This holds unless the writing has ended with bytes left behind.
pub proof fn law_flush_completes(pending: PendingWriteView)
    requires
        pending.well_formed(),
        !(pending.eof && pending.bytes.len() > 0),
    ensures
        ({
            let taken = pending.chunk_taken();
            &&& !taken.again(Ok(()))
            &&& taken.finished(Ok(())).flushed
            &&& taken.finished(Ok(())).bytes.len() == 0
        }),
{
}

} // verus!
