//! The reading half of a stream whose socket only blocks.
//!
//! A thread reads the socket. Whoever wants bytes asks for them under a lock: what the thread has
//! left there is taken, and where it has left nothing, the thread is asked to read.

use vstd::prelude::*;

use crate::buffer::advance;
use crate::buffer::as_slice;
use crate::buffer::buffered;
use crate::buffer::has_room_for;
use crate::stream_error::StreamError;

verus! {

/// How many bytes a read of the socket asks for at most.
pub const READ_LEN: usize = 1024;

/// What the reading thread has left for the stream to take.
pub struct PendingRead {
    /// Bytes that were read and not yet taken.
    pub bytes: bytes::BytesMut,
    /// The error that ended the reading, until it is reported.
    pub err: Option<std::io::Error>,
    /// Nothing more will be read.
    pub eof: bool,
}

/// A [`PendingRead`] with the bytes that it holds.
pub struct PendingReadView {
    pub bytes: Seq<u8>,
    pub err: Option<std::io::Error>,
    pub eof: bool,
}

/// What a poll for bytes comes to.
pub enum ReadPoll {
    /// So many bytes were read into the caller's buffer; none at the end of the stream.
    Ready(usize),
    /// The reading has failed.
    Failed(StreamError),
    /// Nothing is there yet: ask the reading thread, then see [`read_requested`].
    Request,
    /// The reading thread has been asked and will wake the caller.
    Pending,
}

impl View for PendingRead {
    type V = PendingReadView;

    open spec fn view(&self) -> PendingReadView {
        PendingReadView { bytes: buffered(self.bytes), err: self.err, eof: self.eof }
    }
}

impl PendingReadView {
    /// Nothing read yet.
    pub open spec fn initial() -> PendingReadView {
        PendingReadView { bytes: Seq::empty(), err: None, eof: false }
    }

    /// An error also ends the reading.
    pub open spec fn well_formed(self) -> bool {
        self.err is Some ==> self.eof
    }

    /// There is nothing to take and more may come.
    pub open spec fn must_read(self) -> bool {
        self.bytes.len() == 0 && !self.eof && self.err is None
    }

    /// How many bytes a poll with room for `room` of them takes.
    pub open spec fn taken(self, room: nat) -> nat {
        if self.bytes.len() < room {
            self.bytes.len()
        } else {
            room
        }
    }

    /// The outcome of a poll with room for `room` bytes.
    pub open spec fn poll(self, room: nat) -> ReadPoll {
        if self.bytes.len() > 0 {
            ReadPoll::Ready(self.taken(room) as usize)
        } else if self.err is Some {
            ReadPoll::Failed(StreamError::Io(self.err->0))
        } else if self.eof {
            ReadPoll::Ready(0)
        } else {
            ReadPoll::Request
        }
    }

    /// What a poll with room for `room` bytes comes to in the end, where asking the thread, if that
    /// is called for, succeeds or not.
    pub open spec fn poll_outcome(self, room: nat, sent: bool) -> ReadPoll {
        if self.poll(room) is Request {
            read_request(sent)
        } else {
            self.poll(room)
        }
    }

    /// What is left after a poll with room for `room` bytes.
    pub open spec fn polled(self, room: nat) -> PendingReadView {
        if self.bytes.len() > 0 {
            PendingReadView { bytes: self.bytes.skip(self.taken(room) as int), ..self }
        } else {
            PendingReadView { err: None, ..self }
        }
    }

    /// What is there after a read of the socket that gave the bytes `read`, or an error.
    pub open spec fn stored(self, read: Result<Seq<u8>, std::io::Error>) -> PendingReadView {
        match read {
            Ok(bytes) => if bytes.len() == 0 {
                PendingReadView { eof: true, ..self }
            } else {
                PendingReadView { bytes: self.bytes + bytes, ..self }
            },
            Err(err) => PendingReadView { err: Some(err), eof: true, ..self },
        }
    }
}

/// The bytes of a read that filled the front of `buf`.
pub open spec fn read_bytes(buf: Seq<u8>, read: Result<usize, std::io::Error>) -> Result<
    Seq<u8>,
    std::io::Error,
> {
    match read {
        Ok(count) => Ok(buf.take(count as int)),
        Err(err) => Err(err),
    }
}

impl PendingRead {
    /// Nothing read yet.
    pub fn new() -> (pending: PendingRead)
        ensures
            pending@ == PendingReadView::initial(),
            pending@.well_formed(),
    {
        PendingRead { bytes: bytes::BytesMut::new(), err: None, eof: false }
    }

    /// Takes what is there: bytes first, as many as fit into `buf`, then the error, once, and then
    /// the end of the stream for ever.
    pub fn poll_read(&mut self, buf: &mut [u8]) -> (poll: ReadPoll)
        ensures
            poll == old(self)@.poll(old(buf)@.len()),
            final(self)@ == old(self)@.polled(old(buf)@.len()),
            old(self)@.well_formed() ==> final(self)@.well_formed(),
            ({
                let taken = old(self)@.taken(old(buf)@.len()) as int;
                final(buf)@ == old(self)@.bytes.take(taken) + old(buf)@.skip(taken)
            }),
            match poll {
                ReadPoll::Ready(count) => {
                    &&& count <= old(buf)@.len()
                    &&& final(buf)@.take(count as int) + final(self)@.bytes == old(self)@.bytes
                    &&& final(buf)@.skip(count as int) == old(buf)@.skip(count as int)
                    &&& count == old(buf)@.len() || final(self)@.bytes.len() == 0
                },
                ReadPoll::Failed(_) | ReadPoll::Request => {
                    &&& old(self)@.bytes.len() == 0
                    &&& final(self)@.bytes.len() == 0
                    &&& final(buf)@ == old(buf)@
                },
                ReadPoll::Pending => false,
            },
    {
        if !self.bytes.is_empty() {
            let available: usize = self.bytes.len();
            let len: usize = if available < buf.len() {
                available
            } else {
                buf.len()
            };
            let source = as_slice(&self.bytes);
            let mut i: usize = 0;
            while i < len
                invariant
                    i <= len <= source@.len(),
                    len <= old(buf)@.len(),
                    buf@ == source@.take(i as int) + old(buf)@.skip(i as int),
                decreases len - i,
            {
                buf[i] = source[i];
                i = i + 1;
            }
            advance(&mut self.bytes, len);
            ReadPoll::Ready(len)
        } else if let Some(err) = self.err.take() {
            ReadPoll::Failed(StreamError::Io(err))
        } else if self.eof {
            ReadPoll::Ready(0)
        } else {
            ReadPoll::Request
        }
    }

    /// Whether the thread has to read the socket: there is nothing to take and more may come.
    pub fn must_read(&self) -> (must_read: bool)
        ensures
            must_read == self@.must_read(),
            must_read <==> self@.bytes.len() == 0 && !self@.eof && self@.err is None,
    {
        self.bytes.is_empty() && !self.eof && self.err.is_none()
    }

    /// Leaves what a read of the socket into the front of `buf` has given: bytes, none at the end
    /// of the stream, or an error.
    pub fn store(&mut self, buf: &[u8], read: Result<usize, std::io::Error>)
        requires
            read matches Ok(count) ==> count <= buf@.len() && (count > 0 ==> has_room_for(
                old(self)@.bytes.len(),
                count as nat,
            )),
        ensures
            final(self)@ == old(self)@.stored(read_bytes(buf@, read)),
            old(self)@.well_formed() ==> final(self)@.well_formed(),
            match read {
                Ok(count) => {
                    &&& final(self)@.bytes == old(self)@.bytes + buf@.take(count as int)
                    &&& final(self)@.err == old(self)@.err
                    &&& final(self)@.eof == (old(self)@.eof || count == 0)
                },
                Err(err) => {
                    &&& final(self)@.bytes == old(self)@.bytes
                    &&& final(self)@.err == Some(err)
                    &&& final(self)@.eof
                },
            },
    {
        match read {
            Ok(0) => {
                self.eof = true;
            },
            Ok(count) => {
                self.bytes.extend_from_slice(&buf[0..count]);
            },
            Err(err) => {
                self.err = Some(err);
                self.eof = true;
            },
        }
    }
}

/// What a poll comes to after the thread has been asked to read: it will wake the caller, unless
/// it is gone.
pub open spec fn read_request(sent: bool) -> ReadPoll {
    if sent {
        ReadPoll::Pending
    } else {
        ReadPoll::Failed(StreamError::ReaderGone)
    }
}

/// What a poll comes to after the thread has been asked to read: it will wake the caller, unless
/// it is gone.
pub fn read_requested(sent: bool) -> (poll: ReadPoll)
    ensures
        poll == read_request(sent),
        sent ==> poll is Pending,
        !sent ==> poll == ReadPoll::Failed(StreamError::ReaderGone),
{
    if sent {
        ReadPoll::Pending
    } else {
        ReadPoll::Failed(StreamError::ReaderGone)
    }
}

/// Polls what is pending, which there is none of where its lock is poisoned.
pub fn poll_read(pending: Option<&mut PendingRead>, buf: &mut [u8]) -> (poll: ReadPoll)
    ensures
        match pending {
            Some(pending) => {
                let taken = pending@.taken(old(buf)@.len()) as int;
                &&& poll == pending@.poll(old(buf)@.len())
                &&& final(pending)@ == pending@.polled(old(buf)@.len())
                &&& final(buf)@ == pending@.bytes.take(taken) + old(buf)@.skip(taken)
                &&& poll matches ReadPoll::Ready(count) ==> {
                    &&& count <= old(buf)@.len()
                    &&& final(buf)@.take(count as int) + final(pending)@.bytes == pending@.bytes
                    &&& count == old(buf)@.len() || final(pending)@.bytes.len() == 0
                }
            },
            None => poll == ReadPoll::Failed(StreamError::ReaderPoisoned) && final(buf)@ == old(
                buf,
            )@,
        },
{
    match pending {
        Some(pending) => pending.poll_read(buf),
        None => ReadPoll::Failed(StreamError::ReaderPoisoned),
    }
}

/// The buffer that the thread reads the socket into.
pub fn read_buffer() -> (buffer: Vec<u8>)
    ensures
        buffer@ == Seq::new(READ_LEN as nat, |i: int| 0u8),
{
    let buffer: Vec<u8> = vec![0u8; READ_LEN];
    assert(buffer@ == Seq::new(READ_LEN as nat, |i: int| 0u8));
    buffer
}

/// What the reading thread does next.
#[derive(Clone, Copy, Debug, PartialEq, Eq, Structural)]
pub enum ReaderState {
    /// Wait for someone to ask for bytes.
    Receive,
    /// Lock the pending bytes and see whether the socket must be read.
    Check,
    /// Read the socket.
    Read,
    /// Lock the pending bytes and store what was read.
    Store,
    /// Wake whoever asked.
    Wake,
    /// Nothing: the thread is done.
    Stop,
}

/// What the reading thread's last action came to.
#[derive(Clone, Copy, Debug, PartialEq, Eq, Structural)]
pub enum ReaderEvent {
    /// Someone asks for bytes.
    Asked,
    /// Nobody can ask for bytes any more.
    Closed,
    /// The pending bytes were looked at.
    Checked { must_read: bool },
    /// The socket was read.
    ReadDone,
    /// The outcome of the read was stored.
    Stored,
    /// The lock is poisoned.
    Poisoned,
    /// The one who asked was woken.
    Woke,
}

impl ReaderState {
    /// The events that an action can come to.
    pub open spec fn accepts(self, event: ReaderEvent) -> bool {
        match self {
            ReaderState::Receive => event is Asked || event is Closed,
            ReaderState::Check => event is Checked || event is Poisoned,
            ReaderState::Read => event is ReadDone,
            ReaderState::Store => event is Stored || event is Poisoned,
            ReaderState::Wake => event is Woke,
            ReaderState::Stop => false,
        }
    }

    /// What the thread does after an event.
    pub open spec fn after(self, event: ReaderEvent) -> ReaderState {
        match event {
            ReaderEvent::Asked => ReaderState::Check,
            ReaderEvent::Closed => ReaderState::Stop,
            ReaderEvent::Checked { must_read } => if must_read {
                ReaderState::Read
            } else {
                ReaderState::Wake
            },
            ReaderEvent::ReadDone => ReaderState::Store,
            ReaderEvent::Stored => ReaderState::Wake,
            ReaderEvent::Poisoned => ReaderState::Stop,
            ReaderEvent::Woke => ReaderState::Receive,
        }
    }

    /// What the thread does first.
    pub fn start() -> (state: ReaderState)
        ensures
            state == ReaderState::Receive,
    {
        ReaderState::Receive
    }

    /// What the thread does after an event.
    pub fn next(self, event: ReaderEvent) -> (state: ReaderState)
        requires
            self.accepts(event),
        ensures
            state == self.after(event),
    {
        match event {
            ReaderEvent::Asked => ReaderState::Check,
            ReaderEvent::Closed => ReaderState::Stop,
            ReaderEvent::Checked { must_read } => if must_read {
                ReaderState::Read
            } else {
                ReaderState::Wake
            },
            ReaderEvent::ReadDone => ReaderState::Store,
            ReaderEvent::Stored => ReaderState::Wake,
            ReaderEvent::Poisoned => ReaderState::Stop,
            ReaderEvent::Woke => ReaderState::Receive,
        }
    }
}

/// A stream's reading half at work: the thread, what is pending, and what has passed through.
pub struct Reading {
    pub thread: ReaderState,
    pub pending: PendingReadView,
    /// The bytes that the socket gave.
    pub received: Seq<u8>,
    /// The bytes that polls took.
    pub delivered: Seq<u8>,
    /// How many bytes the polls reported, all in all.
    pub reported: nat,
    /// The socket has given no bytes, or an error.
    pub ended: bool,
    /// How many polls asked the thread to read.
    pub requested: nat,
    /// How many of them the thread has heard.
    pub asked: nat,
    /// How many reads of the socket were started.
    pub reads: nat,
    /// How many of them were stored.
    pub stores: nat,
    /// How often the thread woke the one who asked.
    pub woken: nat,
}

/// A step of the stream or of its reading thread, which come in any order.
pub enum ReadingStep {
    /// The stream polls with room for so many bytes; the thread is there to be asked or not.
    Poll(nat, bool),
    /// The thread stores what a read of the socket gave.
    Store(Result<Seq<u8>, std::io::Error>),
    /// The thread does anything else.
    Thread(ReaderEvent),
}

impl Reading {
    /// A new stream.
    pub open spec fn initial() -> Reading {
        Reading {
            thread: ReaderState::Receive,
            pending: PendingReadView::initial(),
            received: Seq::empty(),
            delivered: Seq::empty(),
            reported: 0,
            ended: false,
            requested: 0,
            asked: 0,
            reads: 0,
            stores: 0,
            woken: 0,
        }
    }

    /// Whether a step can come next. The thread hears each request once and hears all of them
    /// before the end, and a read fills no more than its buffer.
    pub open spec fn allows(self, step: ReadingStep) -> bool {
        match step {
            ReadingStep::Poll(_, _) => true,
            ReadingStep::Store(read) => {
                &&& self.thread.accepts(ReaderEvent::Stored)
                &&& read matches Ok(bytes) ==> bytes.len() <= READ_LEN
            },
            ReadingStep::Thread(event) => {
                &&& self.thread.accepts(event)
                &&& event !is Stored
                &&& event is Asked ==> self.asked < self.requested
                &&& event is Closed ==> self.asked == self.requested
                &&& event matches ReaderEvent::Checked { must_read } ==> must_read
                    == self.pending.must_read()
            },
        }
    }

    /// What a step leads to.
    pub open spec fn after(self, step: ReadingStep) -> Reading {
        match step {
            ReadingStep::Poll(room, sent) => Reading {
                pending: self.pending.polled(room),
                delivered: self.delivered + self.pending.bytes.take(
                    self.pending.taken(room) as int,
                ),
                reported: self.reported + (match self.pending.poll(room) {
                    ReadPoll::Ready(count) => count as nat,
                    _ => 0,
                }),
                requested: self.requested + (if self.pending.poll(room) is Request && sent {
                    1nat
                } else {
                    0
                }),
                ..self
            },
            ReadingStep::Store(read) => Reading {
                thread: self.thread.after(ReaderEvent::Stored),
                pending: self.pending.stored(read),
                received: self.received + (match read {
                    Ok(bytes) => bytes,
                    Err(_) => Seq::empty(),
                }),
                ended: self.ended || (match read {
                    Ok(bytes) => bytes.len() == 0,
                    Err(_) => true,
                }),
                stores: self.stores + 1,
                ..self
            },
            ReadingStep::Thread(event) => Reading {
                thread: self.thread.after(event),
                asked: self.asked + (if event is Asked { 1nat } else { 0 }),
                reads: self.reads + (if self.thread.after(event) is Read { 1nat } else { 0 }),
                woken: self.woken + (if event is Woke { 1nat } else { 0 }),
                ..self
            },
        }
    }

    /// What some steps lead to, where each of them can come after those before it.
    pub open spec fn run(steps: Seq<ReadingStep>) -> Option<Reading>
        decreases steps.len(),
    {
        if steps.len() == 0 {
            Some(Reading::initial())
        } else {
            match Reading::run(steps.drop_last()) {
                Some(reading) => if reading.allows(steps.last()) {
                    Some(reading.after(steps.last()))
                } else {
                    None
                },
                None => None,
            }
        }
    }
}

/// However polls and the work of the thread interleave:
/// - Every byte that the socket gave is either delivered or pending, in the order in which it came,
///   and the polls have reported as many bytes as they delivered.
/// - The end of the stream is noted once the socket has given no bytes, or an error, and not
///   before.
/// - The socket is read at most once for each poll that asked for it, so never before the first
///   one, and only while nothing is pending and neither its end nor an error has come. What one
///   read gave is stored before the next. So there are never more than [`READ_LEN`] bytes pending,
///   there is always room for what a read gives, and where bytes are pending, neither the end nor
///   an error has come.
/// - Each one who asks the thread is woken before the next one is heard, unless a poisoned lock
///   stops the thread.
pub proof fn law_reading(steps: Seq<ReadingStep>)
    requires
        Reading::run(steps) is Some,
    ensures
        ({
            let reading = Reading::run(steps)->0;
            let pending = reading.pending;
            &&& reading.delivered + pending.bytes == reading.received
            &&& reading.reported == reading.delivered.len()
            &&& pending.eof == reading.ended
            &&& match reading.thread {
                ReaderState::Read | ReaderState::Store => reading.reads == reading.stores + 1,
                ReaderState::Stop => reading.stores <= reading.reads <= reading.stores + 1,
                _ => reading.reads == reading.stores,
            }
            &&& reading.asked <= reading.requested
            &&& reading.reads + (if reading.thread is Check { 1nat } else { 0 }) <= reading.asked
            &&& pending.bytes.len() <= READ_LEN
            &&& pending.bytes.len() > 0 ==> !pending.eof && pending.err is None
            &&& pending.well_formed()
            &&& (reading.thread is Read || reading.thread is Store) ==> {
                &&& pending.must_read()
                &&& has_room_for(pending.bytes.len(), READ_LEN as nat)
            }
            &&& match reading.thread {
                ReaderState::Receive => reading.asked == reading.woken,
                ReaderState::Stop => reading.woken <= reading.asked <= reading.woken + 1,
                _ => reading.asked == reading.woken + 1,
            }
        }),
    decreases steps.len(),
{
    let reading = Reading::run(steps)->0;
    if steps.len() > 0 {
        let before = Reading::run(steps.drop_last())->0;
        law_reading(steps.drop_last());
        match steps.last() {
            ReadingStep::Poll(room, _) => {
                let taken = before.pending.taken(room) as int;
                lemma_taken(before.pending, room);
                assert(before.pending.bytes == before.pending.bytes.take(taken)
                    + before.pending.bytes.skip(taken));
                assert(reading.delivered + reading.pending.bytes == before.delivered
                    + before.pending.bytes);
            },
            ReadingStep::Store(_) => {
                assert(reading.delivered + reading.pending.bytes == reading.received);
            },
            ReadingStep::Thread(_) => {},
        }
    } else {
        assert(reading.delivered + reading.pending.bytes == reading.received);
    }
}

/// Once the socket has given no bytes, or an error, the stream stays at its end and the socket is
/// never read again. A poll that then finds neither bytes nor an error reports the end.
pub proof fn law_no_read_after_end(steps: Seq<ReadingStep>, end: int, room: nat)
    requires
        Reading::run(steps) is Some,
        0 <= end < steps.len(),
        steps[end] matches ReadingStep::Store(read) && (read matches Ok(bytes) ==> bytes.len()
            == 0),
    ensures
        Reading::run(steps.take(end + 1)) is Some,
        ({
            let reading = Reading::run(steps)->0;
            &&& reading.pending.eof
            &&& reading.reads == (Reading::run(steps.take(end + 1))->0).reads
            &&& reading.pending.bytes.len() == 0 && reading.pending.err is None
                ==> reading.pending.poll(room) == ReadPoll::Ready(0)
        }),
    decreases steps.len(),
{
    let earlier = steps.drop_last();
    law_reading(steps);
    law_reading(earlier);
    if end < earlier.len() {
        assert(earlier.take(end + 1) == steps.take(end + 1));
        law_no_read_after_end(earlier, end, room);
    } else {
        assert(steps.take(end + 1) == steps);
    }
}

/// The one who asked is woken only once there is something to take: bytes, an error or the end of
/// the stream.
pub proof fn law_wakes_with_something_to_take(steps: Seq<ReadingStep>)
    requires
        steps.len() > 0,
        Reading::run(steps) is Some,
        (Reading::run(steps)->0).thread is Wake,
        (Reading::run(steps.drop_last())->0).thread !is Wake,
    ensures
        ({
            let pending = (Reading::run(steps)->0).pending;
            pending.bytes.len() > 0 || pending.err is Some || pending.eof
        }),
{
}

/// The thread stops only where nobody can ask any more or a lock is poisoned, and it listens for
/// the next request only after it has woken the one before.
pub proof fn law_reader_thread(state: ReaderState, event: ReaderEvent)
    requires
        state.accepts(event),
    ensures
        state !is Stop,
        state.after(event) is Stop <==> event is Closed || event is Poisoned,
        state.after(event) is Receive <==> state is Wake,
        state.after(event) is Store <==> state is Read,
        state.after(event) is Check <==> event is Asked,
{
}

/// What is pending is what the fields hold.
pub proof fn law_read_view(pending: PendingRead)
    ensures
        pending@.bytes == buffered(pending.bytes),
        pending@.err == pending.err,
        pending@.eof == pending.eof,
{
}

/// A poll reports as many bytes as it takes off what is pending: all that is pending, or as many as
/// there is room for. Nothing else changes where it takes any. It fails only with the error that is
/// there, which it takes, and calls for a read only where there is nothing to report.
pub proof fn law_poll(pending: PendingReadView, room: nat)
    requires
        room <= usize::MAX,
    ensures
        ({
            let after = pending.polled(room);
            &&& after.eof == pending.eof
            &&& match pending.poll(room) {
                ReadPoll::Ready(count) => {
                    &&& pending.bytes.len() > 0 || pending.eof && pending.err is None
                    &&& count <= room
                    &&& count + after.bytes.len() == pending.bytes.len()
                    &&& pending.bytes.take(count as int) + after.bytes == pending.bytes
                    &&& count == room || after.bytes.len() == 0
                    &&& after.err == pending.err
                },
                ReadPoll::Failed(error) => {
                    &&& pending.bytes.len() == 0
                    &&& pending.err matches Some(err) && error == StreamError::Io(err)
                    &&& after.bytes.len() == 0
                    &&& after.err is None
                },
                ReadPoll::Request => {
                    &&& pending.bytes.len() == 0
                    &&& pending.err is None
                    &&& !pending.eof
                    &&& after == pending
                },
                ReadPoll::Pending => false,
            }
        }),
{
    lemma_taken(pending, room);
}

/// A poll takes no more than is pending, and leaves the rest.
proof fn lemma_taken(pending: PendingReadView, room: nat)
    ensures
        pending.taken(room) <= pending.bytes.len(),
        pending.taken(room) <= room,
        pending.bytes.take(pending.taken(room) as int) + pending.bytes.skip(
            pending.taken(room) as int,
        ) == pending.bytes,
{
}

/// Two polls in a row, where the first leaves bytes, take what one poll with room for both takes.
pub proof fn law_polls_join(pending: PendingReadView, room: nat, later: nat)
    requires
        room + later <= usize::MAX,
        pending.polled(room).bytes.len() > 0,
    ensures
        pending.polled(room).polled(later) == pending.polled(room + later),
        match (pending.poll(room), pending.polled(room).poll(later), pending.poll(room + later)) {
            (ReadPoll::Ready(first), ReadPoll::Ready(second), ReadPoll::Ready(both)) => first
                + second == both,
            _ => false,
        },
{
    law_poll(pending, room);
    law_poll(pending.polled(room), later);
    law_poll(pending, room + later);
    assert(pending.polled(room).polled(later).bytes =~= pending.polled(room + later).bytes);
}

/// A read of the socket adds the bytes that it gave behind those that are pending. It ends the
/// stream exactly where it gave none, or an error, which then waits to be reported. Where nothing
/// was pending, the next poll reports what the read gave, and no further read is called for.
pub proof fn law_store(
    pending: PendingReadView,
    read: Result<Seq<u8>, std::io::Error>,
    room: nat,
)
    requires
        room <= usize::MAX,
    ensures
        ({
            let after = pending.stored(read);
            &&& match read {
                Ok(bytes) => {
                    &&& after.bytes == pending.bytes + bytes
                    &&& after.err == pending.err
                    &&& after.eof == (pending.eof || bytes.len() == 0)
                },
                Err(err) => {
                    &&& after.bytes == pending.bytes
                    &&& after.err == Some(err)
                    &&& after.eof
                },
            }
            &&& pending.bytes.len() == 0 && pending.err is None ==> match read {
                Ok(bytes) => if bytes.len() == 0 || room == 0 {
                    after.poll(room) == ReadPoll::Ready(0)
                } else {
                    after.poll(room) matches ReadPoll::Ready(count) && 0 < count <= bytes.len()
                },
                Err(err) => after.poll(room) == ReadPoll::Failed(StreamError::Io(err)),
            }
            &&& !after.must_read()
        }),
{
    assert(match read {
        Ok(bytes) => pending.stored(read).bytes =~= pending.bytes + bytes,
        Err(_) => true,
    });
    law_poll(pending.stored(read), room);
}

/// The thread has to read the socket exactly where a poll would call for that.
pub proof fn law_must_read(pending: PendingReadView, room: nat)
    requires
        room <= usize::MAX,
    ensures
        pending.must_read() <==> pending.poll(room) is Request,
        pending.must_read() <==> pending.bytes.len() == 0 && !pending.eof && pending.err is None,
{
    law_poll(pending, room);
}

/// What a read gave is the front of its buffer, as many bytes as it counted, whatever stands behind
/// them. An error is kept.
pub proof fn law_read_bytes(
    buf: Seq<u8>,
    rest: Seq<u8>,
    other_rest: Seq<u8>,
    count: usize,
    err: std::io::Error,
)
    requires
        count == buf.len(),
    ensures
        read_bytes(buf, Ok(count)) == Ok::<Seq<u8>, std::io::Error>(buf),
        read_bytes(buf + rest, Ok(count)) == Ok::<Seq<u8>, std::io::Error>(buf),
        read_bytes(buf + rest, Ok(count)) == read_bytes(buf + other_rest, Ok(count)),
        read_bytes(buf, Err(err)) == Err::<Seq<u8>, std::io::Error>(err),
{
    assert((buf + rest).take(count as int) =~= buf);
    assert((buf + other_rest).take(count as int) =~= buf);
    assert(buf.take(count as int) =~= buf);
}

/// A poll comes to [`ReadPoll::Pending`] exactly where there is nothing to report and the thread
/// was asked, so someone will wake the caller. Where the thread cannot be asked, the poll fails.
pub proof fn law_poll_outcome(pending: PendingReadView, room: nat, sent: bool)
    requires
        room <= usize::MAX,
    ensures
        ({
            let outcome = pending.poll_outcome(room, sent);
            &&& outcome !is Request
            &&& outcome is Pending <==> sent && pending.poll(room) is Request
            &&& pending.poll(room) is Request && !sent ==> outcome == ReadPoll::Failed(
                StreamError::ReaderGone,
            )
            &&& pending.poll(room) !is Request ==> outcome == pending.poll(room)
        }),
{
    law_poll(pending, room);
}

/// Bytes are reported before the error that followed them, the error is reported once, and after it
/// comes the end of the stream, which every later poll reports again without a read.
pub proof fn law_read_end(pending: PendingReadView, room: nat, later: nat)
    requires
        pending.well_formed(),
    ensures
        pending.bytes.len() > 0 ==> pending.poll(room) is Ready && pending.polled(room).err
            == pending.err,
        pending.bytes.len() == 0 && pending.err is Some ==> {
            &&& pending.poll(room) == ReadPoll::Failed(StreamError::Io(pending.err->0))
            &&& pending.polled(room).poll(later) == ReadPoll::Ready(0)
        },
        pending.bytes.len() == 0 && pending.err is None && pending.eof ==> {
            &&& pending.poll(room) == ReadPoll::Ready(0)
            &&& pending.polled(room) == pending
            &&& !pending.must_read()
        },
        pending.eof ==> pending.polled(room).eof && forall|read| (#[trigger] pending.stored(
            read,
        )).eof,
{
}

/// A poll that finds nothing changes nothing, so what the thread saw before it read the socket
/// still holds when it stores what it read.
pub proof fn law_empty_poll(pending: PendingReadView, room: nat)
    requires
        pending.must_read(),
    ensures
        pending.poll(room) == ReadPoll::Request,
        pending.polled(room) == pending,
{
}

} // verus!
