//! Blocking sockets over Winsock: which call comes next, and what its reply means.

use vstd::prelude::*;
use vstd::utf8::*;

use crate::sockaddr::address_error;
use crate::sockaddr::law_address_error;
use crate::sockaddr::law_address_keeps_path;
use crate::sockaddr::sockaddr_un;
use crate::sockaddr::AddressError;
use crate::sockaddr::AF_UNIX;
use crate::sockaddr::SUN_PATH_OFFSET;
use crate::stream_error::ErrorKind;

verus! {

/// The reply for a socket that could not be made.
pub const INVALID_SOCKET: usize = usize::MAX;

/// How many connections may wait to be accepted.
pub const BACKLOG: i32 = 128;

/// How long to leave the socket to others before looking again whether it can be read, in seconds.
pub const READ_PAUSE: u64 = 1;

/// What a socket is opened for.
#[derive(Clone, Copy, Debug, PartialEq, Eq, Structural)]
pub enum Purpose {
    /// To connect to a server.
    Connect,
    /// To listen for clients.
    Bind,
    /// To talk to a client that has connected.
    Accept,
}

/// Which error a socket reports.
#[derive(Clone, Copy, Debug, PartialEq, Eq, Structural)]
pub enum SocketError {
    /// The last error of Winsock.
    Winsock,
    /// The last error of the operating system.
    LastOs,
    /// The path is no address.
    Address(AddressError),
}

impl SocketError {
    /// The kind of an error that did not come from a call; an error from a call has its own.
    pub fn kind(&self) -> (kind: Option<ErrorKind>)
        ensures
            kind == (if self is Address {
                Some(ErrorKind::InvalidInput)
            } else {
                None
            }),
    {
        match self {
            SocketError::Address(error) => Some(error.kind()),
            _ => None,
        }
    }
}

/// The next call on the way to an open socket.
pub enum OpenStep {
    /// Make a socket, or accept one.
    Create,
    /// Keep child processes from inheriting the socket.
    Protect,
    /// Connect the socket to the address of the given length.
    Connect(sockaddr_un, i32),
    /// Bind the socket to the address of the given length.
    Bind(sockaddr_un, i32),
    /// Listen, with so many connections waiting at most.
    Listen(i32),
    /// None: the socket is open.
    Ready,
    /// None: the socket, where there is one, is to be closed.
    Failed(SocketError),
}

/// How far the opening of a socket has come.
pub enum OpenStage {
    Create,
    Protect,
    /// Connect or bind, to the address of the path with these bytes.
    Attach(Purpose, Seq<u8>),
    Listen,
    Ready,
    Failed(SocketError),
}

/// The view of an optional string slice.
pub open spec fn optional_str(text: Option<&str>) -> Option<Seq<char>> {
    match text {
        Some(text) => Some(text@),
        None => None,
    }
}

impl OpenStep {
    /// The step is the one of this stage, with the arguments that its call takes.
    pub open spec fn is_at(self, stage: OpenStage) -> bool {
        match stage {
            OpenStage::Create => self is Create,
            OpenStage::Protect => self is Protect,
            OpenStage::Attach(Purpose::Connect, path) => self matches OpenStep::Connect(addr, len)
                && addr.holds(path) && len == SUN_PATH_OFFSET + path.len() + 1,
            OpenStage::Attach(Purpose::Bind, path) => self matches OpenStep::Bind(addr, len)
                && addr.holds(path) && len == SUN_PATH_OFFSET + path.len() + 1,
            OpenStage::Attach(Purpose::Accept, _) => false,
            OpenStage::Listen => self == OpenStep::Listen(BACKLOG),
            OpenStage::Ready => self is Ready,
            OpenStage::Failed(error) => self == OpenStep::Failed(error),
        }
    }
}

impl OpenStage {
    /// What follows the reply `socket` to the call that makes or accepts a socket.
    pub open spec fn created(socket: usize) -> OpenStage {
        if socket == INVALID_SOCKET {
            OpenStage::Failed(SocketError::Winsock)
        } else {
            OpenStage::Protect
        }
    }

    /// What follows the reply `result` to the call that protects the socket.
    pub open spec fn protected(
        purpose: Purpose,
        path: Option<Seq<char>>,
        result: i32,
    ) -> OpenStage {
        if result == 0 {
            OpenStage::Failed(SocketError::LastOs)
        } else if purpose is Accept {
            OpenStage::Ready
        } else {
            match address_error(path) {
                Some(error) => OpenStage::Failed(SocketError::Address(error)),
                None => OpenStage::Attach(purpose, encode_utf8(path->0)),
            }
        }
    }

    /// What follows the reply `result` to the call that connects or binds the socket.
    pub open spec fn attached(purpose: Purpose, result: i32) -> OpenStage {
        if result != 0 {
            OpenStage::Failed(SocketError::Winsock)
        } else if purpose is Bind {
            OpenStage::Listen
        } else {
            OpenStage::Ready
        }
    }

    /// What follows the reply `result` to the call that makes the socket listen.
    pub open spec fn listening(result: i32) -> OpenStage {
        if result != 0 {
            OpenStage::Failed(SocketError::Winsock)
        } else {
            OpenStage::Ready
        }
    }

    /// Where the opening ends, given the replies to the calls that are still to come.
    pub open spec fn end(
        self,
        purpose: Purpose,
        path: Option<Seq<char>>,
        create: usize,
        protect: i32,
        attach: i32,
        listen: i32,
    ) -> Result<(), SocketError>
        decreases
            match self {
                OpenStage::Create => 4int,
                OpenStage::Protect => 3,
                OpenStage::Attach(_, _) => 2,
                OpenStage::Listen => 1,
                _ => 0,
            },
    {
        match self {
            OpenStage::Create => OpenStage::created(create).end(
                purpose,
                path,
                create,
                protect,
                attach,
                listen,
            ),
            OpenStage::Protect => OpenStage::protected(purpose, path, protect).end(
                purpose,
                path,
                create,
                protect,
                attach,
                listen,
            ),
            OpenStage::Attach(_, _) => OpenStage::attached(purpose, attach).end(
                purpose,
                path,
                create,
                protect,
                attach,
                listen,
            ),
            OpenStage::Listen => OpenStage::listening(listen).end(
                purpose,
                path,
                create,
                protect,
                attach,
                listen,
            ),
            OpenStage::Ready => Ok(()),
            OpenStage::Failed(error) => Err(error),
        }
    }
}

impl OpenStep {
    /// The first call.
    pub fn start() -> (step: OpenStep)
        ensures
            step.is_at(OpenStage::Create),
    {
        OpenStep::Create
    }

    /// What follows the reply `socket` to the call that makes or accepts a socket.
    pub fn created(socket: usize) -> (step: OpenStep)
        ensures
            step.is_at(OpenStage::created(socket)),
            socket == INVALID_SOCKET ==> step == OpenStep::Failed(SocketError::Winsock),
            socket != INVALID_SOCKET ==> step is Protect,
    {
        if socket == INVALID_SOCKET {
            OpenStep::Failed(SocketError::Winsock)
        } else {
            OpenStep::Protect
        }
    }

    /// What follows the reply `result` to the call that protects the socket. The path is looked at
    /// only here; there is none where it is not Unicode.
    pub fn protected(purpose: Purpose, path: Option<&str>, result: i32) -> (step: OpenStep)
        ensures
            step.is_at(OpenStage::protected(purpose, optional_str(path), result)),
            match step {
                OpenStep::Connect(addr, len) => {
                    &&& purpose is Connect
                    &&& path matches Some(path) && addr.holds(encode_utf8(path@)) && len
                        == SUN_PATH_OFFSET + encode_utf8(path@).len() + 1
                },
                OpenStep::Bind(addr, len) => {
                    &&& purpose is Bind
                    &&& path matches Some(path) && addr.holds(encode_utf8(path@)) && len
                        == SUN_PATH_OFFSET + encode_utf8(path@).len() + 1
                },
                OpenStep::Ready => purpose is Accept,
                OpenStep::Failed(error) => {
                    ||| result == 0 && error == SocketError::LastOs
                    ||| result != 0 && purpose !is Accept && {
                        let text = match path {
                            Some(path) => Some(path@),
                            None => None,
                        };
                        &&& address_error(text) is Some
                        &&& error == SocketError::Address(address_error(text)->0)
                    }
                },
                _ => false,
            },
            result == 0 ==> step is Failed,
    {
        if result == 0 {
            return OpenStep::Failed(SocketError::LastOs);
        }
        match purpose {
            Purpose::Accept => OpenStep::Ready,
            Purpose::Connect => match sockaddr_un::new(path) {
                Ok((addr, len)) => OpenStep::Connect(addr, len),
                Err(error) => OpenStep::Failed(SocketError::Address(error)),
            },
            Purpose::Bind => match sockaddr_un::new(path) {
                Ok((addr, len)) => OpenStep::Bind(addr, len),
                Err(error) => OpenStep::Failed(SocketError::Address(error)),
            },
        }
    }

    /// What follows the reply `result` to the call that connects or binds the socket.
    pub fn attached(purpose: Purpose, result: i32) -> (step: OpenStep)
        ensures
            step.is_at(OpenStage::attached(purpose, result)),
            result != 0 ==> step == OpenStep::Failed(SocketError::Winsock),
            result == 0 && purpose is Bind ==> step == OpenStep::Listen(128),
            result == 0 && purpose !is Bind ==> step is Ready,
    {
        if result != 0 {
            return OpenStep::Failed(SocketError::Winsock);
        }
        match purpose {
            Purpose::Bind => OpenStep::Listen(BACKLOG),
            _ => OpenStep::Ready,
        }
    }

    /// What follows the reply `result` to the call that makes the socket listen.
    pub fn listening(result: i32) -> (step: OpenStep)
        ensures
            step.is_at(OpenStage::listening(result)),
            result != 0 ==> step == OpenStep::Failed(SocketError::Winsock),
            result == 0 ==> step is Ready,
    {
        if result != 0 {
            OpenStep::Failed(SocketError::Winsock)
        } else {
            OpenStep::Ready
        }
    }
}

/// A socket is open once every call that its purpose needs has succeeded and its path is an
/// address; otherwise the first thing that went wrong is reported.
pub proof fn law_open(
    purpose: Purpose,
    path: Option<Seq<char>>,
    create: usize,
    protect: i32,
    attach: i32,
    listen: i32,
)
    ensures
        OpenStage::Create.end(purpose, path, create, protect, attach, listen) == (if create
            == INVALID_SOCKET {
            Err::<(), SocketError>(SocketError::Winsock)
        } else if protect == 0 {
            Err(SocketError::LastOs)
        } else if purpose is Accept {
            Ok(())
        } else if address_error(path) is Some {
            Err(SocketError::Address(address_error(path)->0))
        } else if attach != 0 || purpose is Bind && listen != 0 {
            Err(SocketError::Winsock)
        } else {
            Ok(())
        }),
{
    reveal_with_fuel(OpenStage::end, 5);
}

/// The view of an optional string slice loses nothing.
pub proof fn law_optional_str(text: Option<&str>)
    ensures
        match optional_str(text) {
            Some(chars) => text matches Some(text) && chars == text@,
            None => text is None,
        },
{
}

/// The one call that attaches a socket to a path is the one that its purpose names: a client's
/// socket is connected and a listener's is bound, whatever the path, to the address that the path
/// can be read back from. It comes exactly where the socket is protected and the path is an address.
/// A socket that was accepted needs no such call.
pub proof fn law_attach(
    purpose: Purpose,
    path: Option<Seq<char>>,
    result: i32,
    step: OpenStep,
)
    requires
        step.is_at(OpenStage::protected(purpose, path, result)),
    ensures
        result == 0 ==> step == OpenStep::Failed(SocketError::LastOs),
        result != 0 && purpose is Accept ==> step is Ready,
        result != 0 && purpose !is Accept && address_error(path) is Some ==> step
            == OpenStep::Failed(SocketError::Address(address_error(path)->0)),
        result != 0 && purpose !is Accept && address_error(path) is None ==> {
            &&& purpose is Connect <==> step is Connect
            &&& purpose is Bind <==> step is Bind
            &&& match step {
                OpenStep::Connect(addr, len) | OpenStep::Bind(addr, len) => {
                    let bytes = addr.path_bytes().take(len - SUN_PATH_OFFSET - 1);
                    &&& path matches Some(text) && bytes == encode_utf8(text)
                    &&& addr.path_bytes()[len - SUN_PATH_OFFSET - 1] == 0
                    &&& addr.sun_family == AF_UNIX
                },
                _ => false,
            }
        },
{
    law_address_error(path);
    if result != 0 && purpose !is Accept && address_error(path) is None {
        match step {
            OpenStep::Connect(addr, _) | OpenStep::Bind(addr, _) => {
                law_address_keeps_path(addr, encode_utf8(path->0));
            },
            _ => {},
        }
    }
}

/// The other calls on the way to an open socket, whatever the replies: each of them comes exactly
/// where the one before has succeeded, only a bound socket listens, and the first failure is
/// reported.
pub proof fn law_open_calls(purpose: Purpose, socket: usize, result: i32, step: OpenStep)
    ensures
        step.is_at(OpenStage::Create) ==> step is Create,
        step.is_at(OpenStage::created(socket)) ==> if socket == INVALID_SOCKET {
            step == OpenStep::Failed(SocketError::Winsock)
        } else {
            step is Protect
        },
        step.is_at(OpenStage::attached(purpose, result)) ==> match step {
            OpenStep::Failed(error) => result != 0 && error == SocketError::Winsock,
            OpenStep::Listen(waiting) => result == 0 && purpose is Bind && waiting == 128,
            OpenStep::Ready => result == 0 && purpose !is Bind,
            _ => false,
        },
        step.is_at(OpenStage::listening(result)) ==> match step {
            OpenStep::Failed(error) => result != 0 && error == SocketError::Winsock,
            OpenStep::Ready => result == 0,
            _ => false,
        },
{
}

/// The next call on the way to bytes from a socket.
#[derive(Clone, Copy, Debug, PartialEq, Eq, Structural)]
pub enum RecvStep {
    /// None: the last error of Winsock is reported.
    Failed,
    /// Receive so many bytes at most.
    Recv(i32),
    /// Sleep for so many seconds and look again.
    Sleep(u64),
}

/// What follows a look at whether a socket can be read, which gave `result` and found `readable`
/// sockets to read, for a reader with room for `room` bytes.
pub open spec fn look(result: i32, readable: u32, room: usize) -> RecvStep {
    if result < 0 {
        RecvStep::Failed
    } else if readable > 0 {
        RecvStep::Recv(room as i32)
    } else {
        RecvStep::Sleep(READ_PAUSE)
    }
}

/// What follows a look at whether a socket can be read, which gave `result` and found `readable`
/// sockets to read, for a reader with room for `room` bytes. Receiving is put off until there is
/// something to receive, because a thread that receives keeps others from sending.
pub fn selected(result: i32, readable: u32, room: usize) -> (step: RecvStep)
    requires
        result >= 0 && readable > 0 ==> room <= i32::MAX,
    ensures
        step == look(result, readable, room),
        match step {
            RecvStep::Failed => result < 0,
            RecvStep::Recv(len) => result >= 0 && readable > 0 && len as int == room,
            RecvStep::Sleep(seconds) => result >= 0 && readable == 0 && seconds == READ_PAUSE,
        },
{
    if result < 0 {
        RecvStep::Failed
    } else if readable > 0 {
        RecvStep::Recv(room as i32)
    } else {
        RecvStep::Sleep(READ_PAUSE)
    }
}

/// How many bytes a call sends or receives, given its reply.
pub open spec fn transfer(result: i32) -> Result<usize, SocketError> {
    if result < 0 {
        Err(SocketError::Winsock)
    } else {
        Ok(result as usize)
    }
}

/// How many bytes a call sends or receives, given its reply.
pub fn transferred(result: i32) -> (count: Result<usize, SocketError>)
    ensures
        count == transfer(result),
        match count {
            Ok(count) => count as int == result,
            Err(error) => result < 0 && error == SocketError::Winsock,
        },
{
    if result < 0 {
        Err(SocketError::Winsock)
    } else {
        Ok(result as usize)
    }
}

/// Whether a socket was shut down, given the reply.
pub open spec fn shutdown_reply(result: i32) -> Result<(), SocketError> {
    if result != 0 {
        Err(SocketError::Winsock)
    } else {
        Ok(())
    }
}

/// Whether a socket was shut down, given the reply.
pub fn shut_down(result: i32) -> (done: Result<(), SocketError>)
    ensures
        done == (if result != 0 {
            Err::<(), SocketError>(SocketError::Winsock)
        } else {
            Ok(())
        }),
        done == shutdown_reply(result),
{
    if result != 0 {
        Err(SocketError::Winsock)
    } else {
        Ok(())
    }
}

/// A read of a socket: the sleeps so far, and then what came of it, if anything has yet.
pub struct Waiting {
    /// How long the reader slept after each look, in seconds.
    pub sleeps: Seq<u64>,
    /// How many bytes were asked for, each time that the socket was asked.
    pub asked: Seq<i32>,
    /// The outcome.
    pub outcome: Option<Result<usize, SocketError>>,
}

/// A read with room for `room` bytes, given the replies to the looks at the socket and the reply
/// to the call that receives, if it comes to that. After a sleep the reader looks again.
pub open spec fn read_looks(looks: Seq<(i32, u32)>, room: usize, recv: i32) -> Waiting
    decreases looks.len(),
{
    if looks.len() == 0 {
        Waiting { sleeps: Seq::empty(), asked: Seq::empty(), outcome: None }
    } else {
        match look(looks[0].0, looks[0].1, room) {
            RecvStep::Failed => Waiting {
                sleeps: Seq::empty(),
                asked: Seq::empty(),
                outcome: Some(Err(SocketError::Winsock)),
            },
            RecvStep::Recv(len) => Waiting {
                sleeps: Seq::empty(),
                asked: seq![len],
                outcome: Some(transfer(recv)),
            },
            RecvStep::Sleep(seconds) => {
                let rest = read_looks(looks.drop_first(), room, recv);
                Waiting { sleeps: seq![seconds] + rest.sleeps, ..rest }
            },
        }
    }
}

/// Looks that find nothing to read are never reported and change nothing: what a read asks the
/// socket for and what it comes to is the same as without them. The socket is not asked for bytes
/// meanwhile, and each of them is followed by a sleep of [`READ_PAUSE`].
pub proof fn law_read_waits(
    quiet: Seq<(i32, u32)>,
    looks: Seq<(i32, u32)>,
    room: usize,
    recv: i32,
)
    requires
        forall|i: int|
            0 <= i < quiet.len() ==> {
                let (result, readable) = #[trigger] quiet[i];
                result >= 0 && readable == 0
            },
    ensures
        read_looks(quiet, room, recv).outcome is None,
        read_looks(quiet, room, recv).asked.len() == 0,
        read_looks(quiet + looks, room, recv).outcome == read_looks(looks, room, recv).outcome,
        read_looks(quiet + looks, room, recv).asked == read_looks(looks, room, recv).asked,
        read_looks(quiet + looks, room, recv).sleeps == Seq::new(
            quiet.len(),
            |i: int| READ_PAUSE,
        ) + read_looks(looks, room, recv).sleeps,
    decreases quiet.len(),
{
    let pauses = Seq::new(quiet.len(), |i: int| READ_PAUSE);
    if quiet.len() == 0 {
        assert(quiet + looks == looks);
        assert(pauses + read_looks(looks, room, recv).sleeps == read_looks(
            looks,
            room,
            recv,
        ).sleeps);
    } else {
        let fewer = quiet.drop_first();
        assert forall|i: int| 0 <= i < fewer.len() implies {
            let (result, readable) = #[trigger] fewer[i];
            result >= 0 && readable == 0
        } by {
            assert(fewer[i] == quiet[i + 1]);
        }
        law_read_waits(fewer, looks, room, recv);
        assert((quiet + looks).drop_first() == fewer + looks);
        assert((quiet + looks)[0] == quiet[0]);
        assert(pauses == seq![READ_PAUSE] + Seq::new(fewer.len(), |i: int| READ_PAUSE));
        assert(read_looks(quiet + looks, room, recv).sleeps == pauses + read_looks(
            looks,
            room,
            recv,
        ).sleeps);
    }
}

/// A read comes to an outcome at the first look that fails or finds something, and asks the socket
/// for bytes then or never, for as many as there is room for.
pub proof fn law_read_asks_once(looks: Seq<(i32, u32)>, room: usize, recv: i32)
    requires
        room <= i32::MAX,
    ensures
        ({
            let read = read_looks(looks, room, recv);
            &&& read.asked.len() <= 1
            &&& read.asked.len() == 1 ==> read.asked[0] == room && read.outcome == Some(
                transfer(recv),
            )
            &&& read.asked.len() == 0 ==> read.outcome is None || read.outcome == Some(
                Err::<usize, SocketError>(SocketError::Winsock),
            )
            &&& read.outcome is None <==> forall|i: int|
                0 <= i < looks.len() ==> {
                    let (result, readable) = #[trigger] looks[i];
                    result >= 0 && readable == 0
                }
        }),
    decreases looks.len(),
{
    if looks.len() > 0 {
        let rest = looks.drop_first();
        law_read_asks_once(rest, room, recv);
        assert(forall|i: int| 0 <= i < rest.len() ==> rest[i] == #[trigger] looks[i + 1]);
        assert forall|i: int| 0 < i < looks.len() implies #[trigger] looks[i] == rest[i - 1] by {}
    }
}

/// A read goes by the first look that is not quiet, whatever comes later. A look that failed is
/// reported, and nothing is received. A look that found something is followed by a call that asks
/// for as many bytes as there is room for, and the read gives as many as that call reported.
pub proof fn law_read_outcome(
    quiet: Seq<(i32, u32)>,
    first: (i32, u32),
    later: Seq<(i32, u32)>,
    room: usize,
    recv: i32,
)
    requires
        room <= i32::MAX,
        first.0 < 0 || first.1 > 0,
        forall|i: int|
            0 <= i < quiet.len() ==> {
                let (result, readable) = #[trigger] quiet[i];
                result >= 0 && readable == 0
            },
    ensures
        ({
            let read = read_looks(quiet + (seq![first] + later), room, recv);
            &&& read.sleeps.len() == quiet.len()
            &&& if first.0 < 0 {
                &&& read.asked.len() == 0
                &&& read.outcome == Some(Err::<usize, SocketError>(SocketError::Winsock))
            } else {
                &&& read.asked.len() == 1
                &&& read.asked[0] as int == room
                &&& match read.outcome {
                    Some(Ok(count)) => count as int == recv,
                    Some(Err(error)) => recv < 0 && error == SocketError::Winsock,
                    None => false,
                }
            }
        }),
{
    let looks = seq![first] + later;
    assert(looks[0] == first);
    law_read_waits(quiet, looks, room, recv);
}

/// A call sends or receives as many bytes as it reports, and fails exactly where it reports less
/// than none.
pub proof fn law_transfer(result: i32)
    ensures
        match transfer(result) {
            Ok(count) => count as int == result,
            Err(error) => result < 0 && error == SocketError::Winsock,
        },
{
}

/// A socket was shut down exactly where the reply is zero.
pub proof fn law_shutdown_reply(result: i32)
    ensures
        match shutdown_reply(result) {
            Ok(()) => result == 0,
            Err(error) => result != 0 && error == SocketError::Winsock,
        },
{
}

} // verus!
