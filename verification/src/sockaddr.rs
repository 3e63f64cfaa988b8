//! The address of a Unix domain socket, as Winsock lays it out.

use vstd::prelude::*;
use vstd::utf8::*;

use crate::stream_error::ErrorKind;

verus! {

/// The number of bytes for the path in an address.
pub const SUN_PATH_LEN: usize = 108;

/// Where the path starts in an address, behind the two bytes of the family.
pub const SUN_PATH_OFFSET: usize = 2;

/// The address family of Unix domain sockets.
pub const AF_UNIX: u16 = 1;

/// The address of a Unix domain socket.
#[allow(non_camel_case_types)]
pub struct sockaddr_un {
    /// The address family.
    pub sun_family: u16,
    /// The path as Winsock's characters, filled up with zeros.
    pub sun_path: [i8; 108],
}

/// Why a path cannot be the address of a socket.
#[derive(Clone, Copy, Debug, PartialEq, Eq, Structural)]
pub enum AddressError {
    /// The path is not Unicode.
    NotUtf8,
    /// The path holds a zero byte, which would end it.
    InteriorNul,
    /// The path and the zero byte behind it do not fit.
    TooLong,
}

impl AddressError {
    /// The message for people to read.
    pub open spec fn text(self) -> Seq<char> {
        match self {
            AddressError::NotUtf8 => "path must be utf-8"@,
            AddressError::InteriorNul => "path contains interior null byte"@,
            AddressError::TooLong => "path must be shorter than SUN_LEN"@,
        }
    }

    /// The kind of the error: the path cannot be used.
    pub fn kind(&self) -> (kind: ErrorKind)
        ensures
            kind == ErrorKind::InvalidInput,
    {
        ErrorKind::InvalidInput
    }

    /// The message for people to read.
    pub fn message(&self) -> (message: &'static str)
        ensures
            message@ == self.text(),
    {
        match self {
            AddressError::NotUtf8 => "path must be utf-8",
            AddressError::InteriorNul => "path contains interior null byte",
            AddressError::TooLong => "path must be shorter than SUN_LEN",
        }
    }
}

/// What is wrong with a path as the address of a socket.
pub open spec fn address_error(path: Option<Seq<char>>) -> Option<AddressError> {
    match path {
        None => Some(AddressError::NotUtf8),
        Some(path) => if encode_utf8(path).contains(0) {
            Some(AddressError::InteriorNul)
        } else if encode_utf8(path).len() >= SUN_PATH_LEN {
            Some(AddressError::TooLong)
        } else {
            None
        },
    }
}

impl sockaddr_un {
    /// The bytes of the path field.
    pub open spec fn path_bytes(self) -> Seq<u8> {
        Seq::new(self.sun_path@.len(), |i: int| self.sun_path@[i] as u8)
    }

    /// The address holds these bytes as its path, with zeros behind them.
    pub open spec fn holds(self, path: Seq<u8>) -> bool {
        &&& self.sun_family == AF_UNIX
        &&& forall|i: int|
            0 <= i < SUN_PATH_LEN ==> #[trigger] self.path_bytes()[i] == (if i < path.len() {
                path[i]
            } else {
                0u8
            })
    }

    /// The address of the socket at `path`, and how many bytes of it count. There is no path where
    /// it is not Unicode.
    pub fn new(path: Option<&str>) -> (address: Result<(sockaddr_un, i32), AddressError>)
        ensures
            match address {
                Ok((addr, len)) => {
                    &&& path matches Some(path) && {
                        &&& !encode_utf8(path@).contains(0)
                        &&& encode_utf8(path@).len() + 1 <= 108
                        &&& addr.path_bytes().take(encode_utf8(path@).len() as int) == encode_utf8(
                            path@,
                        )
                        &&& address_error(Some(path@)) is None
                        &&& addr.holds(encode_utf8(path@))
                        &&& len == SUN_PATH_OFFSET + encode_utf8(path@).len() + 1
                    }
                },
                Err(error) => Some(error) == address_error(
                    match path {
                        Some(path) => Some(path@),
                        None => None,
                    },
                ),
            },
    {
        let text = match path {
            Some(text) => text,
            None => return Err(AddressError::NotUtf8),
        };
        let bytes = text.as_bytes();
        let mut i: usize = 0;
        while i < bytes.len()
            invariant
                i <= bytes@.len(),
                forall|j: int| 0 <= j < i ==> bytes@[j] != 0,
                path == Some(text),
                bytes@ == encode_utf8(text@),
            decreases bytes@.len() - i,
        {
            if bytes[i] == 0 {
                assert(bytes@.contains(bytes@[i as int]));
                return Err(AddressError::InteriorNul);
            }
            i = i + 1;
        }
        assert(!bytes@.contains(0));
        let path_len: usize = bytes.len();
        if path_len >= SUN_PATH_LEN {
            return Err(AddressError::TooLong);
        }
        let mut addr = sockaddr_un { sun_family: AF_UNIX, sun_path: [0i8; 108] };
        let mut i: usize = 0;
        while i < path_len
            invariant
                i <= path_len == bytes@.len() < SUN_PATH_LEN,
                addr.sun_family == AF_UNIX,
                forall|j: int|
                    0 <= j < SUN_PATH_LEN ==> #[trigger] addr.sun_path@[j] == (if j < i {
                        bytes@[j] as i8
                    } else {
                        0i8
                    }),
            decreases path_len - i,
        {
            addr.sun_path[i] = bytes[i] as i8;
            i = i + 1;
        }
        assert forall|j: int| 0 <= j < SUN_PATH_LEN implies #[trigger] addr.path_bytes()[j] == (
        if j < bytes@.len() {
            bytes@[j]
        } else {
            0u8
        }) by {
            assert(addr.sun_path@[j] == (if j < bytes@.len() { bytes@[j] as i8 } else { 0i8 }));
            if j < bytes@.len() {
                let b = bytes@[j];
                assert((b as i8) as u8 == b) by (bit_vector);
            }
        }
        assert(addr.path_bytes().take(bytes@.len() as int) =~= bytes@);
        let len: usize = SUN_PATH_OFFSET + path_len + 1;
        Ok((addr, len as i32))
    }
}

/// A path is an address exactly where it is Unicode, none of its bytes is zero, and it fits in front
/// of a zero byte. Otherwise it is told which of these it lacks, in that order.
pub proof fn law_address_error(path: Option<Seq<char>>)
    ensures
        match address_error(path) {
            None => path matches Some(text) && {
                &&& !encode_utf8(text).contains(0)
                &&& encode_utf8(text).push(0).len() <= 108
            },
            Some(AddressError::NotUtf8) => path is None,
            Some(AddressError::InteriorNul) => path matches Some(text) && encode_utf8(
                text,
            ).contains(0),
            Some(AddressError::TooLong) => path matches Some(text) && {
                &&& !encode_utf8(text).contains(0)
                &&& encode_utf8(text).push(0).len() > 108
            },
        },
{
}

/// The path can be read back from an address: it is what comes before the first zero byte, and
/// there is always one. Behind it all bytes are zero. An address is of the family of Unix domain
/// sockets.
pub proof fn law_address_keeps_path(addr: sockaddr_un, path: Seq<u8>)
    requires
        addr.holds(path),
        !path.contains(0),
        path.len() < SUN_PATH_LEN,
    ensures
        addr.path_bytes().take(path.len() as int) == path,
        addr.path_bytes()[path.len() as int] == 0,
        forall|i: int| path.len() <= i < SUN_PATH_LEN ==> #[trigger] addr.path_bytes()[i] == 0,
        forall|i: int|
            0 <= i < SUN_PATH_LEN ==> #[trigger] addr.path_bytes()[i] == addr.sun_path@[i] as u8,
        addr.sun_family == AF_UNIX,
        forall|i: int| 0 <= i < path.len() ==> #[trigger] addr.path_bytes()[i] != 0,
{
    assert forall|i: int| 0 <= i < path.len() implies #[trigger] addr.path_bytes()[i] == path[i]
        && path[i] != 0 by {
        assert(path.contains(path[i]));
    }
}

} // verus!
