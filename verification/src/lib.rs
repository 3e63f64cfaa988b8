//! HTTP over Unix domain sockets.
//!
//! A request names its socket in the URI: [`make_hyper_uri`] writes the path of the socket in
//! hexadecimal where the host belongs, and [`UdsConnector::call`] reads it back.
//!
//! Where the socket can be polled, its stream is all there is. Where it only blocks, two threads
//! serve each stream: [`read_half`] and [`write_half`] hold what passes between the stream and its
//! threads, and say what each thread does next. [`socket`] and [`sockaddr`] say which calls open
//! such a socket and read from it, and [`incoming`] what a listener does with what it accepts.

pub mod buffer;
pub mod connector;
pub mod hexcode;
pub mod incoming;
pub mod read_half;
pub mod sockaddr;
pub mod socket;
pub mod stream_error;
pub mod uri;
pub mod write_half;

pub use connector::ConnectError;
pub use connector::UdsConnector;
pub use sockaddr::sockaddr_un;
pub use stream_error::ErrorKind;
pub use stream_error::StreamError;
pub use uri::make_hyper_uri;
pub use uri::InvalidUri;
pub use uri::Uri;
