//! What can go wrong with a stream.

use vstd::prelude::*;

verus! {

/// The kind of an error that did not come from the operating system.
#[derive(Clone, Copy, Debug, PartialEq, Eq, Structural)]
pub enum ErrorKind {
    /// An argument cannot be used.
    InvalidInput,
    /// Anything else.
    Other,
}

/// What can go wrong with a stream.
#[derive(Debug)]
pub enum StreamError {
    /// The socket reported an error.
    Io(std::io::Error),
    /// Someone panicked while holding the reading half.
    ReaderPoisoned,
    /// The reading thread is gone.
    ReaderGone,
    /// Someone panicked while holding the writing half.
    WriterPoisoned,
    /// The flushing thread is gone.
    FlusherGone,
}

impl StreamError {
    /// The message of an error that did not come from the socket.
    pub open spec fn text(self) -> Option<Seq<char>> {
        match self {
            StreamError::Io(_) => None,
            StreamError::ReaderPoisoned => Some("reader mutex poisoned"@),
            StreamError::ReaderGone => Some("reader receiver dropped"@),
            StreamError::WriterPoisoned => Some("writer mutex poisoned"@),
            StreamError::FlusherGone => Some("flush receiver dropped"@),
        }
    }

    /// The kind of an error that did not come from the socket; an error of the socket has its own.
    pub fn kind(&self) -> (kind: Option<ErrorKind>)
        ensures
            kind == (if self is Io {
                None
            } else {
                Some(ErrorKind::Other)
            }),
    {
        match self {
            StreamError::Io(_) => None,
            _ => Some(ErrorKind::Other),
        }
    }

    /// The message of an error that did not come from the socket; an error of the socket has its
    /// own.
    pub fn message(&self) -> (message: Option<&'static str>)
        ensures
            self.text() == (match message {
                Some(message) => Some(message@),
                None => None,
            }),
    {
        match self {
            StreamError::Io(_) => None,
            StreamError::ReaderPoisoned => Some("reader mutex poisoned"),
            StreamError::ReaderGone => Some("reader receiver dropped"),
            StreamError::WriterPoisoned => Some("writer mutex poisoned"),
            StreamError::FlusherGone => Some("flush receiver dropped"),
        }
    }
}

} // verus!
