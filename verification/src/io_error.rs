//! Errors of the streams that requests are read from and answered on.
use vstd::prelude::*;

verus! {

/// The kinds of errors that are told apart.
#[derive(Debug, Clone, Copy, PartialEq, Eq, Structural)]
pub enum ErrorKind {
    BrokenPipe,
    ConnectionAborted,
    ConnectionRefused,
    ConnectionReset,
    /// Any other kind.
    Other,
}

/// An error of a stream.
#[derive(Debug)]
pub enum IoError<E> {
    /// Raised here, with a text that says why.
    Raised { kind: ErrorKind, info: &'static str },
    /// Reported by the stream.
    Reported { kind: ErrorKind, error: E },
}

impl<E> IoError<E> {
    /// The kind of the error.
    pub open spec fn spec_kind(&self) -> ErrorKind {
        match self {
            IoError::Raised { kind, .. } => *kind,
            IoError::Reported { kind, .. } => *kind,
        }
    }

    /// The client has closed the connection, or is closing it.
    pub open spec fn is_client_closing(&self) -> bool {
        ||| self.spec_kind() == ErrorKind::BrokenPipe
        ||| self.spec_kind() == ErrorKind::ConnectionAborted
        ||| self.spec_kind() == ErrorKind::ConnectionRefused
        ||| self.spec_kind() == ErrorKind::ConnectionReset
    }

    /// The kind of the error.
    pub fn kind(&self) -> (r: ErrorKind)
        ensures
            r == self.spec_kind(),
    {
        match self {
            IoError::Raised { kind, .. } => *kind,
            IoError::Reported { kind, .. } => *kind,
        }
    }
}

/// What comes of a result when the errors of a client that closes the
/// connection do not count.
pub open spec fn forgiven<E>(result: Result<(), IoError<E>>) -> Result<(), IoError<E>> {
    match result {
        Err(err) => if err.is_client_closing() {
            Ok(())
        } else {
            Err(err)
        },
        Ok(_) => Ok(()),
    }
}

/// Lets go of the errors that mean that the client has closed the connection;
/// every other result is handed on.
pub fn ignore_client_closing_errors<E>(result: Result<(), IoError<E>>) -> (r: Result<
    (),
    IoError<E>,
>)
    ensures
        r == forgiven(result),
{
    match result {
        Ok(_) => Ok(()),
        Err(err) => match err.kind() {
            ErrorKind::BrokenPipe => Ok(()),
            ErrorKind::ConnectionAborted => Ok(()),
            ErrorKind::ConnectionRefused => Ok(()),
            ErrorKind::ConnectionReset => Ok(()),
            ErrorKind::Other => Err(err),
        },
    }
}

/// An error goes unnoticed exactly where it is a broken pipe, or a connection
/// that was aborted, refused or reset; whoever raised it. Every other result,
/// good or bad, stays as it is.
pub proof fn law_only_closing_errors_go<E>(kind: ErrorKind, info: &'static str, error: E)
    ensures
        forgiven::<E>(Ok(())) == Ok::<(), IoError<E>>(()),
        kind == ErrorKind::BrokenPipe || kind == ErrorKind::ConnectionAborted || kind
            == ErrorKind::ConnectionRefused || kind == ErrorKind::ConnectionReset ==> {
            &&& forgiven(Err(IoError::Reported { kind, error })) == Ok::<(), IoError<E>>(())
            &&& forgiven(Err(IoError::<E>::Raised { kind, info })) == Ok::<(), IoError<E>>(())
        },
        kind == ErrorKind::Other ==> {
            &&& forgiven(Err(IoError::Reported { kind, error })) == Err::<(), _>(
                IoError::Reported { kind, error },
            )
            &&& forgiven(Err(IoError::<E>::Raised { kind, info })) == Err::<(), _>(
                IoError::<E>::Raised { kind, info },
            )
        },
        (IoError::Reported { kind, error }).spec_kind() == kind,
        (IoError::<E>::Raised { kind, info }).spec_kind() == kind,
{
}

} // verus!
