//! The parts of an HTTP server that decide: how the headers of a request frame
//! its body, how a request is read and answered, how a reader is held to the
//! length of a body, and how a pool of threads shares its tasks. All of it works
//! on plain values; reading, writing, waiting and starting threads is left to
//! whoever uses it.
pub mod ascii;
pub mod common;
pub mod framing;
pub mod io_error;
pub mod request;
pub mod util;

pub use common::{HTTPVersion, Header, HeaderField, Method, StatusCode};
pub use io_error::{ErrorKind, IoError};
pub use request::{new_request, Request, RequestCreationError};
