//! The SOCKS5 client and the local transparent proxy in front of it.
pub mod endpoint;
pub mod session;
pub mod socks5;
pub mod transparent_proxy;

use vstd::prelude::*;

verus! {

/// The class of an error, as the operating system's I/O errors are classed.
#[derive(Clone, Copy, Debug, PartialEq, Eq, Structural)]
pub enum ErrorKind {
    InvalidInput,
    InvalidData,
    NotFound,
    Other,
}

} // verus!
