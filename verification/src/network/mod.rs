pub mod tls;

pub use tls::{TlsConfig, TlsVersion};

use vstd::prelude::*;

verus! {

/// Errors of the network stack.
#[derive(Debug)]
pub enum NetworkError {
    ConnectionFailed(String),
    TlsError(String),
    DnsError(String),
}

} // verus!
