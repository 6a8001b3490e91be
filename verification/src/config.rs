//! Fixed configuration: bind address, protocol version, key size, and the
//! admission limit on concurrent clients.

use vstd::prelude::*;

verus! {

/// The address the server binds to.
pub fn get_ip() -> (r: &'static str)
    ensures
        r@ == "127.0.0.1:9123"@,
{
    "127.0.0.1:9123"
}

/// The wire protocol version carried in every client hello.
pub const CURRENT_VERSION: u8 = 1;

/// The size in bits of the RSA keys used by the handshake.
pub const RSA_KEY_SIZE: usize = 2048;

/// How many clients may be connected at once.
pub const MAX_CLIENTS: u16 = 32;

} // verus!
