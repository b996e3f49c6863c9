//! The state kept for each client connection.
use vstd::prelude::*;

verus! {

/// The largest field section (header block) accepted on HTTP/3 connections.
pub const H3_MAX_FIELD_SECTION_SIZE: u64 = 16384;

/// The QPACK dynamic table capacity of HTTP/3 connections.
pub const H3_QPACK_MAX_TABLE_CAPACITY: u64 = 100;

/// The number of streams that may be blocked on QPACK.
pub const H3_QPACK_BLOCKED_STREAMS: u64 = 100;

/// An HTTP/3 connection is set up on a QUIC connection once the handshake
/// has completed, and only once.
pub fn should_create_h3(established: bool, has_h3: bool) -> (b: bool)
    ensures
        b == (established && !has_h3),
{
    established && !has_h3
}

/// How an attempt to set up HTTP/3 on a connection ended.
#[derive(Clone, Copy, Debug, PartialEq, Eq)]
pub enum H3Setup {
    /// The HTTP/3 connection was created.
    Created,
    /// The transport is not ready for it yet.
    NotReady,
    /// It failed for another reason.
    Failed,
}

/// The answer of `try_create_h3`: whether HTTP/3 was set up now, or the
/// failure, which is passed on.
pub fn h3_setup_result(setup: H3Setup) -> (r: Result<bool, ()>)
    ensures
        r == (match setup {
            H3Setup::Created => Ok::<bool, ()>(true),
            H3Setup::NotReady => Ok(false),
            H3Setup::Failed => Err(()),
        }),
{
    match setup {
        H3Setup::Created => Ok(true),
        H3Setup::NotReady => Ok(false),
        H3Setup::Failed => Err(()),
    }
}

} // verus!
