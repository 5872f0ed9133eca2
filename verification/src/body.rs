//! Bounded response bodies.
use vstd::prelude::*;

verus! {

/// The largest accepted provider response, in bytes.
pub const MAX_PROVIDER_BYTES: usize = 65_536;

/// Whether a declared length is within a limit. An undeclared length is.
pub fn declared_length_fits(declared: Option<u64>, limit: usize) -> (fits: bool)
    ensures
        fits == (declared matches Some(length) ==> length <= limit),
{
    match declared {
        Some(length) => length <= limit as u64,
        None => true,
    }
}

/// Appends a received chunk, where the body stays within a limit; else leaves the body as it is.
pub fn append_chunk(body: &mut Vec<u8>, chunk: &[u8], limit: usize) -> (fits: bool)
    requires
        old(body)@.len() <= limit,
    ensures
        fits == (old(body)@.len() + chunk@.len() <= limit),
        final(body)@ == if fits {
            old(body)@ + chunk@
        } else {
            old(body)@
        },
        final(body)@.len() <= limit,
{
    if chunk.len() > limit - body.len() {
        return false;
    }
    body.extend_from_slice(chunk);
    true
}

} // verus!
