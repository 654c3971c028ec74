//! Decoding of raw heart-rate notification payloads.
//!
//! Byte 0 of a payload is a flag bitfield. If bit 0 is clear, the rate is
//! the single byte 1; if bit 0 is set, the rate is the little-endian pair
//! (byte 1 low, byte 2 high). Other flag bits and any trailing bytes are
//! ignored. A payload with fewer bytes than its flag requires is rejected.

use vstd::prelude::*;

verus! {

/// Why a payload could not be decoded.
#[derive(Clone, Copy, Debug, PartialEq, Eq, Structural)]
pub enum DecodeError {
    /// Fewer bytes were present than the flag byte requires
    /// (or the flag byte itself is missing).
    Truncated,
}

/// What `decode` returns for a given payload: the heart-rate value selected
/// by the flag byte, or `Truncated` when the payload is too short.
pub open spec fn spec_decode(bytes: Seq<u8>) -> Result<u16, DecodeError> {
    if bytes.len() < 1 {
        Err(DecodeError::Truncated)
    } else if bytes[0] & 1 == 0 {
        if bytes.len() < 2 {
            Err(DecodeError::Truncated)
        } else {
            Ok(bytes[1] as u16)
        }
    } else {
        if bytes.len() < 3 {
            Err(DecodeError::Truncated)
        } else {
            Ok((bytes[1] as u16) | ((bytes[2] as u16) << 8))
        }
    }
}

/// Decode one notification payload into a heart-rate value.
pub fn decode(bytes: &[u8]) -> (r: Result<u16, DecodeError>)
    ensures
        r == spec_decode(bytes@),
        // One-byte format: the value is byte 1 itself.
        bytes@.len() >= 2 && bytes@[0] & 1 == 0 ==> r == Ok::<u16, DecodeError>(bytes@[1] as u16),
        // Two-byte format: little-endian, byte 1 low, byte 2 high.
        bytes@.len() >= 3 && bytes@[0] & 1 == 1 ==> r == Ok::<u16, DecodeError>(
            (bytes@[1] as u16) | ((bytes@[2] as u16) << 8),
        ),
        // Exactly the too-short payloads fail, all with `Truncated`.
        r is Err <==> (bytes@.len() < 2 || (bytes@[0] & 1 != 0 && bytes@.len() < 3)),
        r is Err ==> r == Err::<u16, DecodeError>(DecodeError::Truncated),
{
    if bytes.len() < 2 {
        return Err(DecodeError::Truncated);
    }
    let flag = bytes[0];
    let low = bytes[1] as u16;
    if flag & 1 == 0 {
        Ok(low)
    } else if bytes.len() < 3 {
        Err(DecodeError::Truncated)
    } else {
        let high = bytes[2] as u16;
        Ok(low | (high << 8))
    }
}

} // verus!
