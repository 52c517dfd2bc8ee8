//! Turns a raw byte buffer into an ordered sequence of signed 16-bit samples,
//! reading each consecutive byte pair as a little-endian value.

use vstd::prelude::*;
use vstd::arithmetic::div_mod::lemma_fundamental_div_mod;
use crate::WaveError;

verus! {

/// The signed 16-bit sample encoded little-endian by the byte pair
/// `(lo, hi)`: the value `lo | (hi << 8)`, sign-extended.
pub open spec fn spec_sample_le(lo: u8, hi: u8) -> int {
    if hi >= 128 {
        lo + 256 * hi - 65536
    } else {
        lo + 256 * hi
    }
}

/// Decodes a byte buffer into samples.
///
/// Fails with `InvalidLength` exactly when the buffer length is odd;
/// otherwise yields one sample per byte pair, in order.
pub fn decode(bytes: &Vec<u8>) -> (r: Result<Vec<i16>, WaveError>)
    ensures
        bytes@.len() % 2 != 0 ==> (r matches Err(e) && e == WaveError::InvalidLength),
        bytes@.len() % 2 == 0 ==> (r matches Ok(v) && v@.len() == bytes@.len() / 2 && forall|k: int|
            0 <= k < v@.len() ==> v@[k] == spec_sample_le(bytes@[2 * k], bytes@[2 * k + 1])),
{
    let len = bytes.len();
    if len % 2 != 0 {
        return Err(WaveError::InvalidLength);
    }
    let half = len / 2;
    proof {
        lemma_fundamental_div_mod(len as int, 2);
    }
    let mut out: Vec<i16> = Vec::new();
    let mut k: usize = 0;
    while k < half
        invariant
            len == bytes@.len(),
            len == 2 * half,
            k <= half,
            out@.len() == k,
            forall|j: int| 0 <= j < k ==> out@[j] == spec_sample_le(bytes@[2 * j], bytes@[2 * j + 1]),
        decreases half - k,
    {
        let lo = bytes[2 * k];
        let hi = bytes[2 * k + 1];
        let wide: i32 = lo as i32 + (hi as i32) * 256;
        let sample: i16 = if wide >= 32768 {
            (wide - 65536) as i16
        } else {
            wide as i16
        };
        out.push(sample);
        k += 1;
    }
    Ok(out)
}

} // verus!
