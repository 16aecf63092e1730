//! Raw sensor samples and the byte orders they arrive in.

use vstd::prelude::*;

verus! {

/// One raw reading: accelerometer and gyroscope counts per axis, and an
/// optional raw temperature.
#[derive(Clone, Copy, Debug, PartialEq, Eq)]
pub struct RawSample {
    pub accel: [i16; 3],
    pub gyro: [i16; 3],
    pub temp: Option<i16>,
}

/// The two's-complement value of the 16-bit word `hi:lo`.
pub open spec fn spec_word(hi: u8, lo: u8) -> i16 {
    let v = (hi as int) * 256 + (lo as int);
    if v >= 0x8000 {
        (v - 0x10000) as i16
    } else {
        v as i16
    }
}

/// Same as `i16::from_be_bytes([hi, lo])`.
pub fn word_from_be(hi: u8, lo: u8) -> (w: i16)
    ensures
        w == spec_word(hi, lo),
{
    let v: i32 = (hi as i32) * 256 + (lo as i32);
    if v >= 0x8000 {
        (v - 0x10000) as i16
    } else {
        v as i16
    }
}

/// Same as `i16::from_le_bytes([lo, hi])`.
pub fn word_from_le(lo: u8, hi: u8) -> (w: i16)
    ensures
        w == spec_word(hi, lo),
{
    word_from_be(hi, lo)
}

/// The sample a 12-byte block of big-endian words (accel x, y, z, then gyro
/// x, y, z) stands for.
pub open spec fn spec_sample_from_be(b: Seq<u8>) -> RawSample {
    RawSample {
        accel: [spec_word(b[0], b[1]), spec_word(b[2], b[3]), spec_word(b[4], b[5])],
        gyro: [spec_word(b[6], b[7]), spec_word(b[8], b[9]), spec_word(b[10], b[11])],
        temp: None,
    }
}

/// The sample a 12-byte block of little-endian words (accel x, y, z, then
/// gyro x, y, z) stands for.
pub open spec fn spec_sample_from_le(b: Seq<u8>) -> RawSample {
    RawSample {
        accel: [spec_word(b[1], b[0]), spec_word(b[3], b[2]), spec_word(b[5], b[4])],
        gyro: [spec_word(b[7], b[6]), spec_word(b[9], b[8]), spec_word(b[11], b[10])],
        temp: None,
    }
}

} // verus!
