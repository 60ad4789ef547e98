use vstd::prelude::*;

verus! {

/// A temperature in tenths of a degree Celsius.
#[derive(Clone, Copy, Debug, PartialEq, Eq, Structural)]
pub struct Temperature {
    pub decicelsius: i32,
}

/// The nearest whole number to `80 * byte / 255`. No byte value lies halfway
/// between two whole numbers, so the nearest one is unique.
pub open spec fn is_nearest_step(byte: int, k: int) -> bool {
    -255 < 510 * k - 160 * byte < 255
}

/// `t` is the decoding of `byte`: forty degrees less half a degree per step.
pub open spec fn decodes_to(byte: u8, t: Temperature) -> bool {
    t.decicelsius % 5 == 0 && is_nearest_step(byte as int, (400 - t.decicelsius) / 5)
}

/// Decodes the temperature byte of the 4-byte sensor profile (A5-02-05, 0 to 40 °C).
///
/// The byte runs inversely over the range, 0 for 40 °C and 255 for 0 °C, and the
/// reading is quantised to half a degree: `40 - round(byte * 80 / 255) / 2`.
/// So byte 128 decodes to 20.0 °C.
pub fn decode_temperature(byte: u8) -> (r: Temperature)
    ensures
        decodes_to(byte, r),
        0 <= r.decicelsius <= 400,
{
    let k: u32 = (160 * (byte as u32) + 255) / 510;
    assert(510 * (k as int) != 160 * (byte as int) + 255) by {
        if 510 * (k as int) == 160 * (byte as int) + 255 {
            assert(2 * (255 * (k as int) - 80 * (byte as int)) == 255);
        }
    }
    assert(is_nearest_step(byte as int, k as int));
    Temperature { decicelsius: 400 - 5 * (k as i32) }
}

} // verus!
