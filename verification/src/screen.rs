//! What the presentation of the frame buffer needs from this side: the byte
//! order in which the pixels are handed to the GPU.

use vstd::prelude::*;

verus! {

/// Side of the square, in window pixels, that shows one pixel of the frame
/// buffer.
pub const SCREEN_SCALE_FACTOR: usize = 10;

/// Size of the frame buffer in bytes: 64 by 32 pixels, one bit each.
pub const FRAME_BUFFER_SIZE: usize = 256;

/// The place in its group of four bytes that byte `i` moves to when each
/// group is reversed.
pub open spec fn mirrored(i: int) -> int {
    i - i % 4 + (3 - i % 4)
}

/// The frame buffer with every group of four bytes reversed, so that a
/// little-endian reader of 32-bit words sees the pixels in their order.
pub fn fix_u32_endianness(bytes_slice: &[u8; 256]) -> (buffer: [u8; 256])
    ensures
        forall|i: int| 0 <= i < FRAME_BUFFER_SIZE ==> buffer[i] == bytes_slice[mirrored(i)],
{
    let mut buffer: [u8; 256] = *bytes_slice;
    let mut word: usize = 0;
    while word < 64
        invariant
            0 <= word <= 64,
            forall|i: int| 0 <= i < 4 * word ==> buffer[i] == bytes_slice[mirrored(i)],
            forall|i: int| 4 * word <= i < FRAME_BUFFER_SIZE ==> buffer[i] == bytes_slice[i],
        decreases 64 - word,
    {
        let base: usize = 4 * word;
        buffer[base] = bytes_slice[base + 3];
        buffer[base + 1] = bytes_slice[base + 2];
        buffer[base + 2] = bytes_slice[base + 1];
        buffer[base + 3] = bytes_slice[base];
        word += 1;
    }
    buffer
}

} // verus!
