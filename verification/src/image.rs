//! The rendered pixel buffer and its quantization to 8-bit channels.

use vstd::prelude::*;

use crate::fx::{div_floor, div_floor_128, fx_clamp_s, fx_ok, FX_ONE};
use crate::vector::{vec_ok, Vector3};

verus! {

/// A dense row-major buffer of per-pixel colors.
pub struct Image {
    pub data: Vec<Vector3>,
    pub width: u32,
    pub height: u32,
}

/// One color channel quantized to an 8-bit value: scaled by 255, floored,
/// and saturated into `[0, 255]` (negative channels darken to zero).
pub open spec fn quant_s(c: int) -> int {
    fx_clamp_s(div_floor(c * 255, FX_ONE as int), 0, 255)
}

/// Quantize one channel.
fn quant(c: i64) -> (b: u8)
    requires
        fx_ok(c as int),
    ensures
        b as int == quant_s(c as int),
{
    let q = div_floor_128((c as i128) * 255, FX_ONE as i128);
    if q < 0 {
        0
    } else if q > 255 {
        255
    } else {
        q as u8
    }
}

impl Image {
    /// Wrap a pixel buffer with its dimensions.
    pub fn new(data: Vec<Vector3>, width: u32, height: u32) -> (img: Image)
        ensures
            img.data == data,
            img.width == width,
            img.height == height,
    {
        Image { data, width, height }
    }

    /// Quantize the buffer to packed 8-bit RGB triples, row-major.
    pub fn to_rgb8(&self) -> (buf: Vec<u8>)
        requires
            forall|i: int| 0 <= i < self.data@.len() ==> vec_ok(#[trigger] self.data@[i]),
        ensures
            buf@.len() == 3 * self.data@.len(),
            forall|i: int|
                0 <= i < self.data@.len() ==> {
                    &&& buf@[3 * i] as int == quant_s(#[trigger] self.data@[i].x as int)
                    &&& buf@[3 * i + 1] as int == quant_s(self.data@[i].y as int)
                    &&& buf@[3 * i + 2] as int == quant_s(self.data@[i].z as int)
                },
    {
        let mut buf: Vec<u8> = Vec::new();
        let mut i: usize = 0;
        while i < self.data.len()
            invariant
                0 <= i <= self.data@.len(),
                buf@.len() == 3 * i,
                forall|j: int| 0 <= j < self.data@.len() ==> vec_ok(#[trigger] self.data@[j]),
                forall|j: int|
                    0 <= j < i ==> {
                        &&& buf@[3 * j] as int == quant_s(#[trigger] self.data@[j].x as int)
                        &&& buf@[3 * j + 1] as int == quant_s(self.data@[j].y as int)
                        &&& buf@[3 * j + 2] as int == quant_s(self.data@[j].z as int)
                    },
            decreases self.data@.len() - i,
        {
            let p = self.data[i];
            buf.push(quant(p.x));
            buf.push(quant(p.y));
            buf.push(quant(p.z));
            i = i + 1;
        }
        buf
    }
}

} // verus!
