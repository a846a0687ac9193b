use vstd::prelude::*;
use crate::frame::Frame;
use crate::outside::{
    buffer_from_raw, buffer_get_pixel, buffer_height, buffer_samples_copy, buffer_width,
    RgbaBuffer,
};
use crate::pixel::Rgba;
use crate::rows::lemma_pixel_position;

verus! {

impl RgbaBuffer {
    /// A buffer of `width` by `height` pixels over `samples`, made exactly when
    /// there are at least `4 * width * height` samples.
    pub fn from_raw(width: u32, height: u32, samples: Vec<u8>) -> (r: Option<RgbaBuffer>)
        ensures
            r is Some <==> 4 * width * height <= samples.len(),
            r matches Some(b) ==> b@ == (Frame {
                width: width as nat,
                height: height as nat,
                samples: samples@,
            }),
    {
        buffer_from_raw(width, height, samples)
    }

    pub fn width(&self) -> (w: u32)
        ensures
            w == self@.width,
            self@.wf(),
    {
        buffer_width(self)
    }

    pub fn height(&self) -> (h: u32)
        ensures
            h == self@.height,
            self@.wf(),
    {
        buffer_height(self)
    }

    /// The pixel at column `x` of row `y`.
    pub fn get_pixel(&self, x: u32, y: u32) -> (p: Rgba)
        requires
            x < self@.width,
            y < self@.height,
        ensures
            p == self@.pixel(x as int, y as int),
    {
        let width = buffer_width(self);
        assert(4 * width * self@.height <= self@.samples.len());
        proof {
            lemma_pixel_position(self@.width, self@.height, x as int, y as int, 3);
        }
        let p = buffer_get_pixel(self, x, y);
        assert(p.0 =~= self@.pixel(x as int, y as int).0);
        p
    }

    /// A copy of all the samples.
    pub fn to_vec(&self) -> (v: Vec<u8>)
        ensures
            v@ == self@.samples,
    {
        buffer_samples_copy(self)
    }
}

} // verus!
