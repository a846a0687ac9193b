use vstd::prelude::*;
use crate::kernel::{gradient_pixel, push_color_pixel, push_gradient_pixel, Neighbourhood};
use crate::pixel::{brightness, Rgba};
use crate::rows::lemma_pixel_position;

verus! {

/// What an RGBA raster holds: its width and height in pixels and its samples,
/// row after row from the top, four per pixel (red, green, blue, alpha).
/// The samples may run on past the last pixel.
pub struct Frame {
    pub width: nat,
    pub height: nat,
    pub samples: Seq<u8>,
}

impl Frame {
    /// The samples cover every pixel.
    pub open spec fn wf(self) -> bool {
        4 * self.width * self.height <= self.samples.len()
    }

    pub open spec fn contains(self, x: int, y: int) -> bool {
        0 <= x < self.width && 0 <= y < self.height
    }

    /// Index of the first sample of pixel `(x, y)`.
    pub open spec fn offset(self, x: int, y: int) -> int {
        4 * (y * self.width + x)
    }

    pub open spec fn pixel(self, x: int, y: int) -> Rgba {
        let o = self.offset(x, y);
        Rgba([self.samples[o], self.samples[o + 1], self.samples[o + 2], self.samples[o + 3]])
    }

    /// The 3x3 block around `(x, y)`, a neighbour beyond the border being
    /// replaced by the pixel on the border.
    pub open spec fn neighbourhood(self, x: int, y: int) -> Neighbourhood {
        let l = if x == 0 { x } else { x - 1 };
        let r = if x == self.width - 1 { x } else { x + 1 };
        let t = if y == 0 { y } else { y - 1 };
        let b = if y == self.height - 1 { y } else { y + 1 };
        Neighbourhood {
            tl: self.pixel(l, t),
            tc: self.pixel(x, t),
            tr: self.pixel(r, t),
            ml: self.pixel(l, y),
            mc: self.pixel(x, y),
            mr: self.pixel(r, y),
            bl: self.pixel(l, b),
            bc: self.pixel(x, b),
            br: self.pixel(r, b),
        }
    }
}

/// Column of the pixel that sample `i` belongs to, in a raster `width` wide.
pub open spec fn column_of(width: nat, i: int) -> int {
    (i / 4) % (width as int)
}

/// Row of the pixel that sample `i` belongs to, in a raster `width` wide.
pub open spec fn row_of(width: nat, i: int) -> int {
    (i / 4) / (width as int)
}

/// The raster of the same size whose every pixel is `k` applied to the
/// neighbourhood of that pixel in `src`; it holds exactly its pixels.
pub open spec fn map_neighbourhoods(src: Frame, k: spec_fn(Neighbourhood) -> Rgba) -> Frame {
    Frame {
        width: src.width,
        height: src.height,
        samples: Seq::new(
            4 * src.width * src.height,
            |i: int| k(src.neighbourhood(column_of(src.width, i), row_of(src.width, i))).0@[i % 4],
        ),
    }
}

/// Sample `i` after the luminance pass: the alpha of every complete pixel
/// becomes the brightness of its colour, every other sample stays.
pub open spec fn luminance_sample(s: Seq<u8>, i: int) -> u8 {
    if i % 4 == 3 {
        brightness(s[i - 3], s[i - 2], s[i - 1]) as u8
    } else {
        s[i]
    }
}

/// The raster after the luminance pass over all of its samples.
pub open spec fn luminance_frame(src: Frame) -> Frame {
    Frame {
        width: src.width,
        height: src.height,
        samples: Seq::new(src.samples.len(), |i: int| luminance_sample(src.samples, i)),
    }
}

/// The raster after the gradient pass.
pub open spec fn gradient_frame(src: Frame) -> Frame {
    map_neighbourhoods(src, |n: Neighbourhood| gradient_pixel(n))
}

/// The raster after the colour push with a strength of at most 255.
pub open spec fn push_color_frame(src: Frame, strength: u16) -> Frame {
    map_neighbourhoods(src, |n: Neighbourhood| push_color_pixel(n, strength))
}

/// The raster after the gradient push with a strength of at most 255.
pub open spec fn push_gradient_frame(src: Frame, strength: u16) -> Frame {
    map_neighbourhoods(src, |n: Neighbourhood| push_gradient_pixel(n, strength))
}

/// Pixel `(x, y)` of `map_neighbourhoods(src, k)` is `k` of the neighbourhood
/// of `(x, y)` in `src`.
pub proof fn lemma_map_pixel(src: Frame, k: spec_fn(Neighbourhood) -> Rgba, x: int, y: int)
    requires
        src.contains(x, y),
    ensures
        map_neighbourhoods(src, k).pixel(x, y) == k(src.neighbourhood(x, y)),
{
    let out = map_neighbourhoods(src, k);
    lemma_pixel_position(src.width, src.height, x, y, 0);
    lemma_pixel_position(src.width, src.height, x, y, 1);
    lemma_pixel_position(src.width, src.height, x, y, 2);
    lemma_pixel_position(src.width, src.height, x, y, 3);
    assert(out.pixel(x, y).0 =~= k(src.neighbourhood(x, y)).0);
}

} // verus!
