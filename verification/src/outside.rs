use rayon::iter::{IndexedParallelIterator, IntoParallelIterator, ParallelIterator};
use vstd::prelude::*;
use crate::frame::Frame;
use crate::pixel::Rgba;

verus! {

/// An `image::RgbaImage`, that is an `image::ImageBuffer` of `image::Rgba<u8>`
/// pixels over a `Vec<u8>`. Verus cannot take a declaration of `ImageBuffer`
/// itself (its parameter is bound by the outside trait `image::Pixel`), so the
/// buffer is held here, out of Verus's sight, and read only through the
/// trusted functions below.
#[verifier::external_body]
pub struct RgbaBuffer {
    inner: image::RgbaImage,
}

/// `image::DynamicImage`, carried through as it is.
#[verifier::external_type_specification]
#[verifier::external_body]
pub struct ExDynamicImage(image::DynamicImage);

/// The width and height that an `RgbaBuffer` was made with.
pub uninterp spec fn buffer_dims(buffer: RgbaBuffer) -> (u32, u32);

/// The samples that an `RgbaBuffer` holds: its whole container, row by row,
/// four samples per pixel.
pub uninterp spec fn buffer_samples(buffer: RgbaBuffer) -> Seq<u8>;

impl View for RgbaBuffer {
    type V = Frame;

    open spec fn view(&self) -> Frame {
        Frame {
            width: buffer_dims(*self).0 as nat,
            height: buffer_dims(*self).1 as nat,
            samples: buffer_samples(*self),
        }
    }
}

/// `ImageBuffer::width`: the width the buffer was made with. Every way of
/// making an `ImageBuffer` checks that `4 * width * height` fits in `usize` and
/// that the container holds at least that many samples; the contract states
/// both.
#[verifier::external_body]
pub(crate) fn buffer_width(buffer: &RgbaBuffer) -> (w: u32)
    ensures
        w == buffer_dims(*buffer).0,
        4 * w * buffer_dims(*buffer).1 <= buffer_samples(*buffer).len(),
        4 * w * buffer_dims(*buffer).1 <= usize::MAX,
{
    buffer.inner.width()
}

/// `ImageBuffer::height`: the height the buffer was made with, with the same
/// facts on the container as `buffer_width`.
#[verifier::external_body]
pub(crate) fn buffer_height(buffer: &RgbaBuffer) -> (h: u32)
    ensures
        h == buffer_dims(*buffer).1,
        4 * buffer_dims(*buffer).0 * h <= buffer_samples(*buffer).len(),
        4 * buffer_dims(*buffer).0 * h <= usize::MAX,
{
    buffer.inner.height()
}

/// `ImageBuffer::get_pixel`: the four samples from index `4 * (y * width + x)`
/// on. It panics outside the image, which `requires` rules out.
#[verifier::external_body]
pub(crate) fn buffer_get_pixel(buffer: &RgbaBuffer, x: u32, y: u32) -> (p: Rgba)
    requires
        x < buffer_dims(*buffer).0,
        y < buffer_dims(*buffer).1,
    ensures
        p.0@ == buffer_samples(*buffer).subrange(
            4 * (y * buffer_dims(*buffer).0 + x),
            4 * (y * buffer_dims(*buffer).0 + x) + 4,
        ),
{
    Rgba(buffer.inner.get_pixel(x, y).0)
}

/// `ImageBuffer::from_raw`: a buffer of the given size over `samples`, made
/// exactly when `samples` holds at least `4 * width * height` of them.
#[verifier::external_body]
pub(crate) fn buffer_from_raw(width: u32, height: u32, samples: Vec<u8>) -> (r: Option<RgbaBuffer>)
    ensures
        r is Some <==> 4 * width * height <= samples.len(),
        r matches Some(b) ==> (buffer_dims(b) == (width, height) && buffer_samples(b) == samples@),
{
    match image::RgbaImage::from_raw(width, height, samples) {
        Some(inner) => Some(RgbaBuffer { inner }),
        None => None,
    }
}

/// `ImageBuffer::as_raw`, cloned: a copy of the whole container.
#[verifier::external_body]
pub(crate) fn buffer_samples_copy(buffer: &RgbaBuffer) -> (v: Vec<u8>)
    ensures
        v@ == buffer_samples(*buffer),
{
    buffer.inner.as_raw().clone()
}

/// The width and height of an `image::DynamicImage`: what its `width()` and
/// `height()` return, those of the buffer that it holds.
pub uninterp spec fn dynamic_dims(image: image::DynamicImage) -> (u32, u32);

/// The samples of `image.to_rgba8()`: the image converted to 8-bit RGBA, row
/// by row, four samples per pixel. The conversion is a function of the image
/// value alone (its pixels, colour type and colour space).
pub uninterp spec fn rgba8_samples(image: image::DynamicImage) -> Seq<u8>;

/// `DynamicImage::to_rgba8`: the image converted to 8-bit RGBA. The result has
/// the image's width and height (an RGBA8 image is cloned, any other is cast
/// pixel by pixel into a buffer made at the same size), and its samples are
/// the conversion's.
#[verifier::external_body]
pub(crate) fn buffer_from_dynamic(image: &image::DynamicImage) -> (r: RgbaBuffer)
    ensures
        buffer_dims(r) == dynamic_dims(*image),
        buffer_samples(r) == rgba8_samples(*image),
{
    RgbaBuffer { inner: image.to_rgba8() }
}

/// `<ImageBuffer as DerefMut>::deref_mut` and `<[u8]>::copy_from_slice`:
/// overwrites the buffer's samples in place with as many new ones. The size,
/// and all that the buffer holds besides its samples, stay.
#[verifier::external_body]
pub(crate) fn buffer_overwrite(buffer: &mut RgbaBuffer, samples: &Vec<u8>)
    requires
        samples.len() == buffer_samples(*old(buffer)).len(),
    ensures
        buffer_dims(*final(buffer)) == buffer_dims(*old(buffer)),
        buffer_samples(*final(buffer)) == samples@,
{
    buffer.inner.copy_from_slice(samples)
}

/// What `raster::interpolate::resample` makes of a `raster::Image` of the given
/// size and bytes, asked for the new size in `InterpolationMode::Bicubic`:
/// `None` where it returns an error, else the bytes it leaves in the image.
pub uninterp spec fn bicubic_resample(
    width: i32,
    height: i32,
    bytes: Seq<u8>,
    new_width: i32,
    new_height: i32,
) -> Option<Seq<u8>>;

/// `raster::interpolate::resample` in `InterpolationMode::Bicubic` on a
/// `raster::Image` built from the arguments; raster 0.2.0 carries that mode
/// out as bilinear interpolation, first along rows, then along columns.
/// On success the image has the new size and, having been rebuilt by
/// `Image::blank(new_width, new_height)`, four bytes per pixel.
/// It fails only where `get_pixel` or `set_pixel` is asked for a pixel beyond
/// the bytes or the size: the source coordinates it reads are
/// `floor(x * (old / new))` for `x < new`, which stay below `old` (the f64
/// rounding error is far under `old / new` for sizes below 2^31), so where the
/// bytes cover the image it succeeds.
/// `requires` leaves out the inputs on which it panics: an empty source (it
/// divides by the source size) and sizes whose byte offsets overflow `i32`.
#[verifier::external_body]
pub(crate) fn raster_resample(
    width: i32,
    height: i32,
    bytes: Vec<u8>,
    new_width: i32,
    new_height: i32,
) -> (r: Option<Vec<u8>>)
    requires
        0 < width,
        0 < height,
        0 <= new_width,
        0 <= new_height,
        4 * width * height <= i32::MAX,
        4 * new_width * height <= i32::MAX,
        4 * new_width * new_height <= i32::MAX,
    ensures
        r is None <==> bicubic_resample(width, height, bytes@, new_width, new_height) is None,
        bytes.len() >= 4 * width * height ==> r is Some,
        r matches Some(v) ==> bicubic_resample(width, height, bytes@, new_width, new_height)
            == Some(v@) && v.len() == 4 * new_width * new_height,
{
    let mut img = raster::Image { width, height, bytes };
    match raster::interpolate::resample(
        &mut img,
        new_width,
        new_height,
        raster::interpolate::InterpolationMode::Bicubic,
    ) {
        Ok(()) => Some(img.bytes),
        Err(_) => None,
    }
}

/// rayon: `(0..n).into_par_iter().map(f).collect_into_vec(..)`, which runs `f`
/// on every index, possibly in parallel, and keeps the results in index order.
#[verifier::external_body]
pub(crate) fn par_rows<F: Fn(usize) -> Vec<u8> + Sync + Send>(n: usize, f: F) -> (rows: Vec<Vec<u8>>)
    requires
        forall|i: usize| i < n ==> call_requires(f, (i,)),
    ensures
        rows.len() == n,
        forall|i: int| 0 <= i < n ==> call_ensures(f, (i as usize,), #[trigger] rows[i]),
{
    let mut rows = Vec::new();
    (0..n).into_par_iter().map(f).collect_into_vec(&mut rows);
    rows
}

} // verus!
