use vstd::prelude::*;
use vstd::arithmetic::div_mod::lemma_fundamental_div_mod;
use crate::clamp::clamp;
use crate::frame::{
    gradient_frame, luminance_frame, luminance_sample, map_neighbourhoods, push_color_frame,
    push_gradient_frame, Frame,
};
use crate::kernel::{
    gradient_at, gradient_pixel, push_color_at, push_color_pixel, push_gradient_at,
    push_gradient_pixel, Neighbourhood,
};
use crate::outside::{
    bicubic_resample, buffer_from_dynamic, buffer_from_raw, buffer_height, buffer_overwrite,
    dynamic_dims, rgba8_samples,
    buffer_samples_copy, buffer_width, par_rows, raster_resample, RgbaBuffer,
};
use crate::pixel::{get_brightness, Rgba};
use crate::rows::{
    chunk_len, concat_chunks, lemma_chunk_count, lemma_chunk_index, lemma_sample_position,
};

verus! {

/// An RGBA image that the edge-preserving kernels below work on in place.
pub struct ImageKernel {
    pub image: RgbaBuffer,
}

impl View for ImageKernel {
    type V = Frame;

    open spec fn view(&self) -> Frame {
        self.image@
    }
}

/// The strength that the pushes work with: the one asked for, but at most 255.
pub open spec fn effective_strength(strength: u16) -> u16 {
    if strength > 255 {
        255
    } else {
        strength
    }
}

/// The sizes for which a resampling from `src` to `width` by `height` is
/// carried out without a panic: a non-empty source, and sizes whose byte
/// counts fit in `i32`.
pub open spec fn scale_fits(src: Frame, width: u32, height: u32) -> bool {
    &&& 0 < src.width
    &&& 0 < src.height
    &&& width <= i32::MAX
    &&& height <= i32::MAX
    &&& 4 * src.width * src.height <= i32::MAX
    &&& 4 * width * src.height <= i32::MAX
    &&& 4 * width * height <= i32::MAX
}

/// The samples that resampling `src` to `width` by `height` gives (raster's
/// `Bicubic` mode, computed bilinearly), or `None` where it fails.
pub open spec fn resampled(src: Frame, width: u32, height: u32) -> Option<Seq<u8>> {
    bicubic_resample(
        src.width as i32,
        src.height as i32,
        src.samples,
        width as i32,
        height as i32,
    )
}

/// The image that resampling `src` to `width` by `height` gives.
pub open spec fn scaled_frame(src: Frame, width: u32, height: u32) -> Frame {
    Frame { width: width as nat, height: height as nat, samples: resampled(src, width, height)->0 }
}

/// The per-pixel operations that work on neighbourhoods.
#[derive(Clone, Copy)]
enum PixelOp {
    Gradient,
    PushColor(u16),
    PushGradient(u16),
}

impl PixelOp {
    spec fn valid(self) -> bool {
        match self {
            PixelOp::Gradient => true,
            PixelOp::PushColor(s) => s <= 255,
            PixelOp::PushGradient(s) => s <= 255,
        }
    }

    spec fn kernel(self) -> spec_fn(Neighbourhood) -> Rgba {
        match self {
            PixelOp::Gradient => |n: Neighbourhood| gradient_pixel(n),
            PixelOp::PushColor(s) => |n: Neighbourhood| push_color_pixel(n, s),
            PixelOp::PushGradient(s) => |n: Neighbourhood| push_gradient_pixel(n, s),
        }
    }

    fn apply(self, n: &Neighbourhood) -> (p: Rgba)
        requires
            self.valid(),
        ensures
            p == (self.kernel())(*n),
    {
        match self {
            PixelOp::Gradient => gradient_at(n),
            PixelOp::PushColor(s) => push_color_at(n, s),
            PixelOp::PushGradient(s) => push_gradient_at(n, s),
        }
    }
}

/// The neighbourhood of `(x, y)`, a neighbour beyond the border being
/// replaced by the border pixel.
fn neighbourhood_at(buf: &RgbaBuffer, width: u32, height: u32, x: u32, y: u32) -> (n:
    Neighbourhood)
    requires
        buf@.wf(),
        width == buf@.width,
        height == buf@.height,
        x < width,
        y < height,
    ensures
        n == buf@.neighbourhood(x as int, y as int),
{
    let x_l = if x == 0 { x } else { x - 1 };
    let x_r = if x == width - 1 { x } else { x + 1 };
    let y_t = if y == 0 { y } else { y - 1 };
    let y_b = if y == height - 1 { y } else { y + 1 };
    Neighbourhood {
        tl: buf.get_pixel(x_l, y_t),
        tc: buf.get_pixel(x, y_t),
        tr: buf.get_pixel(x_r, y_t),
        ml: buf.get_pixel(x_l, y),
        mc: buf.get_pixel(x, y),
        mr: buf.get_pixel(x_r, y),
        bl: buf.get_pixel(x_l, y_b),
        bc: buf.get_pixel(x, y_b),
        br: buf.get_pixel(x_r, y_b),
    }
}

/// Row `y` of the result of `op`: the samples of its pixels, left to right.
fn kernel_row(buf: &RgbaBuffer, width: u32, height: u32, y: u32, op: PixelOp) -> (row: Vec<u8>)
    requires
        buf@.wf(),
        width == buf@.width,
        height == buf@.height,
        y < height,
        4 * width <= u32::MAX,
        op.valid(),
    ensures
        row.len() == 4 * width,
        forall|i: int|
            0 <= i < 4 * width ==> #[trigger] row[i] == (op.kernel())(
                buf@.neighbourhood(i / 4, y as int),
            ).0@[i % 4],
{
    let mut row: Vec<u8> = Vec::new();
    let mut x: u32 = 0;
    while x < width
        invariant
            buf@.wf(),
            width == buf@.width,
            height == buf@.height,
            y < height,
            4 * width <= u32::MAX,
            op.valid(),
            x <= width,
            row.len() == 4 * x,
            forall|i: int|
                0 <= i < 4 * x ==> #[trigger] row[i] == (op.kernel())(
                    buf@.neighbourhood(i / 4, y as int),
                ).0@[i % 4],
        decreases width - x,
    {
        let n = neighbourhood_at(buf, width, height, x, y);
        let p = op.apply(&n);
        row.push(p.0[0]);
        row.push(p.0[1]);
        row.push(p.0[2]);
        row.push(p.0[3]);
        proof {
            assert forall|i: int| 4 * x <= i < 4 * x + 4 implies #[trigger] row[i] == (
            op.kernel())(buf@.neighbourhood(i / 4, y as int)).0@[i % 4] by {
                lemma_chunk_index(i, 4, x as int, i - 4 * x);
            }
        }
        x += 1;
    }
    row
}

/// Every pixel of `buf` replaced by `op` of its neighbourhood, the rows worked
/// on in parallel.
fn apply_kernel(buf: &RgbaBuffer, op: PixelOp) -> (out: RgbaBuffer)
    requires
        buf@.width > 0,
        4 * buf@.width <= u32::MAX,
        op.valid(),
    ensures
        out@ == map_neighbourhoods(buf@, op.kernel()),
{
    let width = buffer_width(buf);
    let height = buffer_height(buf);
    let row_bytes: usize = (width * 4) as usize;
    let rows = par_rows(
        height as usize,
        (move |y: usize| -> (row: Vec<u8>)
            requires
                y < height,
                buf@.wf(),
                width == buf@.width,
                height == buf@.height,
                4 * width <= u32::MAX,
                row_bytes == 4 * width,
                op.valid(),
            ensures
                row.len() == row_bytes,
                forall|i: int|
                    0 <= i < row_bytes ==> #[trigger] row[i] == (op.kernel())(
                        buf@.neighbourhood(i / 4, y as int),
                    ).0@[i % 4],
            { kernel_row(buf, width, height, y as u32, op) }),
    );
    assert(row_bytes * height <= usize::MAX) by (nonlinear_arith)
        requires
            row_bytes == 4 * width,
            4 * width * height <= usize::MAX,
    ;
    let total: usize = row_bytes * height as usize;
    assert forall|k: int| 0 <= k < rows.len() implies #[trigger] rows[k].len() == chunk_len(
        k,
        row_bytes as int,
        total as int,
    ) by {
        assert((k + 1) * row_bytes <= total) by (nonlinear_arith)
            requires
                0 <= k < height,
                total == row_bytes * height,
        ;
    }
    assert(rows.len() * row_bytes >= total && (rows.len() == 0 || (rows.len() - 1) * row_bytes
        < total)) by (nonlinear_arith)
        requires
            rows.len() == height,
            total == row_bytes * height,
            row_bytes > 0,
    ;
    let samples = concat_chunks(&rows, row_bytes, total);
    let ghost target = map_neighbourhoods(buf@, op.kernel());
    assert forall|i: int| 0 <= i < samples.len() implies samples@[i] == target.samples[i] by {
        lemma_sample_position(buf@.width, buf@.height, i);
        let x = crate::frame::column_of(buf@.width, i);
        let y = crate::frame::row_of(buf@.width, i);
        let j = i % (row_bytes as int);
        assert(j == 4 * x + i % 4);
        lemma_chunk_index(j, 4, x, i % 4);
        assert(rows[y][j] == (op.kernel())(buf@.neighbourhood(j / 4, y)).0@[j % 4]);
    }
    assert(samples@ =~= target.samples);
    buffer_from_raw(width, height, samples).unwrap()
}

/// The chunk `k` of the luminance pass: the samples from `k * size` on, at
/// most `size` of them, each as `luminance_sample` gives it.
fn luminance_chunk(samples: &Vec<u8>, k: usize, size: usize, n: usize) -> (chunk: Vec<u8>)
    requires
        size > 0,
        k < n,
        n * size >= samples.len(),
        (n - 1) * size < samples.len(),
    ensures
        chunk.len() == chunk_len(k as int, size as int, samples.len() as int),
        forall|j: int|
            0 <= j < chunk.len() ==> #[trigger] chunk[j] == luminance_sample(
                samples@,
                k * size + j,
            ),
{
    let total = samples.len();
    assert(k * size < total) by (nonlinear_arith)
        requires
            k < n,
            (n - 1) * size < total,
            size > 0,
    ;
    assert((k + 1) * size == k * size + size) by (nonlinear_arith);
    let start: usize = k * size;
    let end: usize = if total - start > size {
        start + size
    } else {
        total
    };
    let mut chunk: Vec<u8> = Vec::new();
    let mut i: usize = start;
    while i < end
        invariant
            start <= i <= end <= total,
            total == samples.len(),
            start == k * size,
            chunk.len() == i - start,
            forall|j: int|
                0 <= j < chunk.len() ==> #[trigger] chunk[j] == luminance_sample(
                    samples@,
                    k * size + j,
                ),
        decreases end - i,
    {
        // the alpha of a pixel becomes the brightness of its colour
        if i % 4 == 3 {
            let v = get_brightness(samples[i - 3], samples[i - 2], samples[i - 1]);
            chunk.push(v as u8);
        } else {
            chunk.push(samples[i]);
        }
        i += 1;
    }
    chunk
}

impl ImageKernel {
    /// Takes the image, converted to 8-bit RGBA (`DynamicImage::to_rgba8`);
    /// the size stays.
    pub fn from_image(image: image::DynamicImage) -> (kernel: ImageKernel)
        ensures
            kernel@.width == dynamic_dims(image).0,
            kernel@.height == dynamic_dims(image).1,
            kernel@.samples == rgba8_samples(image),
    {
        ImageKernel { image: buffer_from_dynamic(&image) }
    }

    pub fn width(&self) -> (w: u32)
        ensures
            w == self@.width,
            self@.wf(),
    {
        buffer_width(&self.image)
    }

    pub fn height(&self) -> (h: u32)
        ensures
            h == self@.height,
            self@.wf(),
    {
        buffer_height(&self.image)
    }

    /// Resamples the image to `width` by `height` with raster's `Bicubic`
    /// mode, which raster 0.2.0 carries out as bilinear interpolation.
    pub fn scale(&mut self, width: u32, height: u32)
        requires
            scale_fits(old(self)@, width, height),
        ensures
            resampled(old(self)@, width, height) is Some,
            final(self)@ == scaled_frame(old(self)@, width, height),
    {
        let src_width = buffer_width(&self.image);
        let src_height = buffer_height(&self.image);
        assert(src_width <= i32::MAX && src_height <= i32::MAX) by (nonlinear_arith)
            requires
                0 < src_width,
                0 < src_height,
                4 * src_width * src_height <= i32::MAX,
        ;
        let bytes = buffer_samples_copy(&self.image);
        let resampled = raster_resample(
            src_width as i32,
            src_height as i32,
            bytes,
            width as i32,
            height as i32,
        );
        let bytes = resampled.unwrap();
        self.image = buffer_from_raw(width, height, bytes).unwrap();
    }

    /// Sets the alpha of every pixel to the brightness of its colour.
    pub fn compute_luminance(&mut self)
        requires
            4 * old(self)@.width <= u32::MAX,
        ensures
            final(self)@ == luminance_frame(old(self)@),
    {
        let width = buffer_width(&self.image);
        let row_bytes: usize = (width * 4) as usize;
        let size: usize = if row_bytes > 4 {
            row_bytes
        } else {
            4
        };
        let samples = buffer_samples_copy(&self.image);
        let total = samples.len();
        proof {
            lemma_chunk_count(total as int, size as int);
            lemma_fundamental_div_mod(total as int, size as int);
            assert(total / size <= total) by (nonlinear_arith)
                requires
                    size > 0,
                    total == size * (total / size) + total % size,
                    total % size >= 0,
                    total / size >= 0,
            ;
            assert(total % size != 0 ==> total / size < total) by (nonlinear_arith)
                requires
                    size > 0,
                    total == size * (total / size) + total % size,
                    total % size >= 0,
                    total / size >= 0,
            ;
        }
        let n: usize = total / size + if total % size == 0 {
            0
        } else {
            1
        };
        let s = &samples;
        let chunks = par_rows(
            n,
            (move |k: usize| -> (chunk: Vec<u8>)
                requires
                    k < n,
                    size > 0,
                    n * size >= s.len(),
                    n == 0 || (n - 1) * size < s.len(),
                ensures
                    chunk.len() == chunk_len(k as int, size as int, s.len() as int),
                    forall|j: int|
                        0 <= j < chunk.len() ==> #[trigger] chunk[j] == luminance_sample(
                            s@,
                            k * size + j,
                        ),
                { luminance_chunk(s, k, size, n) }),
        );
        let out = concat_chunks(&chunks, size, total);
        let ghost target = luminance_frame(self.image@);
        assert forall|i: int| 0 <= i < out.len() implies out@[i] == target.samples[i] by {
            lemma_fundamental_div_mod(i, size as int);
            let k = i / size as int;
            let j = i % size as int;
            assert(k * size + j == i) by (nonlinear_arith)
                requires
                    i == size * k + j,
            ;
            assert((k + 1) * size == k * size + size) by (nonlinear_arith);
            assert(0 <= k < n) by (nonlinear_arith)
                requires
                    i == size * k + j,
                    0 <= j < size,
                    0 <= i < total,
                    total <= n * size,
            ;
            assert(chunks[k].len() == chunk_len(k, size as int, total as int));
            assert(j < chunks[k].len());
            assert(chunks[k][j] == luminance_sample(samples@, k * size + j));
        }
        assert(out@ =~= target.samples);
        buffer_overwrite(&mut self.image, &out);
    }

    /// Sets the alpha of every pixel to 255 minus the length of the Sobel
    /// gradient of the alpha channel there, or to 0 where that length exceeds
    /// 255; the colour stays. The image keeps exactly its pixels.
    pub fn compute_gradient(&mut self)
        requires
            old(self)@.width > 0,
            4 * old(self)@.width <= u32::MAX,
        ensures
            final(self)@ == gradient_frame(old(self)@),
    {
        self.image = apply_kernel(&self.image, PixelOp::Gradient);
        assert(PixelOp::Gradient.kernel() =~= (|n: Neighbourhood| gradient_pixel(n)));
    }

    /// Pulls every pixel towards the lighter side of the first edge patterns
    /// around it that match, keeping only blends that make it more opaque;
    /// `strength` (at most 255 counts) is the weight of the lighter side.
    pub fn push_color(&mut self, strength: u16)
        requires
            old(self)@.width > 0,
            4 * old(self)@.width <= u32::MAX,
        ensures
            final(self)@ == push_color_frame(old(self)@, effective_strength(strength)),
    {
        let strength = clamp(strength, 0, 0xFF);
        self.image = apply_kernel(&self.image, PixelOp::PushColor(strength));
        assert(PixelOp::PushColor(strength).kernel() =~= (|n: Neighbourhood|
            push_color_pixel(n, strength)));
    }

    /// Pulls every pixel towards the lighter side of the edge patterns around
    /// it that match, each match replacing the colour, and makes every pixel
    /// opaque; `strength` (at most 255 counts) is the weight of the lighter side.
    pub fn push_gradient(&mut self, strength: u16)
        requires
            old(self)@.width > 0,
            4 * old(self)@.width <= u32::MAX,
        ensures
            final(self)@ == push_gradient_frame(old(self)@, effective_strength(strength)),
    {
        let strength = clamp(strength, 0, 0xFF);
        self.image = apply_kernel(&self.image, PixelOp::PushGradient(strength));
        assert(PixelOp::PushGradient(strength).kernel() =~= (|n: Neighbourhood|
            push_gradient_pixel(n, strength)));
    }
}

} // verus!
