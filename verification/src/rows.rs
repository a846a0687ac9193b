use vstd::prelude::*;
use vstd::arithmetic::div_mod::{lemma_fundamental_div_mod, lemma_fundamental_div_mod_converse};
use crate::frame::{column_of, row_of};

verus! {

/// Length of chunk `k` when `total` samples are cut into chunks of `size`:
/// `size`, but for a shorter last one.
pub open spec fn chunk_len(k: int, size: int, total: int) -> int {
    if (k + 1) * size <= total {
        size
    } else {
        total - k * size
    }
}

/// Sample `k * size + j` lies at offset `j` of chunk `k`.
pub proof fn lemma_chunk_index(i: int, size: int, k: int, j: int)
    requires
        size > 0,
        0 <= j < size,
        i == k * size + j,
    ensures
        i / size == k,
        i % size == j,
{
    lemma_fundamental_div_mod_converse(i, size, k, j);
}

/// The number of chunks of `size` that `total` samples make, the last one
/// possibly short: every chunk but the last is full, and they cover `total`.
pub proof fn lemma_chunk_count(total: int, size: int)
    requires
        size > 0,
        total >= 0,
    ensures
        ({
            let n = total / size + if total % size == 0 { 0int } else { 1int };
            &&& n >= 0
            &&& n * size >= total
            &&& n == 0 || (n - 1) * size < total
        }),
{
    lemma_fundamental_div_mod(total, size);
    let q = total / size;
    let r = total % size;
    assert(q >= 0) by (nonlinear_arith)
        requires
            total == size * q + r,
            0 <= r < size,
            total >= 0,
    ;
    if r == 0 {
        assert(q * size == total) by (nonlinear_arith)
            requires
                total == size * q + r,
                r == 0,
        ;
        assert(q == 0 || (q - 1) * size < total) by (nonlinear_arith)
            requires
                q * size == total,
                size > 0,
        ;
    } else {
        assert((q + 1) * size >= total && q * size < total) by (nonlinear_arith)
            requires
                total == size * q + r,
                0 < r < size,
        ;
    }
}

/// Where sample `i` of a raster `width` wide and `height` high lies: its pixel
/// `(column_of(width, i), row_of(width, i))` is in the raster, and `i` is
/// channel `i % 4` of it, at offset `4 * column + channel` of its row.
pub proof fn lemma_sample_position(width: nat, height: nat, i: int)
    requires
        width > 0,
        0 <= i < 4 * width * height,
    ensures
        0 <= column_of(width, i) < width,
        0 <= row_of(width, i) < height,
        i == 4 * (row_of(width, i) * width + column_of(width, i)) + i % 4,
        i / (4 * width as int) == row_of(width, i),
        i % (4 * width as int) == 4 * column_of(width, i) + i % 4,
{
    let w = width as int;
    let h = height as int;
    lemma_fundamental_div_mod(i, 4);
    let p = i / 4;
    let c = i % 4;
    lemma_fundamental_div_mod(p, w);
    let x = p % w;
    let y = p / w;
    assert(p < w * h && p >= 0) by (nonlinear_arith)
        requires
            i == 4 * p + c,
            0 <= c < 4,
            0 <= i < 4 * w * h,
    ;
    assert(0 <= y < h) by (nonlinear_arith)
        requires
            p == w * y + x,
            0 <= x < w,
            0 <= p < w * h,
    ;
    assert(i == (4 * w) * y + (4 * x + c)) by (nonlinear_arith)
        requires
            i == 4 * p + c,
            p == w * y + x,
    ;
    lemma_chunk_index(i, 4 * w, y, 4 * x + c);
}

/// Pixel `(x, y)` of a raster `width` wide lies at its expected samples.
pub proof fn lemma_pixel_position(width: nat, height: nat, x: int, y: int, c: int)
    requires
        0 <= x < width,
        0 <= y < height,
        0 <= c < 4,
    ensures
        ({
            let i = 4 * (y * width + x) + c;
            &&& 0 <= i < 4 * width * height
            &&& column_of(width, i) == x
            &&& row_of(width, i) == y
            &&& i % 4 == c
        }),
{
    let w = width as int;
    let h = height as int;
    let i = 4 * (y * w + x) + c;
    assert(0 <= y * w + x < w * h) by (nonlinear_arith)
        requires
            0 <= x < w,
            0 <= y < h,
    ;
    assert(0 <= i < 4 * w * h) by (nonlinear_arith)
        requires
            0 <= y * w + x < w * h,
            i == 4 * (y * w + x) + c,
            0 <= c < 4,
    ;
    lemma_chunk_index(i, 4, y * w + x, c);
    lemma_chunk_index(y * w + x, w, y, x);
}

/// Joins chunks into one vector: the chunks cut `total` samples into pieces of
/// `size`, and sample `i` of the result is sample `i % size` of chunk `i / size`.
pub(crate) fn concat_chunks(chunks: &Vec<Vec<u8>>, size: usize, total: usize) -> (out: Vec<u8>)
    requires
        size > 0,
        chunks.len() * size >= total,
        chunks.len() == 0 || (chunks.len() - 1) * size < total,
        forall|k: int|
            0 <= k < chunks.len() ==> #[trigger] chunks[k].len() == chunk_len(k, size as int, total as int),
    ensures
        out.len() == total,
        forall|i: int| 0 <= i < total ==> out[i] == chunks[i / size as int][i % size as int],
{
    let mut out: Vec<u8> = Vec::new();
    let n = chunks.len();
    let mut k: usize = 0;
    while k < n
        invariant
            n == chunks.len(),
            size > 0,
            n * size >= total,
            n == 0 || (n - 1) * size < total,
            forall|k: int|
                0 <= k < n ==> #[trigger] chunks[k].len() == chunk_len(k, size as int, total as int),
            0 <= k <= n,
            k * size <= total ==> out.len() == k * size,
            k * size > total ==> out.len() == total,
            forall|i: int| 0 <= i < out.len() ==> out[i] == chunks[i / size as int][i % size as int],
        decreases n - k,
    {
        assert(k * size <= total) by (nonlinear_arith)
            requires
                k < n,
                (n - 1) * size < total,
                size > 0,
        ;
        assert((k + 1) * size == k * size + size) by (nonlinear_arith);
        let chunk = &chunks[k];
        let len = chunk.len();
        assert(len == chunk_len(k as int, size as int, total as int));
        let mut j: usize = 0;
        while j < len
            invariant
                len == chunk.len(),
                chunk == chunks[k as int],
                size > 0,
                len <= size,
                k * size + len <= total,
                0 <= j <= len,
                out.len() == k * size + j,
                forall|i: int| 0 <= i < out.len() ==> out[i] == chunks[i / size as int][i % size as int],
            decreases len - j,
        {
            proof {
                lemma_chunk_index(k * size + j, size as int, k as int, j as int);
            }
            out.push(chunk[j]);
            j += 1;
        }
        k += 1;
    }
    assert(n * size <= total ==> n * size == total);
    out
}

} // verus!
