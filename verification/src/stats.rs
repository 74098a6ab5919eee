//! Counting the colours of each frame.

use crate::color::pixel_count;
use std::collections::HashSet;
use vstd::prelude::*;
use vstd::slice::slice_subrange;

verus! {

broadcast use vstd::std_specs::hash::group_hash_axioms;

/// The four bytes of pixel `i` as one number, red in the highest byte.
pub open spec fn packed_color(frame: Seq<u8>, i: int) -> u32 {
    (frame[4 * i] * 0x100_0000 + frame[4 * i + 1] * 0x1_0000 + frame[4 * i + 2] * 0x100 + frame[4
        * i + 3]) as u32
}

/// The colours, alpha included, of the first `n` pixels.
pub open spec fn colors_upto(frame: Seq<u8>, n: nat) -> Set<u32>
    decreases n,
{
    if n == 0 {
        Set::empty()
    } else {
        colors_upto(frame, (n - 1) as nat).insert(packed_color(frame, n - 1))
    }
}

/// The colours, alpha included, that occur in a frame.
pub open spec fn distinct_colors(frame: Seq<u8>) -> Set<u32> {
    colors_upto(frame, pixel_count(frame))
}

/// The colours of the first `n` pixels are exactly the colours that occur
/// among them, and there are at most `n`.
pub proof fn lemma_colors_upto(frame: Seq<u8>, n: nat)
    ensures
        colors_upto(frame, n).finite(),
        colors_upto(frame, n).len() <= n,
        n > 0 ==> colors_upto(frame, n).len() >= 1,
        forall|c: u32|
            colors_upto(frame, n).contains(c) <==> exists|i: int|
                0 <= i < n && packed_color(frame, i) == c,
    decreases n,
{
    if n > 0 {
        lemma_colors_upto(frame, (n - 1) as nat);
        let before = colors_upto(frame, (n - 1) as nat);
        let last = packed_color(frame, n - 1);
        assert forall|c: u32| colors_upto(frame, n).contains(c) implies exists|i: int|
            0 <= i < n && packed_color(frame, i) == c by {
            if c == last {
                assert(packed_color(frame, n - 1) == c);
            } else {
                assert(before.contains(c));
                let i = choose|i: int| 0 <= i < n - 1 && packed_color(frame, i) == c;
                assert(0 <= i < n && packed_color(frame, i) == c);
            }
        }
    }
}

/// Number of chunks of `size` bytes that `len` bytes fall into, a shorter
/// last one counted.
pub open spec fn chunk_count(len: int, size: int) -> nat {
    ((len + size - 1) / size) as nat
}

/// Chunk `i` of the pixel data: `size` bytes, or what is left of the data.
pub open spec fn chunk(frames: Seq<u8>, size: int, i: int) -> Seq<u8> {
    frames.subrange(
        i * size,
        if (i + 1) * size <= frames.len() {
            (i + 1) * size
        } else {
            frames.len() as int
        },
    )
}

/// Counts the distinct colours, alpha included, in each chunk of
/// `width * height` pixels of `frames`. A shorter last chunk is counted over
/// its complete pixels, so data that is a whole number of frames gives one
/// count per frame, each between 1 and the number of pixels of a frame. With
/// a dimension that is not positive there are no frames to count in, and the
/// result is empty.
pub fn count_colors_per_frame(width: i32, height: i32, frames: &[u8]) -> (color_count: Vec<usize>)
    ensures
        !(0 < width && 0 < height) ==> color_count@.len() == 0,
        0 < width && 0 < height ==> {
            &&& color_count@.len() == chunk_count(frames@.len() as int, width * height * 4)
            &&& forall|i: int|
                0 <= i < color_count@.len() ==> color_count@[i] == distinct_colors(
                    chunk(frames@, width * height * 4, i),
                ).len()
            &&& forall|i: int|
                0 <= i < color_count@.len() ==> color_count@[i] <= pixel_count(
                    chunk(frames@, width * height * 4, i),
                )
        },
        0 < width && 0 < height && frames@.len() as int % (width * height * 4) == 0 ==> {
            &&& color_count@.len() == frames@.len() as int / (width * height * 4)
            &&& forall|i: int|
                0 <= i < color_count@.len() ==> 1 <= #[trigger] color_count@[i] <= width * height
        },
{
    let mut color_count: Vec<usize> = Vec::new();
    if width <= 0 || height <= 0 {
        return color_count;
    }
    assert(1 <= width * height <= 0x7FFF_FFFF * 0x7FFF_FFFF) by (nonlinear_arith)
        requires
            0 < width <= 0x7FFF_FFFF,
            0 < height <= 0x7FFF_FFFF,
    ;
    let size: u64 = width as u64 * height as u64 * 4;
    let len: usize = frames.len();
    let mut start: usize = 0;
    proof {
        assert(0 == 0 * size) by (nonlinear_arith);
        assert(len > 0 ==> (len + size - 1) / (size as int) > 0) by (nonlinear_arith)
            requires
                size >= 4,
        ;
    }
    while start < len
        invariant
            start <= len,
            len == frames@.len(),
            size == width * height * 4,
            size >= 4,
            start as int == color_count@.len() * size || (start == len && color_count@.len()
                == chunk_count(len as int, size as int)),
            start < len ==> color_count@.len() < chunk_count(len as int, size as int),
            forall|i: int|
                0 <= i < color_count@.len() ==> color_count@[i] == distinct_colors(
                    chunk(frames@, size as int, i),
                ).len(),
            forall|i: int|
                0 <= i < color_count@.len() ==> color_count@[i] <= pixel_count(
                    chunk(frames@, size as int, i),
                ),
            forall|i: int|
                0 <= i < color_count@.len() && pixel_count(chunk(frames@, size as int, i)) > 0
                    ==> #[trigger] color_count@[i] >= 1,
        decreases len - start,
    {
        let ghost index = color_count@.len() as int;
        let end: usize = if (len - start) as u64 > size {
            start + size as usize
        } else {
            len
        };
        proof {
            assert((index + 1) * size == index * size + size) by (nonlinear_arith);
            if end < len {
                assert(index + 1 < chunk_count(len as int, size as int)) by (nonlinear_arith)
                    requires
                        (index + 1) * size < len,
                        size > 0,
                ;
            } else {
                assert(index + 1 == chunk_count(len as int, size as int)) by (nonlinear_arith)
                    requires
                        index * size < len <= (index + 1) * size,
                        size > 0,
                ;
            }
        }
        let frame = slice_subrange(frames, start, end);
        assert(frame@ == chunk(frames@, size as int, index));
        let count = count_colors(frame);
        color_count.push(count);
        start = end;
    }
    proof {
        let chunks = color_count@.len() as int;
        if len as int == chunks * size {
            assert((chunks * size + size - 1) / (size as int) == chunks) by (nonlinear_arith)
                requires
                    size >= 4,
                    chunks >= 0,
            ;
        }
        if len as int % (size as int) == 0 {
            lemma_whole_frames(width as int, height as int, frames@);
        }
    }
    color_count
}

/// Pixel data that is a whole number of frames falls into one chunk per
/// frame, each holding `width * height` pixels.
pub proof fn lemma_whole_frames(width: int, height: int, frames: Seq<u8>)
    requires
        0 < width,
        0 < height,
        frames.len() as int % (width * height * 4) == 0,
    ensures
        chunk_count(frames.len() as int, width * height * 4) == frames.len() as int / (width
            * height * 4),
        forall|i: int|
            0 <= i < chunk_count(frames.len() as int, width * height * 4) ==> pixel_count(
                #[trigger] chunk(frames, width * height * 4, i),
            ) == width * height,
{
    let size = width * height * 4;
    let len = frames.len() as int;
    let area = width * height;
    assert(area >= 1 && size == 4 * area) by (nonlinear_arith)
        requires
            width >= 1,
            height >= 1,
            area == width * height,
            size == width * height * 4,
    ;
    let whole = len / size;
    assert(len == whole * size && whole >= 0 && (len + size - 1) / size == whole)
        by (nonlinear_arith)
        requires
            len % size == 0,
            whole == len / size,
            size >= 4,
            len >= 0,
    ;
    assert forall|i: int| 0 <= i < whole implies pixel_count(#[trigger] chunk(frames, size, i))
        == area by {
        assert(0 <= i * size && (i + 1) * size <= len && (i + 1) * size - i * size == size)
            by (nonlinear_arith)
            requires
                0 <= i < whole,
                len == whole * size,
                size >= 4,
        ;
        assert(chunk(frames, size, i).len() == size);
    }
}

/// Counts the distinct colours, alpha included, among the complete pixels of
/// `frame`.
pub fn count_colors(frame: &[u8]) -> (count: usize)
    ensures
        count == distinct_colors(frame@).len(),
        count <= pixel_count(frame@),
        pixel_count(frame@) > 0 ==> count >= 1,
{
    let len: usize = frame.len();
    let n: usize = len / 4;
    let mut unique_colors: HashSet<u32> = HashSet::new();
    let mut i: usize = 0;
    while i < n
        invariant
            i <= n,
            len == frame@.len(),
            n == pixel_count(frame@),
            unique_colors@ == colors_upto(frame@, i as nat),
        decreases n - i,
    {
        let color: u32 = frame[4 * i] as u32 * 0x100_0000 + frame[4 * i + 1] as u32 * 0x1_0000
            + frame[4 * i + 2] as u32 * 0x100 + frame[4 * i + 3] as u32;
        unique_colors.insert(color);
        i += 1;
    }
    proof {
        lemma_colors_upto(frame@, n as nat);
    }
    unique_colors.len()
}

} // verus!
