//! Mapping pixels to palette slots.
//!
//! A transparent pixel takes the reserved slot 0. Every other pixel takes the
//! ordinary slot whose colour is nearest to its own by squared Euclidean
//! distance over red, green and blue; of several slots at the same distance
//! the lowest wins. A pixel whose colour is in the palette is therefore
//! mapped to exactly that colour.

use crate::color::{
    is_transparent, lemma_distance_zero_iff_equal, pixel_count, pixel_is_transparent, pixel_rgb,
    rgb_triples, collect_rgb_triples, Rgb,
};
use crate::palette::{Palette, PaletteModel};
use vstd::prelude::*;

verus! {

/// Slot `j` holds the colour nearest to `target`, and no slot before it is
/// as near.
pub open spec fn is_nearest(colors: Seq<Rgb>, target: Rgb, j: int) -> bool {
    &&& 0 <= j < colors.len()
    &&& forall|k: int|
        0 <= k < colors.len() ==> target.distance(colors[j]) <= target.distance(
            #[trigger] colors[k],
        )
    &&& forall|k: int|
        0 <= k < j ==> target.distance(colors[j]) < target.distance(#[trigger] colors[k])
}

/// The lowest index among the colours nearest to `target`; 0 when there are
/// no colours.
pub open spec fn nearest_index(colors: Seq<Rgb>, target: Rgb) -> int {
    if colors.len() == 0 {
        0
    } else {
        choose|j: int| is_nearest(colors, target, j)
    }
}

/// The slot that an opaque pixel of colour `target` takes in `palette`: the
/// nearest ordinary slot, or slot 0 when the palette has no ordinary slot.
pub open spec fn slot_of(palette: PaletteModel, target: Rgb) -> int {
    if palette.ordinary().len() == 0 {
        0
    } else {
        palette.first_ordinary() + nearest_index(palette.ordinary(), target)
    }
}

/// The slot that pixel `i` of `frame` takes.
pub open spec fn pixel_slot(
    frame: Seq<u8>,
    i: int,
    palette: PaletteModel,
    transparent: Option<[u8; 4]>,
) -> int {
    if is_transparent(frame, i, transparent) {
        0
    } else {
        slot_of(palette, pixel_rgb(frame, i))
    }
}

/// The index buffer of `frame`: one slot per pixel, in pixel order.
pub open spec fn indexed(frame: Seq<u8>, palette: PaletteModel, transparent: Option<[u8; 4]>) -> Seq<
    u8,
> {
    Seq::new(pixel_count(frame), |i: int| pixel_slot(frame, i, palette, transparent) as u8)
}

/// At most one slot is the nearest.
pub proof fn lemma_nearest_unique(colors: Seq<Rgb>, target: Rgb, i: int, j: int)
    requires
        is_nearest(colors, target, i),
        is_nearest(colors, target, j),
    ensures
        i == j,
{
    if i < j {
        assert(target.distance(colors[j]) < target.distance(colors[i]));
    } else if j < i {
        assert(target.distance(colors[i]) < target.distance(colors[j]));
    }
}

/// Among any colours, one slot is the nearest.
pub proof fn lemma_nearest_exists(colors: Seq<Rgb>, target: Rgb)
    requires
        colors.len() > 0,
    ensures
        is_nearest(colors, target, nearest_index(colors, target)),
    decreases colors.len(),
{
    if colors.len() == 1 {
        assert(is_nearest(colors, target, 0));
    } else {
        let init = colors.drop_last();
        lemma_nearest_exists(init, target);
        let best = nearest_index(init, target);
        let last = colors.len() - 1;
        assert(init[best] == colors[best]);
        if target.distance(colors[last]) < target.distance(colors[best]) {
            assert forall|k: int| 0 <= k < colors.len() implies target.distance(colors[last])
                <= target.distance(#[trigger] colors[k]) by {
                if k < last {
                    assert(init[k] == colors[k]);
                }
            }
            assert forall|k: int| 0 <= k < last implies target.distance(colors[last])
                < target.distance(#[trigger] colors[k]) by {
                assert(init[k] == colors[k]);
            }
            assert(is_nearest(colors, target, last));
        } else {
            assert forall|k: int| 0 <= k < colors.len() implies target.distance(colors[best])
                <= target.distance(#[trigger] colors[k]) by {
                if k < last {
                    assert(init[k] == colors[k]);
                }
            }
            assert forall|k: int| 0 <= k < best implies target.distance(colors[best])
                < target.distance(#[trigger] colors[k]) by {
                assert(init[k] == colors[k]);
            }
            assert(is_nearest(colors, target, best));
        }
    }
}

/// Of two slots at the same distance from the target, the higher one is never
/// chosen.
pub proof fn lemma_tie_goes_to_lower_index(colors: Seq<Rgb>, target: Rgb, low: int, high: int)
    requires
        0 <= low < high < colors.len(),
        target.distance(colors[low]) == target.distance(colors[high]),
    ensures
        nearest_index(colors, target) != high,
{
    lemma_nearest_exists(colors, target);
    if nearest_index(colors, target) == high {
        assert(target.distance(colors[high]) < target.distance(colors[low]));
    }
}

/// A colour that is among the candidates is matched to itself.
pub proof fn lemma_exact_color_is_kept(colors: Seq<Rgb>, target: Rgb)
    requires
        colors.contains(target),
    ensures
        0 <= nearest_index(colors, target) < colors.len(),
        colors[nearest_index(colors, target)] == target,
{
    let k = choose|k: int| 0 <= k < colors.len() && colors[k] == target;
    lemma_nearest_exists(colors, target);
    let j = nearest_index(colors, target);
    lemma_distance_zero_iff_equal(target, colors[k]);
    lemma_distance_zero_iff_equal(target, colors[j]);
    assert(target.distance(colors[j]) <= target.distance(colors[k]));
}

/// The slot of an opaque pixel lies within the palette whenever the palette
/// has an ordinary slot.
pub proof fn lemma_slot_in_palette(palette: PaletteModel, target: Rgb)
    requires
        palette.wf(),
        palette.entries.len() > 0,
    ensures
        0 <= slot_of(palette, target) < palette.entries.len(),
        palette.ordinary().len() > 0 ==> slot_of(palette, target) >= palette.first_ordinary(),
{
    if palette.ordinary().len() > 0 {
        lemma_nearest_exists(palette.ordinary(), target);
    }
}

/// Finds the colour nearest to `target` among `colors[first..]`, the lowest
/// index winning a tie. Returns 0 when there is no colour to choose from.
pub fn nearest_among(colors: &[Rgb], first: usize, target: Rgb) -> (slot: usize)
    ensures
        first >= colors@.len() ==> slot == 0,
        first < colors@.len() ==> first <= slot < colors@.len() && slot == first + nearest_index(
            colors@.skip(first as int),
            target,
        ),
{
    let n: usize = colors.len();
    if first >= n {
        return 0;
    }
    let mut best: usize = first;
    let mut best_distance: u32 = target.distance_to(&colors[first]);
    let mut i: usize = first + 1;
    while i < n
        invariant
            first <= best < i <= n,
            n == colors@.len(),
            best_distance == target.distance(colors@[best as int]),
            forall|k: int| first <= k < i ==> best_distance <= target.distance(colors@[k]),
            forall|k: int| first <= k < best ==> best_distance < target.distance(colors@[k]),
        decreases n - i,
    {
        let distance: u32 = target.distance_to(&colors[i]);
        if distance < best_distance {
            best_distance = distance;
            best = i;
        }
        i += 1;
    }
    proof {
        let candidates = colors@.skip(first as int);
        assert forall|k: int| 0 <= k < candidates.len() implies target.distance(
            candidates[best - first],
        ) <= target.distance(#[trigger] candidates[k]) by {
            assert(candidates[k] == colors@[first + k]);
        }
        assert forall|k: int| 0 <= k < best - first implies target.distance(
            candidates[best - first],
        ) < target.distance(#[trigger] candidates[k]) by {
            assert(candidates[k] == colors@[first + k]);
        }
        assert(is_nearest(candidates, target, best - first));
        lemma_nearest_exists(candidates, target);
        lemma_nearest_unique(candidates, target, best - first, nearest_index(candidates, target));
    }
    best
}

/// A colour that occupies an ordinary slot of the palette is mapped to a
/// slot that holds it.
pub proof fn lemma_palette_color_keeps_its_slot(palette: PaletteModel, target: Rgb)
    requires
        palette.wf(),
        palette.ordinary().contains(target),
    ensures
        palette.first_ordinary() <= slot_of(palette, target) < palette.entries.len(),
        palette.entries[slot_of(palette, target)] == target,
{
    lemma_exact_color_is_kept(palette.ordinary(), target);
}

/// Maps an opaque colour to its slot in `palette`: the slot that holds the
/// colour if there is one, else the nearest ordinary slot.
pub fn nearest_slot(palette: &Palette, target: Rgb) -> (slot: u8)
    ensures
        slot == slot_of(palette@, target),
        palette@.entries.len() > 0 ==> slot < palette@.entries.len(),
        palette@.ordinary().contains(target) ==> palette@.entries[slot as int] == target,
{
    let entries = palette.entries();
    let first: usize = if palette.reserves_transparent() {
        1
    } else {
        0
    };
    let slot = nearest_among(entries.as_slice(), first, target);
    proof {
        if palette@.entries.len() > 0 {
            lemma_slot_in_palette(palette@, target);
        }
        if palette@.ordinary().contains(target) {
            lemma_palette_color_keeps_its_slot(palette@, target);
        }
    }
    slot as u8
}

/// Maps every pixel of `frame` to a slot of `palette`.
///
/// A pixel that equals `transparent` in all four bytes takes slot 0. Any other
/// pixel takes the ordinary slot whose colour is nearest to its own, the
/// lowest slot winning a tie; when the palette has no ordinary slot, it takes
/// slot 0. The index buffer has one entry per complete pixel, in the order of
/// the pixels, so an empty frame gives an empty buffer.
pub fn index_frame(frame: &[u8], palette: &Palette, transparent: Option<[u8; 4]>) -> (indices: Vec<u8>)
    ensures
        indices@ == indexed(frame@, palette@, transparent),
        palette@.entries.len() > 0 ==> forall|i: int|
            0 <= i < indices@.len() ==> indices@[i] < palette@.entries.len(),
{
    let len: usize = frame.len();
    let n: usize = len / 4;
    let mut indices: Vec<u8> = Vec::new();
    let mut i: usize = 0;
    while i < n
        invariant
            i <= n,
            len == frame@.len(),
            n == pixel_count(frame@),
            indices@ =~= indexed(frame@, palette@, transparent).take(i as int),
            palette@.entries.len() > 0 ==> forall|k: int|
                0 <= k < indices@.len() ==> indices@[k] < palette@.entries.len(),
        decreases n - i,
    {
        if pixel_is_transparent(frame, i, &transparent) {
            indices.push(0);
        } else {
            let color = Rgb { r: frame[4 * i], g: frame[4 * i + 1], b: frame[4 * i + 2] };
            let slot = nearest_slot(palette, color);
            indices.push(slot);
        }
        i += 1;
    }
    indices
}

/// The index buffer of flat colour bytes against a flat palette: for each
/// complete colour of `rgb_pixels`, the lowest index among the palette colours
/// nearest to it, or 0 for an empty palette.
pub open spec fn mapped_to_palette(rgb_pixels: Seq<u8>, palette: Seq<u8>) -> Seq<u8> {
    Seq::new(
        rgb_triples(rgb_pixels).len(),
        |i: int| nearest_index(rgb_triples(palette), rgb_triples(rgb_pixels)[i]) as u8,
    )
}

/// Maps each colour of `rgb_pixels`, three bytes per pixel, to the index of
/// the nearest colour of `palette`, three bytes per colour. Ties go to the
/// lowest index. The palette holds at most 256 colours.
pub fn map_pixels_to_palette(rgb_pixels: &[u8], palette: &[u8]) -> (indexed_pixels: Vec<u8>)
    requires
        palette@.len() / 3 <= 256,
    ensures
        indexed_pixels@ == mapped_to_palette(rgb_pixels@, palette@),
        forall|i: int|
            0 <= i < indexed_pixels@.len() && palette@.len() >= 3 ==> indexed_pixels@[i]
                < palette@.len() / 3,
{
    let colors = collect_rgb_triples(palette);
    let len: usize = rgb_pixels.len();
    let n: usize = len / 3;
    let mut indexed_pixels: Vec<u8> = Vec::new();
    let mut i: usize = 0;
    while i < n
        invariant
            i <= n,
            len == rgb_pixels@.len(),
            n == rgb_pixels@.len() / 3,
            colors@ == rgb_triples(palette@),
            colors@.len() <= 256,
            indexed_pixels@ =~= mapped_to_palette(rgb_pixels@, palette@).take(i as int),
            forall|k: int|
                0 <= k < indexed_pixels@.len() && colors@.len() > 0 ==> indexed_pixels@[k]
                    < colors@.len(),
        decreases n - i,
    {
        let color = Rgb { r: rgb_pixels[3 * i], g: rgb_pixels[3 * i + 1], b: rgb_pixels[3 * i + 2] };
        let closest = nearest_among(colors.as_slice(), 0, color);
        proof {
            assert(colors@.skip(0) =~= colors@);
        }
        indexed_pixels.push(closest as u8);
        i += 1;
    }
    indexed_pixels
}

} // verus!
