//! Palettes: at most 256 colours, slot 0 reserved for transparency on request.
//!
//! A palette is filled in insertion order: each colour takes the next free
//! slot the first time it is seen. When a frame holds more distinct opaque
//! colours than there are slots, the colours are first reduced by NeuQuant to
//! as many representatives as there are slots, and the palette is filled from
//! those. The frame's pixels are then mapped to their nearest slot. This is
//! the one way in which an overflowing frame is degraded, whichever frame it
//! is.

use crate::color::{opaque_rgba_bytes, rgb_triples, collect_rgb_triples, Rgb};
use crate::quantize::{neuquant_color_map, neuquant_color_map_rgb};
use vstd::prelude::*;

verus! {

/// How many of its pixels NeuQuant skips over while it trains: its usual
/// compromise between speed and quality.
pub const SAMPLE_FACTOR: i32 = 10;

/// The mathematical content of a palette.
pub struct PaletteModel {
    /// Slot 0 stands for transparency and takes no part in colour matching.
    pub reserved: bool,
    /// The colour of each slot, slot 0 first.
    pub entries: Seq<Rgb>,
}

impl PaletteModel {
    /// The first slot that colours are matched against.
    pub open spec fn first_ordinary(self) -> int {
        if self.reserved {
            1
        } else {
            0
        }
    }

    /// The colours that pixels are matched against: all slots but a reserved one.
    pub open spec fn ordinary(self) -> Seq<Rgb> {
        self.entries.skip(self.first_ordinary())
    }

    /// At most 256 slots, a reserved slot is present if claimed, and no colour
    /// occupies two ordinary slots.
    pub open spec fn wf(self) -> bool {
        &&& self.entries.len() <= 256
        &&& self.reserved ==> self.entries.len() >= 1
        &&& forall|i: int, j: int|
            self.first_ordinary() <= i < j < self.entries.len() ==> self.entries[i]
                != self.entries[j]
    }

    /// The slot that a frame declares transparent.
    pub open spec fn transparent_index(self) -> Option<u8> {
        if self.reserved {
            Some(0u8)
        } else {
            None
        }
    }
}

/// The distinct colours of `colors`, each at the place of its first occurrence.
pub open spec fn first_seen(colors: Seq<Rgb>) -> Seq<Rgb>
    decreases colors.len(),
{
    if colors.len() == 0 {
        Seq::empty()
    } else {
        let before = first_seen(colors.drop_last());
        if before.contains(colors.last()) {
            before
        } else {
            before.push(colors.last())
        }
    }
}

/// Number of slots open to opaque colours.
pub open spec fn opaque_capacity(reserved: bool) -> nat {
    if reserved {
        255
    } else {
        256
    }
}

/// The slots that come before the ordinary ones.
pub open spec fn reserved_entries(transparent: Option<Rgb>) -> Seq<Rgb> {
    match transparent {
        Some(color) => seq![color],
        None => Seq::empty(),
    }
}

/// More distinct colours than there are slots for them.
pub open spec fn overflows(colors: Seq<Rgb>, transparent: Option<Rgb>) -> bool {
    first_seen(colors).len() > opaque_capacity(transparent is Some)
}

/// The palette that insertion order gives: the reserved slot, if any, then
/// every distinct colour in the order of its first occurrence.
pub open spec fn direct_palette(colors: Seq<Rgb>, transparent: Option<Rgb>) -> PaletteModel {
    PaletteModel {
        reserved: transparent is Some,
        entries: reserved_entries(transparent) + first_seen(colors),
    }
}

/// The representatives that NeuQuant picks for `colors`, one per open slot.
pub open spec fn representatives(colors: Seq<Rgb>, transparent: Option<Rgb>) -> Seq<Rgb> {
    rgb_triples(
        neuquant_color_map(
            SAMPLE_FACTOR,
            opaque_capacity(transparent is Some) as usize,
            opaque_rgba_bytes(colors),
        ),
    )
}

/// The palette of a frame whose opaque pixels have the colours `colors`.
pub open spec fn built_palette(colors: Seq<Rgb>, transparent: Option<Rgb>) -> PaletteModel {
    if overflows(colors, transparent) {
        direct_palette(representatives(colors, transparent), transparent)
    } else {
        direct_palette(colors, transparent)
    }
}

/// No colour occurs twice among the first-seen colours.
pub proof fn lemma_first_seen_distinct(colors: Seq<Rgb>)
    ensures
        forall|i: int, j: int|
            0 <= i < j < first_seen(colors).len() ==> first_seen(colors)[i] != first_seen(
                colors,
            )[j],
    decreases colors.len(),
{
    if colors.len() > 0 {
        let before = first_seen(colors.drop_last());
        lemma_first_seen_distinct(colors.drop_last());
        if !before.contains(colors.last()) {
            assert forall|i: int| 0 <= i < before.len() implies before[i] != colors.last() by {
                if before[i] == colors.last() {
                    assert(before.contains(colors.last()));
                }
            }
        }
    }
}

/// The first-seen colours are exactly the colours that occur.
pub proof fn lemma_first_seen_same_colors(colors: Seq<Rgb>, color: Rgb)
    ensures
        first_seen(colors).contains(color) <==> colors.contains(color),
    decreases colors.len(),
{
    if colors.len() > 0 {
        let init = colors.drop_last();
        lemma_first_seen_same_colors(init, color);
        let before = first_seen(init);
        if colors.contains(color) {
            let k = choose|k: int| 0 <= k < colors.len() && colors[k] == color;
            if k < init.len() {
                assert(init[k] == color);
                assert(init.contains(color));
            }
        }
        if before.contains(color) || colors.last() == color {
            if before.contains(colors.last()) {
            } else {
                let grown = before.push(colors.last());
                if before.contains(color) {
                    let k = choose|k: int| 0 <= k < before.len() && before[k] == color;
                    assert(grown[k] == color);
                } else {
                    assert(grown[before.len() as int] == color);
                }
            }
        }
        if init.contains(color) {
            let k = choose|k: int| 0 <= k < init.len() && init[k] == color;
            assert(colors[k] == color);
        }
        if colors.last() == color {
            assert(colors[colors.len() - 1] == color);
        }
    }
}

/// There are no more distinct colours than colours.
pub proof fn lemma_first_seen_len(colors: Seq<Rgb>)
    ensures
        first_seen(colors).len() <= colors.len(),
        colors.len() > 0 ==> first_seen(colors).len() > 0,
    decreases colors.len(),
{
    if colors.len() > 0 {
        lemma_first_seen_len(colors.drop_last());
    }
}

/// A prefix of the colours has no more distinct colours than the whole.
pub proof fn lemma_first_seen_prefix(colors: Seq<Rgb>, n: int)
    requires
        0 <= n <= colors.len(),
    ensures
        first_seen(colors.take(n)).len() <= first_seen(colors).len(),
    decreases colors.len(),
{
    if n == colors.len() {
        assert(colors.take(n) =~= colors);
    } else {
        lemma_first_seen_prefix(colors.drop_last(), n);
        assert(colors.drop_last().take(n) =~= colors.take(n));
    }
}

/// Colours that fit give a well-formed palette: no colour occupies two
/// ordinary slots.
pub proof fn lemma_direct_palette_wf(colors: Seq<Rgb>, transparent: Option<Rgb>)
    requires
        !overflows(colors, transparent),
    ensures
        direct_palette(colors, transparent).wf(),
        direct_palette(colors, transparent).ordinary() == first_seen(colors),
{
    let palette = direct_palette(colors, transparent);
    lemma_first_seen_distinct(colors);
    assert(palette.ordinary() =~= first_seen(colors));
    assert forall|i: int, j: int|
        palette.first_ordinary() <= i < j < palette.entries.len() implies palette.entries[i]
        != palette.entries[j] by {
        assert(palette.entries[i] == first_seen(colors)[i - palette.first_ordinary()]);
        assert(palette.entries[j] == first_seen(colors)[j - palette.first_ordinary()]);
    }
}

/// A palette of at most 256 colours.
pub struct Palette {
    entries: Vec<Rgb>,
    reserved: bool,
}

impl View for Palette {
    type V = PaletteModel;

    closed spec fn view(&self) -> PaletteModel {
        PaletteModel { reserved: self.reserved, entries: self.entries@ }
    }
}

/// A palette together with the signal that its frame held more colours than
/// the palette has slots.
pub struct PaletteBuild {
    pub palette: Palette,
    pub overflowed: bool,
}

impl Palette {
    #[verifier::type_invariant]
    spec fn inv(self) -> bool {
        self@.wf()
    }

    /// Fills a palette in insertion order, after reserving slot 0 for
    /// `transparent` if it is given. Fails when the colours do not fit.
    pub fn direct(colors: &[Rgb], transparent: Option<Rgb>) -> (res: Option<Palette>)
        ensures
            res is None <==> overflows(colors@, transparent),
            res matches Some(palette) ==> palette@ == direct_palette(colors@, transparent)
                && palette@.wf(),
    {
        let capacity: usize = if transparent.is_some() {
            255
        } else {
            256
        };
        let mut entries: Vec<Rgb> = Vec::new();
        match transparent {
            Some(color) => {
                entries.push(color);
            },
            None => {},
        }
        let first: usize = entries.len();
        let n: usize = colors.len();
        let mut i: usize = 0;
        assert(colors@.take(0) =~= Seq::<Rgb>::empty());
        while i < n
            invariant
                i <= n,
                n == colors@.len(),
                capacity == opaque_capacity(transparent is Some),
                first == reserved_entries(transparent).len(),
                first + capacity == 256,
                entries@ =~= reserved_entries(transparent) + first_seen(colors@.take(i as int)),
                first_seen(colors@.take(i as int)).len() <= capacity,
            decreases n - i,
        {
            let color = colors[i];
            proof {
                assert(colors@.take(i + 1).drop_last() =~= colors@.take(i as int));
                assert(colors@.take(i + 1).last() == color);
                assert(entries@.skip(first as int) =~= first_seen(colors@.take(i as int)));
            }
            if !holds_color(&entries, first, color) {
                if entries.len() - first == capacity {
                    proof {
                        lemma_first_seen_prefix(colors@, i + 1);
                    }
                    return None;
                }
                entries.push(color);
            }
            i += 1;
        }
        proof {
            assert(colors@.take(n as int) =~= colors@);
            lemma_direct_palette_wf(colors@, transparent);
        }
        Some(Palette { entries, reserved: transparent.is_some() })
    }

    /// Number of slots, a reserved one included.
    pub fn len(&self) -> (n: usize)
        ensures
            n == self@.entries.len(),
            n <= 256,
    {
        proof {
            use_type_invariant(self);
        }
        self.entries.len()
    }

    /// Whether slot 0 is reserved for transparency.
    pub fn reserves_transparent(&self) -> (reserved: bool)
        ensures
            reserved == self@.reserved,
    {
        self.reserved
    }

    /// The slot that frames using this palette declare transparent.
    pub fn transparent_index(&self) -> (index: Option<u8>)
        ensures
            index == self@.transparent_index(),
    {
        if self.reserved {
            Some(0)
        } else {
            None
        }
    }

    /// The colour of a slot, if the palette has that slot.
    pub fn color_at(&self, slot: u8) -> (color: Option<Rgb>)
        ensures
            color == if slot < self@.entries.len() {
                Some(self@.entries[slot as int])
            } else {
                None
            },
    {
        if (slot as usize) < self.entries.len() {
            Some(self.entries[slot as usize])
        } else {
            None
        }
    }

    /// All slots in order.
    pub fn entries(&self) -> (entries: &Vec<Rgb>)
        ensures
            entries@ == self@.entries,
            self@.wf(),
    {
        proof {
            use_type_invariant(self);
        }
        &self.entries
    }

    /// The colours laid out flat, three bytes per slot.
    pub fn to_rgb_bytes(&self) -> (bytes: Vec<u8>)
        ensures
            bytes@ == crate::color::rgb_bytes(self@.entries),
    {
        let mut bytes: Vec<u8> = Vec::new();
        let n: usize = self.entries.len();
        let mut i: usize = 0;
        while i < n
            invariant
                i <= n,
                n == self.entries@.len(),
                bytes@ =~= crate::color::rgb_bytes(self.entries@.take(i as int)),
            decreases n - i,
        {
            let color = self.entries[i];
            bytes.push(color.r);
            bytes.push(color.g);
            bytes.push(color.b);
            i += 1;
        }
        proof {
            assert(self.entries@.take(n as int) =~= self.entries@);
        }
        bytes
    }
}

/// Whether `color` occupies one of the slots from `first` on.
fn holds_color(entries: &Vec<Rgb>, first: usize, color: Rgb) -> (found: bool)
    requires
        first <= entries@.len(),
    ensures
        found == entries@.skip(first as int).contains(color),
{
    let n: usize = entries.len();
    let mut i: usize = first;
    while i < n
        invariant
            first <= i <= n,
            n == entries@.len(),
            forall|k: int| first <= k < i ==> entries@[k] != color,
        decreases n - i,
    {
        if entries[i] == color {
            assert(entries@.skip(first as int)[i - first] == color);
            return true;
        }
        i += 1;
    }
    false
}

/// Lays colours out as fully opaque four-byte pixels.
fn opaque_samples(colors: &[Rgb]) -> (bytes: Vec<u8>)
    ensures
        bytes@ == opaque_rgba_bytes(colors@),
{
    let mut bytes: Vec<u8> = Vec::new();
    let n: usize = colors.len();
    let mut i: usize = 0;
    while i < n
        invariant
            i <= n,
            n == colors@.len(),
            bytes@ =~= opaque_rgba_bytes(colors@.take(i as int)),
        decreases n - i,
    {
        let color = colors[i];
        bytes.push(color.r);
        bytes.push(color.g);
        bytes.push(color.b);
        bytes.push(255);
        i += 1;
    }
    proof {
        assert(colors@.take(n as int) =~= colors@);
    }
    bytes
}

/// Builds the palette of a frame from the colours of its opaque pixels, and
/// tells whether they overflowed it.
///
/// Colours that fit take their slots in insertion order. Colours that do not
/// fit are reduced to representatives first, so every palette that this
/// function returns is filled, and matched against, in the same way.
pub fn build_palette(colors: &[Rgb], transparent: Option<Rgb>) -> (res: PaletteBuild)
    ensures
        res.overflowed == overflows(colors@, transparent),
        res.palette@ == built_palette(colors@, transparent),
        res.palette@.wf(),
        res.palette@.reserved == (transparent is Some),
        colors@.len() > 0 ==> res.palette@.ordinary().len() > 0,
{
    match Palette::direct(colors, transparent) {
        Some(palette) => {
            proof {
                lemma_first_seen_len(colors@);
                lemma_direct_palette_wf(colors@, transparent);
            }
            PaletteBuild { palette, overflowed: false }
        },
        None => {
            let capacity: usize = if transparent.is_some() {
                255
            } else {
                256
            };
            let samples = opaque_samples(colors);
            let map = neuquant_color_map_rgb(SAMPLE_FACTOR, capacity, samples.as_slice());
            let chosen = collect_rgb_triples(map.as_slice());
            proof {
                lemma_first_seen_len(chosen@);
            }
            match Palette::direct(chosen.as_slice(), transparent) {
                Some(palette) => {
                    proof {
                        lemma_direct_palette_wf(chosen@, transparent);
                    }
                    PaletteBuild { palette, overflowed: true }
                },
                None => vstd::pervasive::unreached(),
            }
        },
    }
}

} // verus!
