//! Colours and the pixel layout of a frame buffer.

use vstd::prelude::*;

verus! {

/// An opaque colour: red, green and blue, eight bits each.
#[derive(Clone, Copy, Debug, PartialEq, Eq, Structural)]
pub struct Rgb {
    pub r: u8,
    pub g: u8,
    pub b: u8,
}

impl Rgb {
    /// Squared Euclidean distance between two colours in channel space.
    pub open spec fn distance(self, other: Rgb) -> int {
        (self.r - other.r) * (self.r - other.r) + (self.g - other.g) * (self.g - other.g) + (
        self.b - other.b) * (self.b - other.b)
    }

    /// Computes [`Rgb::distance`].
    pub fn distance_to(&self, other: &Rgb) -> (d: u32)
        ensures
            d == self.distance(*other),
    {
        let dr: u32 = channel_gap(self.r, other.r);
        let dg: u32 = channel_gap(self.g, other.g);
        let db: u32 = channel_gap(self.b, other.b);
        assert(dr * dr <= 65025 && dg * dg <= 65025 && db * db <= 65025) by (nonlinear_arith)
            requires
                dr <= 255,
                dg <= 255,
                db <= 255,
        ;
        assert(dr * dr == (self.r - other.r) * (self.r - other.r)) by (nonlinear_arith)
            requires
                dr == self.r - other.r || dr == other.r - self.r,
        ;
        assert(dg * dg == (self.g - other.g) * (self.g - other.g)) by (nonlinear_arith)
            requires
                dg == self.g - other.g || dg == other.g - self.g,
        ;
        assert(db * db == (self.b - other.b) * (self.b - other.b)) by (nonlinear_arith)
            requires
                db == self.b - other.b || db == other.b - self.b,
        ;
        dr * dr + dg * dg + db * db
    }
}

/// The absolute difference of two channel values.
fn channel_gap(a: u8, b: u8) -> (gap: u32)
    ensures
        gap <= 255,
        gap == a - b || gap == b - a,
        gap == 0 <==> a == b,
{
    if a >= b {
        (a - b) as u32
    } else {
        (b - a) as u32
    }
}

/// The distance is never negative, and it is zero exactly between equal colours.
pub proof fn lemma_distance_zero_iff_equal(a: Rgb, b: Rgb)
    ensures
        a.distance(b) >= 0,
        a.distance(b) == 0 <==> a == b,
{
    let dr = a.r - b.r;
    let dg = a.g - b.g;
    let db = a.b - b.b;
    assert(dr * dr >= 0 && (dr * dr == 0 <==> dr == 0)) by (nonlinear_arith);
    assert(dg * dg >= 0 && (dg * dg == 0 <==> dg == 0)) by (nonlinear_arith);
    assert(db * db >= 0 && (db * db == 0 <==> db == 0)) by (nonlinear_arith);
}

/// Number of complete four-byte pixels in a frame buffer.
pub open spec fn pixel_count(frame: Seq<u8>) -> nat {
    (frame.len() / 4) as nat
}

/// The colour channels of pixel `i`, its alpha byte left out.
pub open spec fn pixel_rgb(frame: Seq<u8>, i: int) -> Rgb {
    Rgb { r: frame[4 * i], g: frame[4 * i + 1], b: frame[4 * i + 2] }
}

/// Pixel `i` equals `color` in all four channels.
pub open spec fn pixel_equals(frame: Seq<u8>, i: int, color: [u8; 4]) -> bool {
    &&& frame[4 * i] == color[0]
    &&& frame[4 * i + 1] == color[1]
    &&& frame[4 * i + 2] == color[2]
    &&& frame[4 * i + 3] == color[3]
}

/// Pixel `i` is transparent: a transparent colour is configured and the pixel
/// equals it byte for byte, alpha included.
pub open spec fn is_transparent(frame: Seq<u8>, i: int, transparent: Option<[u8; 4]>) -> bool {
    match transparent {
        Some(color) => pixel_equals(frame, i, color),
        None => false,
    }
}

/// The colour channels of a four-byte colour.
pub open spec fn rgb_of(color: [u8; 4]) -> Rgb {
    Rgb { r: color[0], g: color[1], b: color[2] }
}

/// The colour that a palette reserves for transparency, if one is configured.
pub open spec fn reserved_rgb(transparent: Option<[u8; 4]>) -> Option<Rgb> {
    match transparent {
        Some(color) => Some(rgb_of(color)),
        None => None,
    }
}

/// Colours of the pixels among the first `n` that are not transparent, in
/// pixel order.
pub open spec fn opaque_colors_upto(frame: Seq<u8>, transparent: Option<[u8; 4]>, n: nat) -> Seq<Rgb>
    decreases n,
{
    if n == 0 {
        Seq::empty()
    } else {
        let before = opaque_colors_upto(frame, transparent, (n - 1) as nat);
        if is_transparent(frame, n - 1, transparent) {
            before
        } else {
            before.push(pixel_rgb(frame, n - 1))
        }
    }
}

/// Every pixel among the first `n` that is not transparent has its colour
/// among the opaque colours, and without a transparent colour every pixel
/// contributes one.
pub proof fn lemma_opaque_colors_cover(frame: Seq<u8>, transparent: Option<[u8; 4]>, n: nat)
    ensures
        opaque_colors_upto(frame, transparent, n).len() <= n,
        transparent is None ==> opaque_colors_upto(frame, transparent, n).len() == n,
        forall|i: int|
            0 <= i < n && !is_transparent(frame, i, transparent) ==> opaque_colors_upto(
                frame,
                transparent,
                n,
            ).contains(#[trigger] pixel_rgb(frame, i)),
    decreases n,
{
    if n > 0 {
        let before = opaque_colors_upto(frame, transparent, (n - 1) as nat);
        let all = opaque_colors_upto(frame, transparent, n);
        lemma_opaque_colors_cover(frame, transparent, (n - 1) as nat);
        assert forall|i: int| 0 <= i < n && !is_transparent(frame, i, transparent) implies all.contains(
            #[trigger] pixel_rgb(frame, i),
        ) by {
            if i < n - 1 {
                let k = choose|k: int| 0 <= k < before.len() && before[k] == pixel_rgb(frame, i);
                assert(all[k] == pixel_rgb(frame, i));
            } else {
                assert(all[before.len() as int] == pixel_rgb(frame, i));
            }
        }
    }
}

/// Colours of all pixels of a frame that are not transparent, in pixel order.
pub open spec fn opaque_colors(frame: Seq<u8>, transparent: Option<[u8; 4]>) -> Seq<Rgb> {
    opaque_colors_upto(frame, transparent, pixel_count(frame))
}

/// Groups a flat byte sequence into colours, three bytes each; a trailing
/// incomplete group is left out.
pub open spec fn rgb_triples(bytes: Seq<u8>) -> Seq<Rgb> {
    Seq::new(
        (bytes.len() / 3) as nat,
        |i: int| Rgb { r: bytes[3 * i], g: bytes[3 * i + 1], b: bytes[3 * i + 2] },
    )
}

/// Lays colours out flat, three bytes each.
pub open spec fn rgb_bytes(colors: Seq<Rgb>) -> Seq<u8> {
    Seq::new(
        colors.len() * 3,
        |i: int|
            if i % 3 == 0 {
                colors[i / 3].r
            } else if i % 3 == 1 {
                colors[i / 3].g
            } else {
                colors[i / 3].b
            },
    )
}

/// Lays colours out as fully opaque four-byte pixels.
pub open spec fn opaque_rgba_bytes(colors: Seq<Rgb>) -> Seq<u8> {
    Seq::new(
        colors.len() * 4,
        |i: int|
            if i % 4 == 0 {
                colors[i / 4].r
            } else if i % 4 == 1 {
                colors[i / 4].g
            } else if i % 4 == 2 {
                colors[i / 4].b
            } else {
                255u8
            },
    )
}

/// Reads the colour channels of the four-byte colour `color`.
pub fn to_rgb(color: &[u8; 4]) -> (rgb: Rgb)
    ensures
        rgb == rgb_of(*color),
{
    Rgb { r: color[0], g: color[1], b: color[2] }
}

/// Tells whether pixel `i` of `frame` is transparent.
pub fn pixel_is_transparent(frame: &[u8], i: usize, transparent: &Option<[u8; 4]>) -> (res: bool)
    requires
        i < pixel_count(frame@),
    ensures
        res == is_transparent(frame@, i as int, *transparent),
{
    let len: usize = frame.len();
    assert(4 * i + 3 < len);
    match transparent {
        Some(color) => {
            frame[4 * i] == color[0] && frame[4 * i + 1] == color[1] && frame[4 * i + 2]
                == color[2] && frame[4 * i + 3] == color[3]
        },
        None => false,
    }
}

/// Collects the colours of the pixels of `frame` that are not transparent.
pub fn collect_opaque_colors(frame: &[u8], transparent: &Option<[u8; 4]>) -> (colors: Vec<Rgb>)
    ensures
        colors@ == opaque_colors(frame@, *transparent),
{
    let len: usize = frame.len();
    let n: usize = len / 4;
    let mut colors: Vec<Rgb> = Vec::new();
    let mut i: usize = 0;
    while i < n
        invariant
            i <= n,
            len == frame@.len(),
            n == pixel_count(frame@),
            colors@ == opaque_colors_upto(frame@, *transparent, i as nat),
        decreases n - i,
    {
        if !pixel_is_transparent(frame, i, transparent) {
            colors.push(Rgb { r: frame[4 * i], g: frame[4 * i + 1], b: frame[4 * i + 2] });
        }
        i += 1;
    }
    colors
}

/// Groups flat colour bytes into colours.
pub fn collect_rgb_triples(bytes: &[u8]) -> (colors: Vec<Rgb>)
    ensures
        colors@ == rgb_triples(bytes@),
{
    let len: usize = bytes.len();
    let n: usize = len / 3;
    let mut colors: Vec<Rgb> = Vec::new();
    let mut i: usize = 0;
    while i < n
        invariant
            i <= n,
            len == bytes@.len(),
            n == bytes@.len() / 3,
            colors@ == rgb_triples(bytes@).take(i as int),
        decreases n - i,
    {
        colors.push(Rgb { r: bytes[3 * i], g: bytes[3 * i + 1], b: bytes[3 * i + 2] });
        i += 1;
    }
    colors
}

} // verus!
