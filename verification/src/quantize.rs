//! The boundary to the `color_quant` crate.

use vstd::prelude::*;

verus! {

/// The colour map, three bytes per colour, that NeuQuant arrives at when it is
/// trained for `colors` colours on the four-byte pixels `pixels`, sampling
/// every `sample_factor`-th of them. The training is fixed-order arithmetic on
/// its arguments, so equal arguments give equal maps.
pub uninterp spec fn neuquant_color_map(sample_factor: i32, colors: usize, pixels: Seq<u8>) -> Seq<u8>;

/// `color_quant::NeuQuant::new`, read out with `NeuQuant::color_map_rgb`.
///
/// Claimed of them: the result is the colour map named above, and it holds
/// three bytes for each of the `colors` neurons. The bounds are those under
/// which the crate documents the call.
#[verifier::external_body]
pub(crate) fn neuquant_color_map_rgb(sample_factor: i32, colors: usize, pixels: &[u8]) -> (map: Vec<u8>)
    requires
        1 <= sample_factor <= 30,
        64 <= colors <= 256,
    ensures
        map@ == neuquant_color_map(sample_factor, colors, pixels@),
        map@.len() == 3 * colors,
{
    color_quant::NeuQuant::new(sample_factor, colors, pixels).color_map_rgb()
}

} // verus!
