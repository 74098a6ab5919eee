use gif_encoder::color::{collect_opaque_colors, collect_rgb_triples, to_rgb, Rgb};
use gif_encoder::indexer::{index_frame, map_pixels_to_palette, nearest_among, nearest_slot};
use gif_encoder::palette::{build_palette, Palette};

fn rgb(r: u8, g: u8, b: u8) -> Rgb {
    Rgb { r, g, b }
}

fn three_hundred_colours() -> Vec<Rgb> {
    (0..300u32).map(|i| rgb((i % 256) as u8, (i / 256) as u8 * 100, (i * 7 % 256) as u8)).collect()
}

#[test]
fn distance_is_the_sum_of_squared_channel_differences() {
    assert_eq!(rgb(0, 0, 0).distance_to(&rgb(255, 255, 255)), 195075);
    assert_eq!(rgb(10, 20, 30).distance_to(&rgb(13, 16, 30)), 25);
    assert_eq!(rgb(7, 7, 7).distance_to(&rgb(7, 7, 7)), 0);
    assert_eq!(rgb(1, 2, 3).distance_to(&rgb(3, 2, 1)), rgb(3, 2, 1).distance_to(&rgb(1, 2, 3)));
}

#[test]
fn direct_palette_keeps_first_occurrences_in_order() {
    let colors = vec![rgb(5, 5, 5), rgb(1, 1, 1), rgb(5, 5, 5), rgb(9, 9, 9), rgb(1, 1, 1)];
    let palette = Palette::direct(&colors, None).expect("colours that fit");
    assert_eq!(palette.entries(), &vec![rgb(5, 5, 5), rgb(1, 1, 1), rgb(9, 9, 9)]);
    assert_eq!(palette.len(), 3);
    assert!(!palette.reserves_transparent());
    assert_eq!(palette.transparent_index(), None);
    assert_eq!(palette.to_rgb_bytes(), vec![5, 5, 5, 1, 1, 1, 9, 9, 9]);
}

#[test]
fn reserved_slot_comes_first_and_may_repeat_an_opaque_colour() {
    let colors = vec![rgb(0, 0, 0), rgb(4, 4, 4), rgb(0, 0, 0)];
    let palette = Palette::direct(&colors, Some(rgb(0, 0, 0))).expect("colours that fit");
    assert_eq!(palette.entries(), &vec![rgb(0, 0, 0), rgb(0, 0, 0), rgb(4, 4, 4)]);
    assert!(palette.reserves_transparent());
    assert_eq!(palette.transparent_index(), Some(0));
    assert_eq!(palette.color_at(2), Some(rgb(4, 4, 4)));
    assert_eq!(palette.color_at(3), None);
}

#[test]
fn palette_of_no_colours() {
    let palette = Palette::direct(&[], None).expect("colours that fit");
    assert_eq!(palette.len(), 0);
    let palette = Palette::direct(&[], Some(rgb(1, 2, 3))).expect("colours that fit");
    assert_eq!(palette.entries(), &vec![rgb(1, 2, 3)]);
}

#[test]
fn direct_palette_refuses_more_colours_than_slots() {
    let colors: Vec<Rgb> = (0..=255u8).map(|i| rgb(i, 0, 0)).collect();
    assert_eq!(Palette::direct(&colors, None).expect("256 colours fit").len(), 256);
    assert!(Palette::direct(&colors, Some(rgb(0, 0, 0))).is_none());
    let mut more = colors.clone();
    more.push(rgb(0, 1, 0));
    assert!(Palette::direct(&more, None).is_none());
    assert_eq!(Palette::direct(&colors[..255], Some(rgb(0, 0, 0))).expect("255 colours fit").len(), 256);
}

#[test]
fn ordinary_slots_hold_pairwise_distinct_colours() {
    let mut colors = three_hundred_colours();
    colors.extend(three_hundred_colours());
    for transparent in [None, Some(rgb(0, 0, 0))] {
        let built = build_palette(&colors, transparent);
        assert!(built.overflowed);
        let entries = built.palette.entries();
        let first = if transparent.is_some() { 1 } else { 0 };
        assert!(entries.len() <= 256);
        assert!(entries.len() > first);
        for i in first..entries.len() {
            for j in (i + 1)..entries.len() {
                assert_ne!(entries[i], entries[j]);
            }
        }
    }
}

#[test]
fn overflowing_colours_are_replaced_by_the_quantizer_s_choice() {
    let colors = three_hundred_colours();
    let built = build_palette(&colors, None);
    assert!(built.overflowed);

    let mut samples: Vec<u8> = Vec::new();
    for c in &colors {
        samples.extend_from_slice(&[c.r, c.g, c.b, 255]);
    }
    let map = color_quant::NeuQuant::new(10, 256, &samples).color_map_rgb();
    assert_eq!(map.len(), 768);
    let mut expected: Vec<Rgb> = Vec::new();
    for triple in map.chunks(3) {
        let color = rgb(triple[0], triple[1], triple[2]);
        if !expected.contains(&color) {
            expected.push(color);
        }
    }
    assert_eq!(built.palette.entries(), &expected);
}

#[test]
fn quantizer_is_asked_for_one_colour_less_beside_a_reserved_slot() {
    let colors = three_hundred_colours();
    let built = build_palette(&colors, Some(rgb(1, 1, 1)));
    assert!(built.overflowed);
    assert!(built.palette.len() <= 256);
    assert_eq!(built.palette.color_at(0), Some(rgb(1, 1, 1)));

    let mut samples: Vec<u8> = Vec::new();
    for c in &colors {
        samples.extend_from_slice(&[c.r, c.g, c.b, 255]);
    }
    let map = color_quant::NeuQuant::new(10, 255, &samples).color_map_rgb();
    let mut expected: Vec<Rgb> = vec![rgb(1, 1, 1)];
    for triple in map.chunks(3) {
        let color = rgb(triple[0], triple[1], triple[2]);
        if !expected[1..].contains(&color) {
            expected.push(color);
        }
    }
    assert_eq!(built.palette.entries(), &expected);
}

#[test]
fn colours_that_fit_do_not_overflow() {
    let colors = vec![rgb(1, 2, 3), rgb(1, 2, 3), rgb(3, 2, 1)];
    let built = build_palette(&colors, None);
    assert!(!built.overflowed);
    assert_eq!(built.palette.entries(), &vec![rgb(1, 2, 3), rgb(3, 2, 1)]);
}

#[test]
fn nearest_colour_wins() {
    let colors = vec![rgb(0, 0, 0), rgb(100, 100, 100), rgb(200, 200, 200)];
    assert_eq!(nearest_among(&colors, 0, rgb(90, 110, 100)), 1);
    assert_eq!(nearest_among(&colors, 0, rgb(255, 255, 255)), 2);
    assert_eq!(nearest_among(&colors, 0, rgb(0, 0, 49)), 0);
    assert_eq!(nearest_among(&colors, 2, rgb(0, 0, 0)), 2);
    assert_eq!(nearest_among(&colors, 3, rgb(0, 0, 0)), 0);
    assert_eq!(nearest_among(&colors, 9, rgb(0, 0, 0)), 0);
}

#[test]
fn tie_goes_to_the_lower_index() {
    let colors = vec![rgb(0, 0, 0), rgb(10, 0, 0), rgb(0, 10, 0), rgb(10, 0, 0)];
    // (5, 0, 0) is 25 away from slots 0, 1 and 3.
    assert_eq!(nearest_among(&colors, 0, rgb(5, 0, 0)), 0);
    assert_eq!(nearest_among(&colors, 1, rgb(5, 0, 0)), 1);
    // (5, 5, 0) is 50 away from slots 0, 1, 2 and 3.
    assert_eq!(nearest_among(&colors, 0, rgb(5, 5, 0)), 0);
    assert_eq!(nearest_among(&colors, 1, rgb(5, 5, 0)), 1);
    for _ in 0..3 {
        assert_eq!(nearest_among(&colors, 2, rgb(5, 5, 0)), 2);
    }
}

#[test]
fn map_pixels_to_palette_picks_the_closest_entry() {
    let palette = vec![0, 0, 0, 255, 255, 255, 255, 0, 0];
    let pixels = vec![250, 10, 10, 10, 10, 10, 200, 200, 200, 255, 0, 0];
    assert_eq!(map_pixels_to_palette(&pixels, &palette), vec![2, 0, 1, 2]);
}

#[test]
fn map_pixels_to_palette_breaks_ties_by_lowest_index() {
    let palette = vec![20, 0, 0, 0, 0, 0, 10, 10, 0];
    // (10, 0, 0) is 100 away from each of the three entries.
    assert_eq!(map_pixels_to_palette(&[10, 0, 0], &palette), vec![0]);
}

#[test]
fn map_pixels_to_palette_edge_cases() {
    assert_eq!(map_pixels_to_palette(&[], &[1, 2, 3]), Vec::<u8>::new());
    assert_eq!(map_pixels_to_palette(&[1, 2, 3, 4, 5, 6], &[]), vec![0, 0]);
    // An incomplete trailing colour is left out on both sides.
    assert_eq!(map_pixels_to_palette(&[9, 9, 9, 1], &[0, 0, 0, 9, 9, 9, 7, 7]), vec![1]);
}

#[test]
fn index_frame_maps_transparent_pixels_to_slot_zero() {
    let frame = vec![0, 0, 0, 0, 255, 0, 0, 255, 0, 0, 0, 255, 0, 0, 0, 0];
    let transparent = Some([0, 0, 0, 0]);
    let colors = collect_opaque_colors(&frame, &transparent);
    assert_eq!(colors, vec![rgb(255, 0, 0), rgb(0, 0, 0)]);
    let built = build_palette(&colors, Some(to_rgb(&[0, 0, 0, 0])));
    assert_eq!(built.palette.entries(), &vec![rgb(0, 0, 0), rgb(255, 0, 0), rgb(0, 0, 0)]);
    let indices = index_frame(&frame, &built.palette, transparent);
    assert_eq!(indices, vec![0, 1, 2, 0]);
    assert_eq!(built.palette.transparent_index(), Some(0));
}

#[test]
fn index_frame_falls_back_to_the_nearest_colour() {
    let palette = Palette::direct(&[rgb(0, 0, 0), rgb(255, 255, 255)], Some(rgb(8, 8, 8))).expect("fits");
    let frame = vec![8, 8, 8, 255, 200, 200, 200, 255, 8, 8, 8, 0, 127, 127, 127, 255];
    let indices = index_frame(&frame, &palette, Some([8, 8, 8, 0]));
    // The reserved slot is no candidate: (8, 8, 8) with another alpha goes to black.
    assert_eq!(indices, vec![1, 2, 0, 1]);
    assert_eq!(nearest_slot(&palette, rgb(128, 128, 128)), 2);
}

#[test]
fn index_frame_of_an_empty_frame_is_empty() {
    let palette = Palette::direct(&[rgb(1, 1, 1)], None).expect("fits");
    assert_eq!(index_frame(&[], &palette, None), Vec::<u8>::new());
    assert_eq!(index_frame(&[], &palette, Some([1, 1, 1, 1])), Vec::<u8>::new());
}

#[test]
fn index_frame_without_ordinary_slot_gives_slot_zero() {
    let palette = Palette::direct(&[], Some(rgb(0, 0, 0))).expect("fits");
    assert_eq!(index_frame(&[5, 5, 5, 255], &palette, Some([0, 0, 0, 0])), vec![0]);
}

#[test]
fn flat_colour_bytes_group_into_triples() {
    assert_eq!(collect_rgb_triples(&[1, 2, 3, 4, 5, 6, 7]), vec![rgb(1, 2, 3), rgb(4, 5, 6)]);
    assert_eq!(collect_rgb_triples(&[]), Vec::<Rgb>::new());
}
