use gif_encoder::assembler::{assemble, frame_fits, Assembler, AssemblerState, IndexedFrame};
use gif_encoder::color::Rgb;
use gif_encoder::error::GifCreationError;
use gif_encoder::palette::Palette;

fn two_colour_frame(indices: Vec<u8>) -> IndexedFrame {
    let colors = [Rgb { r: 255, g: 0, b: 0 }, Rgb { r: 0, g: 0, b: 255 }];
    IndexedFrame { palette: Palette::direct(&colors, None).expect("fits"), indices }
}

fn read_frames(data: &[u8]) -> Vec<(u16, Option<u8>, Vec<u8>, Vec<u8>)> {
    let mut options = gif::DecodeOptions::new();
    options.set_color_output(gif::ColorOutput::Indexed);
    let mut decoder = options.read_info(data).expect("a readable stream");
    let mut frames = Vec::new();
    while let Some(frame) = decoder.read_next_frame().expect("a readable frame") {
        frames.push((
            frame.delay,
            frame.transparent,
            frame.palette.clone().expect("a local palette"),
            frame.buffer.to_vec(),
        ));
    }
    frames
}

#[test]
fn assembler_walks_through_its_states() {
    let mut assembler = Assembler::new();
    assert_eq!(assembler.state(), AssemblerState::Empty);
    assembler.write_header(2, 1, true).expect("a header");
    assert_eq!(assembler.state(), AssemblerState::HeaderWritten);
    assembler.write_frame(&two_colour_frame(vec![0, 1]), 7).expect("a frame");
    assert_eq!(assembler.state(), AssemblerState::FrameWritten);
    assembler.write_frame(&two_colour_frame(vec![1, 1]), 7).expect("a frame");
    assert_eq!(assembler.state(), AssemblerState::FrameWritten);
    let data = assembler.finish().expect("a stream");
    assert_eq!(assembler.state(), AssemblerState::Finalized);

    let frames = read_frames(&data);
    assert_eq!(frames.len(), 2);
    assert_eq!(frames[0], (7, None, vec![255, 0, 0, 0, 0, 255], vec![0, 1]));
    assert_eq!(frames[1], (7, None, vec![255, 0, 0, 0, 0, 255], vec![1, 1]));
    assert_eq!(data.last(), Some(&0x3B));
}

#[test]
fn frame_is_handed_to_the_encoder_with_its_transparent_slot() {
    let colors = [Rgb { r: 1, g: 2, b: 3 }, Rgb { r: 4, g: 5, b: 6 }, Rgb { r: 7, g: 8, b: 9 }];
    let frame = IndexedFrame {
        palette: Palette::direct(&colors, Some(Rgb { r: 0, g: 0, b: 0 })).expect("fits"),
        indices: vec![3, 0, 2, 1, 1, 0],
    };
    let data = assemble(&vec![frame], 3, 2, 250, true).expect("a stream");
    let frames = read_frames(&data);
    assert_eq!(frames.len(), 1);
    assert_eq!(frames[0].0, 250);
    assert_eq!(frames[0].1, Some(0));
    assert_eq!(&frames[0].2[..12], &[0, 0, 0, 1, 2, 3, 4, 5, 6, 7, 8, 9]);
    assert_eq!(frames[0].3, vec![3, 0, 2, 1, 1, 0]);
}

#[test]
fn writing_before_the_header_is_refused() {
    let mut assembler = Assembler::new();
    let res = assembler.write_frame(&two_colour_frame(vec![0]), 1);
    assert!(matches!(res, Err(GifCreationError::EncodingError(_))));
    assert_eq!(assembler.state(), AssemblerState::Empty);
    let res = assembler.finish();
    assert!(matches!(res, Err(GifCreationError::EncodingError(_))));
    assert_eq!(assembler.state(), AssemblerState::Empty);
}

#[test]
fn second_header_is_refused() {
    let mut assembler = Assembler::new();
    assembler.write_header(1, 1, true).expect("a header");
    let res = assembler.write_header(1, 1, true);
    assert!(matches!(res, Err(GifCreationError::EncodingError(_))));
    assert_eq!(assembler.state(), AssemblerState::HeaderWritten);
}

#[test]
fn nothing_can_follow_the_end() {
    let mut assembler = Assembler::new();
    assembler.write_header(1, 1, false).expect("a header");
    assembler.finish().expect("a stream");
    assert!(matches!(assembler.write_frame(&two_colour_frame(vec![0]), 1), Err(GifCreationError::EncodingError(_))));
    assert!(matches!(assembler.finish(), Err(GifCreationError::EncodingError(_))));
    assert!(matches!(assembler.write_header(1, 1, false), Err(GifCreationError::EncodingError(_))));
    assert_eq!(assembler.state(), AssemblerState::Finalized);
}

#[test]
fn frame_that_does_not_fit_ends_the_assembly() {
    let mut assembler = Assembler::new();
    assembler.write_header(2, 2, true).expect("a header");
    let res = assembler.write_frame(&two_colour_frame(vec![0, 1, 0]), 1);
    assert!(matches!(res, Err(GifCreationError::EncodingError(_))));
    assert_eq!(assembler.state(), AssemblerState::Finalized);
    assert!(assembler.finish().is_err());
}

#[test]
fn index_outside_the_palette_is_rejected() {
    assert!(frame_fits(&two_colour_frame(vec![0, 1]), 2, 1));
    assert!(!frame_fits(&two_colour_frame(vec![0, 2]), 2, 1));
    assert!(!frame_fits(&two_colour_frame(vec![0, 1]), 1, 1));
    assert!(frame_fits(&two_colour_frame(vec![]), 0, 5));

    let mut assembler = Assembler::new();
    assembler.write_header(2, 1, true).expect("a header");
    let res = assembler.write_frame(&two_colour_frame(vec![0, 2]), 1);
    assert!(matches!(res, Err(GifCreationError::EncodingError(_))));
    assert_eq!(assembler.state(), AssemblerState::Finalized);
}

#[test]
fn assemble_checks_every_frame_before_it_encodes() {
    let frames = vec![two_colour_frame(vec![0, 1]), two_colour_frame(vec![0, 1, 1])];
    let res = assemble(&frames, 2, 1, 5, true);
    assert!(matches!(res, Err(GifCreationError::EncodingError(_))));
}

#[test]
fn stream_that_plays_once_has_no_loop_block() {
    let data = assemble(&Vec::new(), 4, 4, 5, false).expect("a stream");
    let mut expected: Vec<u8> = b"GIF89a".to_vec();
    expected.extend_from_slice(&[4, 0, 4, 0, 0x80, 0, 0, 0, 0, 0, 0, 0, 0, 0x3B]);
    assert_eq!(data, expected);

    let looping = assemble(&Vec::new(), 4, 4, 5, true).expect("a stream");
    assert_eq!(looping.len(), data.len() + 19);
}

#[test]
fn stream_is_header_then_frames_then_trailer() {
    let one = assemble(&vec![two_colour_frame(vec![0, 1])], 2, 1, 5, true).expect("a stream");
    let two = assemble(&vec![two_colour_frame(vec![0, 1]), two_colour_frame(vec![1, 0])], 2, 1, 5, true)
        .expect("a stream");
    let none = assemble(&Vec::new(), 2, 1, 5, true).expect("a stream");
    let head = none.len() - 1;
    assert_eq!(&one[..head], &none[..head]);
    // The first frame's block is the same whether or not a frame follows it.
    assert_eq!(&two[..one.len() - 1], &one[..one.len() - 1]);
    assert_eq!(two.last(), Some(&0x3B));
}
