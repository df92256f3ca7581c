use std::str::FromStr;
use shade_image::dims::{Dimensions, DimensionsError};
use shade_image::error::EngineError;
use shade_image::image::Image;
use shade_image::layout::{depad_rows, padded_width, FrameLayout};
use shade_image::program::{dialect_for_extension, ShaderDialect, ShaderFileError, ShaderProgram, VertexStage};
use shade_image::uniforms::uniform_block;

// Fills a staging buffer the way a texture-to-buffer copy does: each packed row
// at the start of its padded row, the padding set to `fill`.
fn staging_of(packed: &[u8], layout: &FrameLayout, fill: u8) -> Vec<u8> {
    let pitch = layout.padded_row_bytes() as usize;
    let row = layout.row_bytes() as usize;
    let mut staging = vec![fill; layout.staging_size() as usize];
    for r in 0..layout.height as usize {
        staging[r * pitch..r * pitch + row].copy_from_slice(&packed[r * row..(r + 1) * row]);
    }
    staging
}

#[test]
fn padded_width_boundaries() {
    assert_eq!(padded_width(1), 64);
    assert_eq!(padded_width(63), 64);
    assert_eq!(padded_width(64), 64);
    assert_eq!(padded_width(65), 128);
    assert_eq!(padded_width(128), 128);
    assert_eq!(padded_width(129), 192);
    assert_eq!(padded_width(u32::MAX), 4294967296);
}

#[test]
fn padded_width_is_smallest_multiple_of_64() {
    for w in 1u32..=1000 {
        let p = padded_width(w);
        assert_eq!(p % 64, 0);
        assert!(p >= w as u64);
        assert!(p < w as u64 + 64);
        assert_eq!(p, 64 * ((w as u64 + 63) / 64));
    }
}

#[test]
fn layout_pitches_and_staging_size() {
    let l = FrameLayout::new(65, 3, 65 * 3 * 4).unwrap();
    assert_eq!(l.padded_width, 128);
    assert_eq!(l.row_bytes(), 260);
    assert_eq!(l.padded_row_bytes(), 512);
    assert_eq!(l.staging_size(), 4 * 128 * 3);
}

#[test]
fn layout_rejects_empty_images() {
    assert!(matches!(FrameLayout::new(0, 5, 0), Err(EngineError::EmptyImage)));
    assert!(matches!(FrameLayout::new(5, 0, 0), Err(EngineError::EmptyImage)));
}

#[test]
fn layout_rejects_wrong_input_length() {
    assert!(matches!(FrameLayout::new(2, 2, 15), Err(EngineError::InputSizeMismatch)));
    assert!(matches!(FrameLayout::new(2, 2, 17), Err(EngineError::InputSizeMismatch)));
}

#[test]
fn layout_rejects_rows_too_wide_for_a_copy() {
    assert!(matches!(FrameLayout::new(u32::MAX, 1, 0), Err(EngineError::TooLarge)));
    assert!(matches!(FrameLayout::new(0x4000_0000, 1, 0), Err(EngineError::TooLarge)));
}

#[test]
fn depad_drops_row_padding() {
    // width 3 (12 bytes per row), pitch 16, two rows
    let staging: Vec<u8> = (0u8..32).collect();
    let out = depad_rows(&staging, 12, 16, 2);
    let mut expected: Vec<u8> = (0u8..12).collect();
    expected.extend(16u8..28);
    assert_eq!(out, expected);
}

#[test]
fn readback_round_trips_packed_pixels() {
    for &(w, h) in &[(1u32, 1u32), (3, 2), (63, 4), (65, 3), (64, 2), (100, 7)] {
        let n = (w * h * 4) as usize;
        let packed: Vec<u8> = (0..n).map(|i| (i * 7 % 251) as u8).collect();
        let layout = FrameLayout::new(w, h, n).unwrap();
        let staging = staging_of(&packed, &layout, 0xEE);
        let img = layout.readback(&staging).unwrap();
        assert_eq!(img.width, w);
        assert_eq!(img.height, h);
        assert_eq!(img.data, packed);
    }
}

#[test]
fn readback_has_no_padding_bytes() {
    // 5 * 4 = 20 bytes per row, not a multiple of 256
    let layout = FrameLayout::new(5, 3, 60).unwrap();
    let packed = vec![1u8; 60];
    let staging = staging_of(&packed, &layout, 0xAB);
    let img = layout.readback(&staging).unwrap();
    assert_eq!(img.data.len(), 5 * 3 * 4);
    assert!(img.data.iter().all(|&b| b == 1));
}

#[test]
fn readback_of_short_buffer_is_internal_error() {
    let layout = FrameLayout::new(2, 2, 16).unwrap();
    let staging = vec![0u8; layout.staging_size() as usize - 1];
    assert!(matches!(layout.readback(&staging), Err(EngineError::InternalConsistency)));
}

#[test]
fn blank_canvas_then_solid_red_readback() {
    let dims = Dimensions::parse("4x4").unwrap();
    assert_eq!(dims, Dimensions { width: 4, height: 4 });
    let canvas = Image::blank(dims.width, dims.height).unwrap();
    assert_eq!(canvas.data, vec![0u8; 64]);
    let layout = FrameLayout::new(canvas.width, canvas.height, canvas.data.len()).unwrap();
    let red: Vec<u8> = [255u8, 0, 0, 255].iter().cycle().take(64).copied().collect();
    let staging = staging_of(&red, &layout, 0);
    let out = layout.readback(&staging).unwrap();
    assert_eq!((out.width, out.height), (4, 4));
    for px in out.data.chunks(4) {
        assert_eq!(px, &[255, 0, 0, 255]);
    }
}

#[test]
fn inverted_black_readback_is_white() {
    let black = vec![0u8, 0, 0, 255].repeat(4);
    let layout = FrameLayout::new(2, 2, black.len()).unwrap();
    let white = vec![255u8; 16];
    let staging = staging_of(&white, &layout, 0);
    let out = layout.readback(&staging).unwrap();
    assert_eq!((out.width, out.height), (2, 2));
    assert_eq!(out.into_raw(), vec![255u8; 16]);
}

#[test]
fn image_from_packed_checks_length() {
    assert!(Image::from_packed(2, 2, vec![0; 16]).is_some());
    assert!(Image::from_packed(2, 2, vec![0; 15]).is_none());
    assert!(Image::from_packed(0, 7, vec![]).is_some());
}

#[test]
fn txt_extension_is_a_configuration_error() {
    assert_eq!(dialect_for_extension(Some("txt")), Err(ShaderFileError::UnsupportedExtension));
}

#[test]
fn missing_extension_is_a_configuration_error() {
    assert_eq!(dialect_for_extension(None), Err(ShaderFileError::NoExtension));
}

#[test]
fn known_extensions_pick_dialects() {
    assert_eq!(dialect_for_extension(Some("wgsl")), Ok(ShaderDialect::Wgsl));
    assert_eq!(dialect_for_extension(Some("frag")), Ok(ShaderDialect::Glsl));
    assert_eq!(dialect_for_extension(Some("WGSL")), Err(ShaderFileError::UnsupportedExtension));
}

#[test]
fn program_pairs_with_its_vertex_stage() {
    let w = ShaderProgram::new(ShaderDialect::Wgsl, String::from("a"));
    let g = ShaderProgram::new(ShaderDialect::Glsl, String::from("b"));
    assert_eq!(w.vertex_stage(), VertexStage::ForWgsl);
    assert_eq!(g.vertex_stage(), VertexStage::ForGlsl);
    assert_eq!(w.dialect(), ShaderDialect::Wgsl);
    assert_eq!(g.source(), "b");
}

#[test]
fn dimensions_missing_height() {
    assert!(matches!(Dimensions::parse("10x"), Err(DimensionsError::IntError(_))));
}

#[test]
fn dimensions_missing_separator() {
    assert!(matches!(Dimensions::parse("512"), Err(DimensionsError::FormatError)));
    assert!(matches!(Dimensions::parse(""), Err(DimensionsError::FormatError)));
}

#[test]
fn dimensions_non_integer() {
    assert!(matches!(Dimensions::parse("ax5"), Err(DimensionsError::IntError(_))));
    assert!(matches!(Dimensions::parse("5x5x5"), Err(DimensionsError::IntError(_))));
    assert!(matches!(Dimensions::parse(" 5x5"), Err(DimensionsError::IntError(_))));
    assert!(matches!(Dimensions::parse("5x4294967296"), Err(DimensionsError::IntError(_))));
}

#[test]
fn dimensions_zero_rejected() {
    assert!(matches!(Dimensions::parse("0x5"), Err(DimensionsError::ZeroSize)));
    assert!(matches!(Dimensions::parse("5x0"), Err(DimensionsError::ZeroSize)));
}

#[test]
fn dimensions_parse_ok() {
    assert_eq!(Dimensions::parse("512x256").unwrap(), Dimensions { width: 512, height: 256 });
    assert_eq!(Dimensions::parse("+3x4294967295").unwrap(), Dimensions { width: 3, height: u32::MAX });
}

#[test]
fn uniform_block_holds_width_then_height() {
    let b = uniform_block(0x0102_0304, 7);
    let mut expected = 0x0102_0304u32.to_ne_bytes().to_vec();
    expected.extend_from_slice(&7u32.to_ne_bytes());
    assert_eq!(b, expected);
}

#[test]
fn dimensions_from_str_matches_parse() {
    assert_eq!(Dimensions::from_str("4x4").unwrap(), Dimensions { width: 4, height: 4 });
    assert_eq!("512x256".parse::<Dimensions>().unwrap(), Dimensions { width: 512, height: 256 });
    assert!(matches!(Dimensions::from_str("10x"), Err(DimensionsError::IntError(_))));
    assert!(matches!(Dimensions::from_str("x5"), Err(DimensionsError::IntError(_))));
    assert!(matches!(Dimensions::from_str("10xabc"), Err(DimensionsError::IntError(_))));
    assert!(matches!(Dimensions::from_str("10x20x30"), Err(DimensionsError::IntError(_))));
    assert!(matches!(Dimensions::from_str("4294967296x1"), Err(DimensionsError::IntError(_))));
    assert!(matches!(Dimensions::from_str("0x5"), Err(DimensionsError::ZeroSize)));
    assert!(matches!(Dimensions::from_str("45"), Err(DimensionsError::FormatError)));
}
