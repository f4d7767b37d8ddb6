use jaankaup_core::fmm::{create_fmm_blocks, FMM_Block};
use jaankaup_core::render_pipelines::{bindings_match, check_correspondence, BindingKind, ResourceKind};
use jaankaup_core::texture::{decode_texture_data, rgb_to_bgra, texture_upload_data};

fn encode_png(width: u32, height: u32, color: png::ColorType, data: &[u8]) -> Vec<u8> {
    let mut bytes: Vec<u8> = Vec::new();
    {
        let mut encoder = png::Encoder::new(&mut bytes, width, height);
        encoder.set_color(color);
        encoder.set_depth(png::BitDepth::Eight);
        let mut writer = encoder.write_header().unwrap();
        writer.write_image_data(data).unwrap();
    }
    bytes
}

#[test]
fn rgb_texels_become_bgra() {
    assert_eq!(rgb_to_bgra(&vec![1, 2, 3, 4, 5, 6]), vec![3, 2, 1, 255, 6, 5, 4, 255]);
    assert_eq!(rgb_to_bgra(&vec![1, 2, 3, 4]), vec![3, 2, 1, 255]);
    assert_eq!(rgb_to_bgra(&vec![]), Vec::<u8>::new());
    assert_eq!(texture_upload_data(3, vec![10, 20, 30]), vec![30, 20, 10, 255]);
    assert_eq!(texture_upload_data(4, vec![10, 20, 30, 40]), vec![10, 20, 30, 40]);
}

#[test]
fn png_rgb_image_is_decoded_to_bgra() {
    let bytes = encode_png(2, 1, png::ColorType::RGB, &[1, 2, 3, 4, 5, 6]);
    let (w, h, data) = decode_texture_data(&bytes).unwrap();
    assert_eq!((w, h), (2, 1));
    assert_eq!(data, vec![3, 2, 1, 255, 6, 5, 4, 255]);
}

#[test]
fn png_rgba_image_is_kept() {
    let bytes = encode_png(1, 2, png::ColorType::RGBA, &[1, 2, 3, 4, 5, 6, 7, 8]);
    let (w, h, data) = decode_texture_data(&bytes).unwrap();
    assert_eq!((w, h), (1, 2));
    assert_eq!(data, vec![1, 2, 3, 4, 5, 6, 7, 8]);
}

#[test]
fn png_grayscale_and_garbage_are_refused() {
    let bytes = encode_png(2, 2, png::ColorType::Grayscale, &[1, 2, 3, 4]);
    assert!(decode_texture_data(&bytes).is_none());
    assert!(decode_texture_data(&[1, 2, 3, 4, 5]).is_none());
}

#[test]
fn fmm_blocks_of_small_and_large_grids() {
    let blocks = create_fmm_blocks([2, 2, 2]);
    assert_eq!(blocks.len(), 16);
    for k in 0..8 {
        assert_eq!(blocks[k], FMM_Block { index: k as u32, band_points_count: 3 });
    }
    for k in 8..16 {
        assert_eq!(blocks[k], FMM_Block { index: 777, band_points_count: 0 });
    }
    let blocks = create_fmm_blocks([32, 32, 32]);
    assert_eq!(blocks.len(), 512 + 32768);
    assert_eq!(blocks[511], FMM_Block { index: 511, band_points_count: 3 });
    assert_eq!(blocks[512], FMM_Block { index: 777, band_points_count: 0 });
    assert_eq!(create_fmm_blocks([0, 5, 5]).len(), 0);
}

#[test]
fn bindings_that_match_the_layout() {
    assert!(check_correspondence(
        &vec![vec![BindingKind::Buffer], vec![BindingKind::Texture, BindingKind::Sampler]],
        &vec![vec![ResourceKind::Buffer], vec![ResourceKind::TextureView, ResourceKind::Sampler]],
    ));
    assert!(check_correspondence(&vec![], &vec![]));
}

#[test]
fn bindings_match_answers_every_input() {
    let entries = vec![vec![BindingKind::Buffer], vec![BindingKind::Texture, BindingKind::Sampler]];
    let good = vec![vec![ResourceKind::Buffer], vec![ResourceKind::TextureView, ResourceKind::Sampler]];
    assert!(bindings_match(&entries, &good));
    let swapped = vec![vec![ResourceKind::Buffer], vec![ResourceKind::Sampler, ResourceKind::TextureView]];
    assert!(!bindings_match(&entries, &swapped));
    let short = vec![vec![ResourceKind::Buffer], vec![ResourceKind::TextureView]];
    assert!(!bindings_match(&entries, &short));
    assert!(!bindings_match(&entries, &vec![vec![ResourceKind::Buffer]]));
    assert!(!bindings_match(&vec![vec![BindingKind::StorageTexture]], &vec![vec![ResourceKind::TextureView]]));
    assert!(bindings_match(&vec![], &vec![]));
}
