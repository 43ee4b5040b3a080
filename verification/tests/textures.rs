use raycaster::color::Color;
use raycaster::texture::{check_size, load_png, Texture, TextureError, TEXTURE_BYTES,
    TEXTURE_SIZE};

fn encode(width: u32, height: u32, color: png::ColorType, data: &[u8]) -> Vec<u8> {
    let mut file = Vec::new();
    {
        let mut encoder = png::Encoder::new(&mut file, width, height);
        encoder.set_color(color);
        encoder.set_depth(png::BitDepth::Eight);
        let mut writer = encoder.write_header().unwrap();
        writer.write_image_data(data).unwrap();
    }
    file
}

fn pattern(len: usize) -> Vec<u8> {
    (0..len).map(|i| ((i * 7 + i / 192) % 251) as u8).collect()
}

#[test]
fn sizes_of_a_texture() {
    assert_eq!(TEXTURE_SIZE, 64);
    assert_eq!(TEXTURE_BYTES, 64 * 64 * 3);
}

#[test]
fn a_texture_has_all_its_bytes() {
    assert!(Texture::from_rgb(vec![0; TEXTURE_BYTES]).is_some());
    assert!(Texture::from_rgb(vec![0; TEXTURE_BYTES - 1]).is_none());
    assert!(Texture::from_rgb(vec![0; TEXTURE_BYTES + 1]).is_none());
    assert!(Texture::from_rgb(Vec::new()).is_none());
}

#[test]
fn texels_lie_in_rows() {
    let pixels = pattern(TEXTURE_BYTES);
    let texture = Texture::from_rgb(pixels.clone()).unwrap();
    assert_eq!(texture.pixels, pixels);
    assert_eq!(texture.sample(0, 0), Color { r: pixels[0], g: pixels[1], b: pixels[2] });
    assert_eq!(texture.sample(1, 0), Color { r: pixels[3], g: pixels[4], b: pixels[5] });
    assert_eq!(texture.sample(0, 1), Color { r: pixels[192], g: pixels[193], b: pixels[194] });
    let at = (64 * 63 + 63) * 3;
    assert_eq!(
        texture.sample(63, 63),
        Color { r: pixels[at], g: pixels[at + 1], b: pixels[at + 2] }
    );
    let at = (64 * 11 + 32) * 3;
    assert_eq!(
        texture.sample(32, 11),
        Color { r: pixels[at], g: pixels[at + 1], b: pixels[at + 2] }
    );
}

#[test]
fn colors_dim_and_show_through() {
    let c = Color { r: 255, g: 100, b: 1 };
    assert_eq!(c.darken(), Color { r: 127, g: 50, b: 0 });
    assert!(!c.is_transparent());
    assert!(Color { r: 0, g: 0, b: 0 }.is_transparent());
    assert!(!Color { r: 0, g: 0, b: 1 }.is_transparent());
    assert!(!Color { r: 0, g: 1, b: 0 }.is_transparent());
    assert!(!Color { r: 1, g: 0, b: 0 }.is_transparent());
}

#[test]
fn a_file_decodes_to_its_pixels() {
    let pixels = pattern(TEXTURE_BYTES);
    let file = encode(64, 64, png::ColorType::RGB, &pixels);
    assert_ne!(file, pixels);
    let decoded = load_png(&file).unwrap();
    assert_eq!(decoded, pixels);
    let texture = Texture::from_rgb(decoded).unwrap();
    assert_eq!(texture.sample(5, 9), Color {
        r: pixels[(64 * 9 + 5) * 3],
        g: pixels[(64 * 9 + 5) * 3 + 1],
        b: pixels[(64 * 9 + 5) * 3 + 2],
    });
}

#[test]
fn a_file_decodes_to_a_texture() {
    let pixels = pattern(TEXTURE_BYTES);
    let file = encode(64, 64, png::ColorType::RGB, &pixels);
    let texture = Texture::from_png(&file).unwrap();
    assert_eq!(texture.pixels, pixels);
    assert!(matches!(Texture::from_png(&file[..40]), Err(TextureError::Decode(_))));
    let small = encode(4, 4, png::ColorType::RGB, &pattern(48));
    assert!(matches!(Texture::from_png(&small), Err(TextureError::Size(48))));
}

#[test]
fn a_picture_of_grey_levels_is_refused() {
    let file = encode(64, 64, png::ColorType::Grayscale, &pattern(64 * 64));
    assert!(matches!(load_png(&file), Err(TextureError::Size(4096))));
}

#[test]
fn a_file_that_is_no_picture_is_refused() {
    assert!(matches!(load_png(&[]), Err(TextureError::Decode(_))));
    assert!(matches!(load_png(b"not a picture at all"), Err(TextureError::Decode(_))));
    // raw pixels are no file
    let pixels = pattern(TEXTURE_BYTES);
    assert!(matches!(load_png(&pixels), Err(TextureError::Decode(_))));
    // a file cut short
    let file = encode(64, 64, png::ColorType::RGB, &pixels);
    assert!(matches!(load_png(&file[..file.len() / 2]), Err(TextureError::Decode(_))));
}

#[test]
fn a_picture_of_another_size_is_refused() {
    let file = encode(2, 2, png::ColorType::RGB, &pattern(12));
    assert!(matches!(load_png(&file), Err(TextureError::Size(12))));
    let file = encode(64, 32, png::ColorType::RGB, &pattern(64 * 32 * 3));
    assert!(matches!(load_png(&file), Err(TextureError::Size(6144))));
}

#[test]
fn a_picture_with_a_fourth_channel_is_refused() {
    let file = encode(64, 64, png::ColorType::RGBA, &pattern(64 * 64 * 4));
    assert!(matches!(load_png(&file), Err(TextureError::Size(16384))));
}

#[test]
fn only_the_size_of_a_texture_passes() {
    assert!(check_size(TEXTURE_BYTES).is_ok());
    assert!(matches!(check_size(TEXTURE_BYTES - 1), Err(TextureError::Size(12287))));
    assert!(matches!(check_size(TEXTURE_BYTES + 1), Err(TextureError::Size(12289))));
    assert!(matches!(check_size(0), Err(TextureError::Size(0))));
    assert!(matches!(check_size(usize::MAX), Err(TextureError::Size(usize::MAX))));
}

#[test]
fn a_header_that_promises_too_much_is_refused_before_decoding() {
    // the header of a picture of 60000 by 60000 pixels, and no data
    let mut file = encode(1, 1, png::ColorType::RGB, &[1, 2, 3]);
    let wide = 60000u32.to_be_bytes();
    file[16..20].copy_from_slice(&wide);
    file[20..24].copy_from_slice(&wide);
    let mut crc = 0xFFFF_FFFFu32;
    for &byte in &file[12..29] {
        crc ^= byte as u32;
        for _ in 0..8 {
            crc = if crc & 1 == 1 { (crc >> 1) ^ 0xEDB8_8320 } else { crc >> 1 };
        }
    }
    file[29..33].copy_from_slice(&(!crc).to_be_bytes());
    assert!(matches!(load_png(&file), Err(TextureError::Size(10_800_000_000))));
}
