use gem::gfs::GemFileSystem;
use gem::texture::{decode_texture, tga_is_decodable};

/// A TGA header of the given image type, size, pixel depth and descriptor,
/// without image id or colour map.
fn header(image_type: u8, width: u16, height: u16, depth: u8, descriptor: u8) -> Vec<u8> {
    let mut bytes = vec![0u8, 0, image_type, 0, 0, 0, 0, 0, 0, 0, 0, 0];
    bytes.extend_from_slice(&width.to_le_bytes());
    bytes.extend_from_slice(&height.to_le_bytes());
    bytes.push(depth);
    bytes.push(descriptor);
    bytes
}

/// An uncompressed true-colour TGA file of `width` x 1 pixels, given as
/// blue-green-red triples.
fn tga(width: u16, bgr: &[[u8; 3]]) -> Vec<u8> {
    let mut bytes = header(2, width, 1, 24, 0);
    for pixel in bgr {
        bytes.extend_from_slice(pixel);
    }
    bytes
}

#[test]
fn tga_pixels_become_rgba() {
    let image = decode_texture(&tga(2, &[[1, 2, 3], [4, 5, 6]])).unwrap();
    assert_eq!((image.width, image.height), (2, 1));
    assert_eq!(image.pixels, vec![3, 2, 1, 255, 6, 5, 4, 255]);
}

#[test]
fn garbage_is_not_a_texture() {
    assert!(!tga_is_decodable(&[1, 2, 3]));
    assert!(decode_texture(&[1, 2, 3]).is_none());
}

#[test]
fn run_length_encoded_texture_decodes() {
    let mut bytes = header(10, 2, 1, 24, 0);
    bytes.extend_from_slice(&[0x81, 1, 2, 3]);
    assert!(tga_is_decodable(&bytes));
    let image = decode_texture(&bytes).unwrap();
    assert_eq!(image.pixels, vec![3, 2, 1, 255, 3, 2, 1, 255]);
}

#[test]
fn truncated_run_length_packet_is_refused() {
    let mut bytes = header(10, 1, 1, 24, 0);
    bytes.extend_from_slice(&[0x81, 1, 2]);
    assert!(!tga_is_decodable(&bytes));
    assert!(decode_texture(&bytes).is_none());
    let mut raw = header(10, 2, 1, 24, 0);
    raw.extend_from_slice(&[0x01, 1, 2, 3, 4]);
    assert!(!tga_is_decodable(&raw));
}

#[test]
fn zero_height_needs_top_left_origin() {
    let bottom_left = header(2, 1, 0, 24, 0);
    assert!(!tga_is_decodable(&bottom_left));
    assert!(decode_texture(&bottom_left).is_none());
    let top_left = header(2, 1, 0, 24, 0x20);
    assert!(tga_is_decodable(&top_left));
    if let Some(image) = decode_texture(&top_left) {
        assert!(image.pixels.is_empty());
    }
}

/// A TGA header of the given image type and map fields, with a 2 x 1 image
/// of the given pixel depth and a top-left origin.
fn mapped_header(image_type: u8, map_type: u8, map_length: u16, entry_bits: u8, depth: u8) -> Vec<u8> {
    let mut bytes = header(image_type, 2, 1, depth, 0x20);
    bytes[1] = map_type;
    bytes[5..7].copy_from_slice(&map_length.to_le_bytes());
    bytes[7] = entry_bits;
    bytes
}

#[test]
fn colour_mapped_texture_decodes() {
    let mut bytes = mapped_header(1, 1, 2, 24, 24);
    bytes.extend_from_slice(&[10, 20, 30, 40, 50, 60]);
    bytes.extend_from_slice(&[0, 0, 1, 0, 0, 0]);
    assert!(tga_is_decodable(&bytes));
    let image = decode_texture(&bytes).unwrap();
    assert_eq!((image.width, image.height), (2, 1));
    assert_eq!(image.pixels, vec![60, 50, 40, 255, 30, 20, 10, 255]);
}

#[test]
fn true_colour_texture_with_a_colour_map_decodes() {
    let mut bytes = mapped_header(2, 1, 1, 24, 24);
    bytes.extend_from_slice(&[7, 8, 9]);
    bytes.extend_from_slice(&[1, 2, 3, 4, 5, 6]);
    assert!(tga_is_decodable(&bytes));
    let image = decode_texture(&bytes).unwrap();
    assert_eq!(image.pixels, vec![3, 2, 1, 255, 6, 5, 4, 255]);
}

#[test]
fn colour_map_index_past_the_map_is_refused() {
    let mut bytes = mapped_header(1, 1, 1, 24, 24);
    bytes.extend_from_slice(&[10, 20, 30]);
    bytes.extend_from_slice(&[0, 0, 0, 0, 0, 1]);
    assert!(!tga_is_decodable(&bytes));
    assert!(decode_texture(&bytes).is_none());
}

#[test]
fn colour_mapped_texture_without_its_map_is_refused() {
    let mut bytes = mapped_header(1, 2, 1, 24, 24);
    bytes.extend_from_slice(&[0, 0, 0, 0, 0, 0]);
    assert!(!tga_is_decodable(&bytes));
    assert!(decode_texture(&bytes).is_none());
}

#[test]
fn one_byte_colour_map_indices_are_refused() {
    let mut bytes = mapped_header(1, 1, 1, 24, 8);
    bytes.extend_from_slice(&[10, 20, 30]);
    bytes.extend_from_slice(&[0, 0]);
    assert!(!tga_is_decodable(&bytes));
    assert!(decode_texture(&bytes).is_none());
    let mut run = mapped_header(9, 1, 1, 24, 8);
    run.extend_from_slice(&[10, 20, 30]);
    run.extend_from_slice(&[0x81, 0]);
    assert!(!tga_is_decodable(&run));
}

#[test]
fn short_last_packet_that_completes_the_image_decodes() {
    let mut bytes = header(10, 2, 1, 24, 0);
    bytes.extend_from_slice(&[0x02, 1, 2, 3, 4, 5, 6]);
    assert!(tga_is_decodable(&bytes));
    let image = decode_texture(&bytes).unwrap();
    assert_eq!(image.pixels, vec![3, 2, 1, 255, 6, 5, 4, 255]);
    let mut repeated = header(10, 2, 1, 24, 0);
    repeated.extend_from_slice(&[0x83, 1, 2, 3]);
    assert!(tga_is_decodable(&repeated));
    let image = decode_texture(&repeated).unwrap();
    assert_eq!(image.pixels, vec![3, 2, 1, 255, 3, 2, 1, 255]);
}

#[test]
fn unsupported_channel_layouts_are_refused() {
    let grey_as_colour = header(2, 1, 1, 8, 0);
    assert!(!tga_is_decodable(&grey_as_colour));
    let mut entry_less_map = tga(1, &[[1, 2, 3]]);
    entry_less_map[1] = 1;
    assert!(!tga_is_decodable(&entry_less_map));
    assert!(decode_texture(&entry_less_map).is_none());
}

#[test]
fn file_system_describes_its_root() {
    let gfs = GemFileSystem::new("res".to_string());
    assert_eq!(gfs.to_string(), "ResourceLoader Path: \"res\"");
}
