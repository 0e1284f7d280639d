use std::io::Cursor;

use anaglyph::buffer::PixelBuffer;
use anaglyph::color::Coloring;
use anaglyph::compositor::compose;

/// A PNG file, in memory, of a picture of `width` by `height` pixels.
fn picture(width: u32, height: u32) -> Vec<u8> {
    let mut data = Vec::new();
    for y in 0..height {
        for x in 0..width {
            data.push((x * 7 + y * 3) as u8);
            data.push((x * y) as u8);
            data.push((255 - x - y) as u8);
        }
    }
    encode(&data, width, height)
}

fn encode(data: &[u8], width: u32, height: u32) -> Vec<u8> {
    let mut file = Cursor::new(Vec::new());
    image::write_buffer_with_format(
        &mut file,
        data,
        width,
        height,
        image::ColorType::Rgb8,
        image::ImageFormat::Png,
    )
    .unwrap();
    file.into_inner()
}

fn decode(file: &[u8]) -> PixelBuffer {
    let img = image::load_from_memory(file).unwrap().to_rgb8();
    let (width, height) = img.dimensions();
    PixelBuffer::new(width as usize, height as usize, img.into_raw()).unwrap()
}

/// Decodes `file`, composes, encodes, and decodes what was encoded.
fn round_trip(file: &[u8], offset_x: isize, offset_y: isize, coloring: Coloring) -> PixelBuffer {
    let input = decode(file);
    let out = compose(&input, offset_x, offset_y, coloring).unwrap();
    let written = encode(out.as_raw(), out.width() as u32, out.height() as u32);
    let read = decode(&written);
    assert_eq!(read.as_raw(), out.as_raw());
    read
}

#[test]
fn every_coloring_survives_the_codec() {
    let file = picture(40, 30);
    let colorings = [
        Coloring::RedGreen,
        Coloring::RedBlue,
        Coloring::RedCyan,
        Coloring::Anachrome,
        Coloring::Mirachrome,
        Coloring::Trioscopic,
        Coloring::Colorcode3D,
        Coloring::MagentaCyan,
    ];
    for coloring in colorings {
        let read = round_trip(&file, 10, -6, coloring);
        assert_eq!((read.width(), read.height()), (35, 27));
    }
}

#[test]
fn output_file_center() {
    let read = round_trip(&picture(160, 120), 0, 0, Coloring::Colorcode3D);
    assert_eq!((read.width(), read.height()), (160, 120));
}

#[test]
fn output_file_bottomright() {
    let read = round_trip(&picture(160, 120), 100, 20, Coloring::RedCyan);
    assert_eq!((read.width(), read.height()), (110, 110));
}

#[test]
fn output_file_topright() {
    let read = round_trip(&picture(160, 120), 70, -14, Coloring::RedGreen);
    assert_eq!((read.width(), read.height()), (125, 113));
}

#[test]
fn output_file_bottomleft() {
    let read = round_trip(&picture(160, 120), -30, 8, Coloring::Anachrome);
    assert_eq!((read.width(), read.height()), (145, 116));
}

#[test]
fn output_file_topleft() {
    let read = round_trip(&picture(160, 120), -10, -2, Coloring::Trioscopic);
    assert_eq!((read.width(), read.height()), (155, 119));
}
