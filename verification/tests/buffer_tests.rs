//! The row buffer, the leasing discipline and the encoder.

use rust_ray_tracer::buffer::Buffer;
use rust_ray_tracer::color::{black, color_bytes, white, Color};
use rust_ray_tracer::fix::Fix;

#[test]
fn test_clamp() {
    let value = (256_f64 * 0.999) as u16;
    assert_eq!(255, value);
}

fn fill_buffer(width: usize, height: usize, c: Color) -> Buffer {
    let mut buffer = Buffer::new(width, height);
    while let Some((row, mut line)) = buffer.get_line() {
        for _ in 0..width {
            line.push(c);
        }
        buffer.push_line(row, line);
    }
    buffer
}

#[test]
fn every_row_is_leased_exactly_once() {
    let height = 5;
    let mut buffer = Buffer::new(3, height);
    let mut seen = vec![0usize; height];
    let mut leases = Vec::new();
    while let Some((row, line)) = buffer.get_line() {
        assert!(row < height);
        seen[row] += 1;
        leases.push((row, line));
    }
    for count in &seen {
        assert_eq!(*count, 1);
    }
    assert_eq!(buffer.leased_lines(), height);
    assert_eq!(buffer.returned_lines(), 0);
    assert!(!buffer.complete());
    let width = buffer.width();
    for (row, mut line) in leases {
        for _ in 0..width {
            line.push(black());
        }
        buffer.push_line(row, line);
    }
    assert_eq!(buffer.returned_lines(), height);
    assert!(buffer.complete());
}

#[test]
fn white_buffer_encodes_to_255_lines() {
    let buffer = fill_buffer(2, 2, white());
    let bytes = buffer.encode();
    let expected = "P3\n2 2\n256\n255 255 255\n255 255 255\n255 255 255\n255 255 255\n";
    assert_eq!(bytes, expected.as_bytes().to_vec());
}

#[test]
fn black_buffer_encodes_to_0_lines() {
    let buffer = fill_buffer(3, 2, black());
    let bytes = buffer.encode();
    let expected = "P3\n3 2\n256\n0 0 0\n0 0 0\n0 0 0\n0 0 0\n0 0 0\n0 0 0\n";
    assert_eq!(bytes, expected.as_bytes().to_vec());
}

#[test]
fn rows_are_emitted_top_to_bottom() {
    let mut buffer = Buffer::new(1, 2);
    let width = buffer.width();
    while let Some((row, mut line)) = buffer.get_line() {
        let c = if row == 0 {
            black()
        } else {
            white()
        };
        for _ in 0..width {
            line.push(c);
        }
        buffer.push_line(row, line);
    }
    // Row 1 (the top of the image) leaves first.
    let bytes = buffer.encode();
    let expected = "P3\n1 2\n256\n255 255 255\n0 0 0\n";
    assert_eq!(bytes, expected.as_bytes().to_vec());
}

#[test]
fn channels_clamp_into_a_byte() {
    let c = Color::new(Fix::from_int(2), Fix::from_int(-1), Fix::from_micros(500_000));
    let (r, g, b) = color_bytes(&c);
    assert_eq!(r, 255);
    assert_eq!(g, 0);
    assert_eq!(b, 128);
}
