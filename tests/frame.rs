use pathtracer::frame::{cast, cast_slice, Consts, SAMPLES};

fn size_bits(w: f32, h: f32) -> [u32; 2] {
    [w.to_bits(), h.to_bits()]
}

#[test]
fn first_frame_counts_one_sample() {
    let c = Consts::new(size_bits(800.0, 600.0), 7);
    assert_eq!(c.samples, 1);
    assert_eq!(c.rand, 7);
    assert_eq!(c.zero, 0);
    assert_eq!(c.completed(), 0);
    assert!(c.needs_sample());
}

#[test]
fn accumulation_stops_at_budget() {
    let mut c = Consts::new(size_bits(4.0, 4.0), 0);
    let mut frames = 0u32;
    while c.needs_sample() {
        c.advance(frames);
        frames += 1;
    }
    assert_eq!(frames, SAMPLES);
    assert_eq!(c.samples, SAMPLES + 1);
    assert_eq!(c.completed(), SAMPLES);
    assert_eq!(c.rand, SAMPLES - 1);
}

#[test]
fn resize_restarts_accumulation() {
    let mut c = Consts::new(size_bits(800.0, 600.0), 3);
    c.advance(9);
    c.advance(10);
    assert_eq!(c.samples, 3);
    c.resize(size_bits(1024.0, 768.0));
    assert_eq!(c.samples, 1);
    assert_eq!(c.rand, 10);
    assert_eq!(f32::from_bits(c.size[0]), 1024.0);
    assert_eq!(f32::from_bits(c.size[1]), 768.0);
}

#[test]
fn advance_counts_one_more_sample() {
    let mut c = Consts::new(size_bits(8.0, 8.0), 0);
    c.advance(11);
    c.advance(12);
    assert_eq!(c.samples, 3);
    assert_eq!(c.completed(), 2);
    assert_eq!(c.rand, 12);
    assert_eq!(f32::from_bits(c.size[0]), 8.0);
}

#[test]
fn uniform_block_bytes() {
    let c = Consts::new(size_bits(800.0, 600.0), 7);
    let bytes = cast(&c);
    let mut expected = vec![0x00, 0x00, 0x48, 0x44, 0x00, 0x00, 0x16, 0x44, 7, 0, 0, 0, 1, 0, 0, 0];
    expected.extend([0u8; 16]);
    assert_eq!(bytes, expected);
}

#[test]
fn words_become_little_endian_bytes() {
    assert_eq!(
        cast_slice(&[0x0403_0201, 0xdead_beef]),
        vec![1, 2, 3, 4, 0xef, 0xbe, 0xad, 0xde]
    );
    assert!(cast_slice(&[]).is_empty());
}
