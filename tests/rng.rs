use pathtracer::rng::{hash, pixel_index, Rng};

#[test]
fn hash_of_zero_is_zero() {
    assert_eq!(hash(0), 0);
}

#[test]
fn hash_known_values() {
    assert_eq!(hash(1), 0x009d_bee6);
    assert_eq!(hash(2), 0xcec9_98a9);
    assert_eq!(hash(255), 0x4a9d_7870);
    assert_eq!(hash(256), 0x7522_548c);
    assert_eq!(hash(12345), 0xc400_de64);
    assert_eq!(hash(u32::MAX), 0x21c0_88bc);
}

#[test]
fn draws_from_seed_zero() {
    let mut rng = Rng::new(0);
    assert_eq!(rng.gen_bits(), 0x4000_0000);
    assert_eq!(rng.gen_bits(), 0x4056_da54);
    assert_eq!(rng.gen_bits(), 0x406b_648d);
    assert_eq!(rng.state, 0xd6c9_1b17);
}

#[test]
fn draws_lie_in_two_to_four() {
    let mut rng = Rng::new(0x1234_5678);
    for _ in 0..10_000 {
        let x = f32::from_bits(rng.gen_bits());
        assert!((2.0..4.0).contains(&x));
        let u = x - 3.0;
        assert!((-1.0..1.0).contains(&u));
    }
}

#[test]
fn same_seed_gives_same_stream() {
    let mut a = Rng::new(12345);
    let mut b = Rng::new(12345);
    let first: Vec<u32> = (0..64).map(|_| a.gen_bits()).collect();
    let second: Vec<u32> = (0..64).map(|_| b.gen_bits()).collect();
    assert_eq!(first, second);
    assert_eq!(first[0], 0x4046_790d);
    assert_eq!(first[1], 0x4054_4edb);
}

#[test]
fn stream_continues_across_batches() {
    let mut whole = Rng::new(99);
    let all: Vec<u32> = (0..20).map(|_| whole.gen_bits()).collect();
    let mut split = Rng::new(99);
    let mut parts: Vec<u32> = (0..7).map(|_| split.gen_bits()).collect();
    let mut rest = Rng::new(split.state);
    parts.extend((0..13).map(|_| rest.gen_bits()));
    assert_eq!(all, parts);
}

#[test]
fn pixel_streams_are_distinct() {
    let frame_rand = 0xdead_beef;
    let mut seen = std::collections::HashSet::new();
    for index in 0..10_000u32 {
        let mut rng = Rng::for_pixel(frame_rand, index);
        let draws = (rng.gen_bits(), rng.gen_bits(), rng.gen_bits());
        assert!(seen.insert(draws), "pixel {} repeats an earlier stream", index);
    }
}

#[test]
fn pixel_seed_mixes_frame_word() {
    assert_eq!(Rng::for_pixel(0, 1).state, 0x009d_bee6);
    assert_eq!(Rng::for_pixel(0xffff_ffff, 0).state, 0xffff_ffff);
    assert_eq!(Rng::for_pixel(5, 2).state, 0xcec9_98a9 ^ 5);
}

#[test]
fn hash_tells_apart_first_keys() {
    let mut seen = std::collections::HashSet::new();
    for key in 0..0x4000u32 {
        assert!(seen.insert(hash(key)), "key {} repeats an earlier hash", key);
    }
}

#[test]
fn pixel_index_is_row_major() {
    assert_eq!(pixel_index(0, 0, 800), 0);
    assert_eq!(pixel_index(799, 0, 800), 799);
    assert_eq!(pixel_index(0, 1, 800), 800);
    assert_eq!(pixel_index(5, 3, 800), 2405);
    assert_eq!(pixel_index(0, 1, 1), 1);
}

#[test]
fn wide_viewport_pixels_get_distinct_streams() {
    let (width, height) = (160u32, 90u32);
    let mut seen = std::collections::HashSet::new();
    for y in 0..height {
        for x in 0..width {
            let rng = Rng::for_pixel(0x0bad_f00d, pixel_index(x, y, width));
            assert!(seen.insert(rng.state), "pixel ({}, {}) repeats a seed", x, y);
        }
    }
}
