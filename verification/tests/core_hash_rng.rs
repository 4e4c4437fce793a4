use bedlam_core::hash::{fnv1a64, Fnv1a64, StateHash};
use bedlam_core::rng::Pcg32;

#[test]
fn public_vectors() {
    assert_eq!(fnv1a64(b""), 0xcbf29ce484222325);
    assert_eq!(fnv1a64(b"a"), 0xaf63dc4c8601ec8c);
    assert_eq!(fnv1a64(b"foobar"), 0x85944171f73967e8);
}

#[test]
fn write_u32_equals_four_le_bytes() {
    let mut a = Fnv1a64::new();
    a.write_u32(0xDEAD_BEEF);
    assert_eq!(a.finish(), fnv1a64(&[0xEF, 0xBE, 0xAD, 0xDE]));

    let mut b = Fnv1a64::new();
    b.write_u64(0x0102_0304_0506_0708);
    assert_eq!(
        b.finish(),
        fnv1a64(&[0x08, 0x07, 0x06, 0x05, 0x04, 0x03, 0x02, 0x01])
    );

    let mut c = Fnv1a64::new();
    c.write_i32(-1);
    assert_eq!(c.finish(), fnv1a64(&[0xFF; 4]));
}

#[test]
fn incremental_equals_one_shot() {
    let mut h = Fnv1a64::new();
    h.write_bytes(b"foo");
    h.write_bytes(b"bar");
    assert_eq!(h.finish(), fnv1a64(b"foobar"));
}

#[test]
fn state_hash_formatting() {
    let h = StateHash(0xDEAD_BEEF);
    assert_eq!(h.to_lower_hex(), "00000000deadbeef");
    assert_eq!(h.to_lower_hex(), "00000000deadbeef");
    assert_eq!(h.to_upper_hex(), "00000000DEADBEEF");
}

#[test]
fn hash_writers_follow_little_endian_order() {
    let mut a = Fnv1a64::new();
    a.write_u16(0x0102);
    a.write_i16(-2);
    a.write_i64(-1);
    a.write_u8(7);
    let mut bytes = vec![0x02u8, 0x01, 0xFE, 0xFF];
    bytes.extend_from_slice(&[0xFF; 8]);
    bytes.push(7);
    assert_eq!(a.finish(), fnv1a64(&bytes));
    assert_eq!(Fnv1a64::default().finish(), 0xcbf29ce484222325);
}

#[test]
fn bounded_always_in_range() {
    for &max in &[7u32, 1u32] {
        let mut rng = Pcg32::new(42, 7);
        for _ in 0..100_000 {
            let v = rng.bounded(max);
            assert!(v < max, "bounded({max}) returned {v}");
        }
    }
}

#[test]
fn bounded_four_bucket_uniformity_smoke() {
    let mut rng = Pcg32::new(1234, 3);
    let mut buckets = [0usize; 4];
    for _ in 0..40_000 {
        buckets[rng.bounded(4) as usize] += 1;
    }
    for (i, &count) in buckets.iter().enumerate() {
        assert!(
            (8_000..=12_000).contains(&count),
            "bucket {i} count {count} outside 20% of mean"
        );
    }
}

#[test]
fn same_seed_and_stream_reproduce() {
    let mut a = Pcg32::new(99, 5);
    let mut b = Pcg32::new(99, 5);
    for _ in 0..16 {
        assert_eq!(a.next_u32(), b.next_u32());
    }
    assert_eq!(a.state(), b.state());
    assert_eq!(a.stream(), b.stream());
}

#[test]
fn different_stream_diverges() {
    let mut a = Pcg32::new(99, 5);
    let mut b = Pcg32::new(99, 6);
    let differs = (0..8).any(|_| a.next_u32() != b.next_u32());
    assert!(differs, "distinct streams produced identical output");
    assert_eq!(a.stream() & 1, 1);
    assert_eq!(b.stream() & 1, 1);
}

#[test]
fn next_u64_word_order_is_pinned() {
    let mut a = Pcg32::new(7, 11);
    let v = a.next_u64();
    let mut b = Pcg32::new(7, 11);
    let lo = u64::from(b.next_u32());
    let hi = u64::from(b.next_u32());
    assert_eq!(v, (hi << 32) | lo);
}

#[test]
fn from_raw_parts_round_trips() {
    let mut rng = Pcg32::new(5, 9);
    rng.next_u32();
    rng.next_u32();
    let rebuilt = Pcg32::from_raw_parts(rng.state(), rng.stream());
    let mut rebuilt = rebuilt;
    assert_eq!(rng.next_u32(), rebuilt.next_u32());
}

#[test]
fn seeding_steps_the_state_once() {
    // inc = splitmix64(stream) | 1, state = one LCG step past
    // splitmix64(seed): two generators with the same parts agree.
    let a = Pcg32::new(0, 0);
    let b = Pcg32::from_raw_parts(a.state(), a.stream());
    assert_eq!(a, b);
    assert_eq!(a.stream() & 1, 1);
}

#[test]
fn power_of_two_bound_takes_exactly_one_draw() {
    let mut a = Pcg32::new(99, 7);
    let mut b = Pcg32::from_raw_parts(a.state(), a.stream());
    let r = a.bounded(8);
    let x = b.next_u32();
    assert_eq!(r, x % 8);
    assert_eq!(a.state(), b.state());
}
