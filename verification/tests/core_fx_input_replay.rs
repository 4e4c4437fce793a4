use bedlam_core::fx::Fixed;
use bedlam_core::input::{InputFrame, ENCODED_LEN};
use bedlam_core::replay::{Replay, HEADER_LEN};
use bedlam_core::{CoreError, FORMAT_VERSION};

#[test]
fn one_is_from_int_one() {
    assert_eq!(Fixed::one(), Fixed::from_int(1));
    assert_eq!(Fixed::one().to_raw(), 0x0001_0000);
    assert_eq!(Fixed::neg_one(), Fixed::from_int(-1));
    assert_eq!(Fixed::zero().to_i32_floor(), 0);
}

#[test]
fn int_times_half_is_three_halves() {
    let three = Fixed::from_int(3);
    let half = Fixed::from_ratio(1, 2).unwrap();
    assert_eq!(three.mul(half), Fixed::from_ratio(3, 2).unwrap());
}

#[test]
fn mul_saturates_at_i32_bounds() {
    let big = Fixed::raw(i32::MAX);
    let two = Fixed::from_int(2);
    assert_eq!(big.mul(two).to_raw(), i32::MAX);
    let small = Fixed::raw(i32::MIN);
    assert_eq!(small.mul(two).to_raw(), i32::MIN);
}

#[test]
fn abs_saturates_at_min() {
    assert_eq!(Fixed::raw(i32::MIN).abs().to_raw(), i32::MAX);
    assert_eq!(Fixed::neg_one().abs(), Fixed::one());
}

#[test]
fn div_by_zero_is_none() {
    assert!(Fixed::one().div(Fixed::zero()).is_none());
    let huge = Fixed::raw(i32::MAX).div(Fixed::from_ratio(1, 2).unwrap());
    assert_eq!(huge.unwrap().to_raw(), i32::MAX);
}

#[test]
fn third_times_three_is_within_one_lsb() {
    let third = Fixed::from_ratio(1, 3).unwrap();
    let product = third.mul(Fixed::from_int(3));
    let diff = (product.to_raw() as i64 - Fixed::one().to_raw() as i64).abs();
    assert!(diff <= 1, "raw diff {diff} > 1/65536");
}

#[test]
fn floor_goes_toward_negative_infinity() {
    let neg_half = Fixed::from_ratio(1, 2).unwrap().neg();
    assert_eq!(neg_half.to_i32_floor(), -1);
    assert_eq!(Fixed::from_ratio(1, 2).unwrap().to_i32_floor(), 0);
}

#[test]
fn from_ratio_rejects_zero_denominator_and_overflow() {
    assert!(Fixed::from_ratio(1, 0).is_none());
    assert!(Fixed::from_ratio(i32::MAX, 1).is_none());
    assert!(Fixed::from_ratio(i32::MIN + 1, 1).is_none());
    assert!(Fixed::from_ratio(0x7FFF, 1).is_some());
}

#[test]
fn fixed_add_sub_saturate_and_divide_exactly() {
    assert_eq!(Fixed::raw(i32::MAX).add(Fixed::one()).to_raw(), i32::MAX);
    assert_eq!(Fixed::raw(i32::MIN).sub(Fixed::one()).to_raw(), i32::MIN);
    assert_eq!(Fixed::from_int(3).add(Fixed::from_int(4)), Fixed::from_int(7));
    assert_eq!(Fixed::from_int(3).sub(Fixed::from_int(4)), Fixed::neg_one());
    assert_eq!(
        Fixed::from_int(3).div(Fixed::from_int(2)).unwrap(),
        Fixed::from_ratio(3, 2).unwrap()
    );
    assert_eq!(Fixed::from_ratio(-7, 2).unwrap().to_raw(), -0x38000);
    assert_eq!(Fixed::raw(i32::MIN).neg().to_raw(), i32::MAX);
}

#[test]
fn round_trip_including_negative_deltas() {
    let frame = InputFrame {
        buttons: 0x8000_0001,
        mouse_dx: -300,
        mouse_dy: -1,
        mouse_buttons: 0b11,
    };
    let mut buf = [0xFFu8; ENCODED_LEN];
    frame.to_bytes(&mut buf);
    assert_eq!(InputFrame::from_bytes(&buf), frame);
}

#[test]
fn exact_byte_layout() {
    let frame = InputFrame {
        buttons: 0x0302_0100,
        mouse_dx: 0x0504,
        mouse_dy: 0x0706,
        mouse_buttons: 0x08,
    };
    let mut buf = [0xAAu8; ENCODED_LEN];
    frame.to_bytes(&mut buf);
    assert_eq!(
        buf,
        [0x00, 0x01, 0x02, 0x03, 0x04, 0x05, 0x06, 0x07, 0x08, 0x00, 0x00, 0x00]
    );
}

fn sample(frames: usize) -> Replay {
    let mut inputs = Vec::with_capacity(frames);
    for i in 0..frames {
        inputs.push(InputFrame {
            buttons: i as u32 * 31 + 7,
            mouse_dx: (i as i16).wrapping_mul(3) - 500,
            mouse_dy: 500 - (i as i16).wrapping_mul(2),
            mouse_buttons: (i % 3) as u8,
        });
    }
    Replay {
        version: FORMAT_VERSION,
        tick_hz: 60,
        seed: 0xABCD_1234,
        initial_state_hash: 0x1111_2222_3333_4444,
        inputs,
    }
}

#[test]
fn round_trip_empty() {
    let replay = sample(0);
    let parsed = Replay::parse(&replay.to_bytes()).unwrap();
    assert_eq!(parsed, replay);
    assert_eq!(replay.to_bytes().len(), HEADER_LEN);
}

#[test]
fn round_trip_1000_frames() {
    let replay = sample(1000);
    let bytes = replay.to_bytes();
    assert_eq!(bytes.len(), HEADER_LEN + 1000 * ENCODED_LEN);
    let parsed = Replay::parse(&bytes).unwrap();
    assert_eq!(parsed, replay);
}

#[test]
fn every_single_byte_truncation_fails() {
    let bytes = sample(3).to_bytes();
    for i in 0..bytes.len() {
        let err = Replay::parse(&bytes[..i]).unwrap_err();
        assert!(
            matches!(err, CoreError::Truncated { .. }),
            "truncation at {i} gave {err:?}"
        );
    }
}

#[test]
fn flipped_magic_byte_is_bad_magic() {
    let mut bytes = sample(2).to_bytes();
    bytes[0] ^= 0xFF;
    assert_eq!(Replay::parse(&bytes), Err(CoreError::BadMagic));
}

#[test]
fn version_two_is_unsupported() {
    let mut bytes = sample(2).to_bytes();
    bytes[4] = 2;
    bytes[5] = 0;
    assert_eq!(Replay::parse(&bytes), Err(CoreError::UnsupportedVersion(2)));
}

#[test]
fn leftover_bytes_are_tick_count_mismatch() {
    let mut bytes = sample(2).to_bytes();
    bytes.extend_from_slice(&[0u8; 12]);
    assert_eq!(
        Replay::parse(&bytes),
        Err(CoreError::TickCountMismatch {
            declared: 2,
            actual: 3
        })
    );
}

#[test]
fn declared_count_past_the_buffer_is_truncated() {
    let mut bytes = sample(2).to_bytes();
    bytes[28] = 5;
    assert_eq!(
        Replay::parse(&bytes),
        Err(CoreError::Truncated {
            needed: HEADER_LEN + 5 * ENCODED_LEN,
            have: HEADER_LEN + 2 * ENCODED_LEN
        })
    );
    let short = [0u8; 7];
    assert_eq!(
        Replay::parse(&short),
        Err(CoreError::Truncated {
            needed: HEADER_LEN,
            have: 7
        })
    );
}
