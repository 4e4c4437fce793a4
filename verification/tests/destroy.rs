use bedlam_core::destroy::{parse_trt, zone_trigger_code};

#[test]
fn zone_trigger_codes_match_the_tables() {
    assert_eq!(zone_trigger_code(1, 1), Some(5));
    assert_eq!(zone_trigger_code(4, 7), Some(5));
    assert_eq!(zone_trigger_code(2, 1), Some(0x84));
    assert_eq!(zone_trigger_code(7, 1), Some(0x84));
    assert_eq!(zone_trigger_code(5, 1), Some(0x2f));
    assert_eq!(zone_trigger_code(6, 1), Some(0x2710), "the never-code");
    assert_eq!(zone_trigger_code(3, 1), Some(0x6f));
    assert_eq!(zone_trigger_code(3, 2), Some(0x7e));
    assert_eq!(zone_trigger_code(3, 5), Some(0x88));
    assert_eq!(zone_trigger_code(3, 6), None, "missions 6/7 match nothing");
    assert_eq!(zone_trigger_code(0, 1), None);
    assert_eq!(zone_trigger_code(8, 1), None);
}

#[test]
fn trt_records_carry_the_turret_hp_formula() {
    let mut bytes = vec![2u8, 0];
    for v in [1u32, 2, 3, 0xFFFF_FFFF, 5, 6] {
        bytes.extend_from_slice(&v.to_le_bytes());
    }
    let recs = parse_trt(&bytes, 5).unwrap();
    assert_eq!(recs.len(), 2);
    // hp = 250 + (250*5)/27 = 250 + 46.
    assert_eq!(recs[0].hp, 296);
    assert!(recs[0].active);
    assert_eq!((recs[0].x, recs[0].y, recs[0].z), (1, 2, 3));
    assert_eq!((recs[1].x, recs[1].y, recs[1].z), (-1, 5, 6));
    assert!(parse_trt(&bytes[..bytes.len() - 1], 5).is_none());
    assert!(parse_trt(&[1], 5).is_none());
    assert_eq!(parse_trt(&[0, 0], 0).unwrap().len(), 0);
}
