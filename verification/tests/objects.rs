use bedlam_core::objects::{
    debris_kind_config, debris_seq_table, debris_seq_tables, DebrisScorch, ObjectEffectEntry,
    ObjectTypeTable, DEBRIS_SEQ_0, DEBRIS_SEQ_10, DEBRIS_SEQ_5, DEBRIS_SEQ_6, OBJECT_TYPE_SLOTS,
};

fn push16(out: &mut Vec<u8>, v: u16) {
    out.extend_from_slice(&v.to_le_bytes());
}

fn push32(out: &mut Vec<u8>, v: i32) {
    out.extend_from_slice(&v.to_le_bytes());
}

/// An active record of footprint `w x h x d` whose bank words count up
/// from `first`.
fn active_record(w: u16, h: u16, d: u16, hp: i32, chain: u16, kind: i32, first: u16) -> Vec<u8> {
    let mut r = Vec::new();
    push16(&mut r, 1);
    push16(&mut r, w);
    push16(&mut r, h);
    push16(&mut r, d);
    push32(&mut r, hp);
    push16(&mut r, chain);
    push32(&mut r, kind);
    for m in 0..5u16 {
        push16(&mut r, m + 1);
        push16(&mut r, 10 * m);
        push16(&mut r, 20 * m);
        push16(&mut r, 30 * m);
    }
    assert_eq!(r.len(), 0x3A);
    let cells = (w as usize) * (h as usize) * (d as usize);
    for i in 0..4 * cells {
        push16(&mut r, first + i as u16);
    }
    r
}

#[test]
fn bdg_parses_empty_and_active_records() {
    let mut bytes = Vec::new();
    push16(&mut bytes, 0); // empty record
    bytes.extend(active_record(2, 1, 1, 500, 1, 0xb, 100));
    push16(&mut bytes, 7); // another empty record (control != 1)
    let t = ObjectTypeTable::from_bdg_bytes(&bytes).expect("parses");
    assert_eq!(t.rows.len(), 3);
    assert_eq!(t.rows[0].w, 0);
    assert!(t.rows[0].bank_under_tot.is_empty());
    let row = &t.rows[1];
    assert_eq!((row.w, row.h, row.d), (2, 1, 1));
    assert_eq!(row.hp, 500);
    assert_eq!(row.chain, 1);
    assert_eq!(row.kind, 0xb);
    assert_eq!(row.count, 0);
    assert_eq!(
        row.effects[2],
        ObjectEffectEntry { selector: 3, dx: 20, dy: 40, dz: 60 }
    );
    assert_eq!(row.bank_current_tot, vec![100, 101]);
    assert_eq!(row.bank_under_tot, vec![102, 103]);
    assert_eq!(row.bank_current_dat, vec![104, 105]);
    assert_eq!(row.bank_under_dat, vec![106, 107]);
    assert_eq!(t.rows[2].hp, 0);
}

#[test]
fn bdg_empty_file_is_an_empty_table() {
    let t = ObjectTypeTable::from_bdg_bytes(&[]).expect("parses");
    assert!(t.rows.is_empty());
}

#[test]
fn bdg_negative_hp_reads_signed() {
    let bytes = active_record(1, 1, 1, -1, 0, 0x44, 0);
    let t = ObjectTypeTable::from_bdg_bytes(&bytes).expect("parses");
    assert_eq!(t.rows[0].hp, -1);
    assert_eq!(t.rows[0].kind, 0x44);
}

#[test]
fn bdg_cut_short_records_fail() {
    // One odd byte cannot hold a control word.
    assert!(ObjectTypeTable::from_bdg_bytes(&[0]).is_none());
    // An active head cut short.
    let full = active_record(1, 2, 1, 9, 0, 1, 0);
    assert!(ObjectTypeTable::from_bdg_bytes(&full[..0x20]).is_none());
    // The banks cut short by one byte.
    assert!(ObjectTypeTable::from_bdg_bytes(&full[..full.len() - 1]).is_none());
    assert!(ObjectTypeTable::from_bdg_bytes(&full).is_some());
}

#[test]
fn bdg_reads_at_most_282_records_and_rejects_the_rest() {
    let mut bytes = Vec::new();
    for _ in 0..OBJECT_TYPE_SLOTS {
        push16(&mut bytes, 0);
    }
    let t = ObjectTypeTable::from_bdg_bytes(&bytes).expect("exactly 282 records parse");
    assert_eq!(t.rows.len(), OBJECT_TYPE_SLOTS);
    push16(&mut bytes, 0);
    assert!(ObjectTypeTable::from_bdg_bytes(&bytes).is_none());
}

#[test]
fn debris_walks_follow_the_kind_table() {
    assert_eq!(debris_seq_table(1), &DEBRIS_SEQ_0[..]);
    assert_eq!(debris_seq_table(14), &DEBRIS_SEQ_0[..]);
    assert_eq!(debris_seq_table(8), &DEBRIS_SEQ_6[..]);
    assert_eq!(debris_seq_table(10), &DEBRIS_SEQ_10[..]);
    assert_eq!(debris_seq_table(20), &DEBRIS_SEQ_5[..]);
    assert_eq!(debris_seq_table(0), &[-1][..]);
    assert_eq!(debris_seq_table(21), &[-1][..]);
    assert_eq!(debris_seq_tables(6), &[0, 1, 2, 3, 4, -1][..]);
    for i in 0..11 {
        assert_eq!(*debris_seq_tables(i).last().unwrap(), -1);
    }
}

#[test]
fn debris_kind_config_rows() {
    let (t, phys, init, scorch) = debris_kind_config(2);
    assert_eq!(t, &DEBRIS_SEQ_6[..]);
    assert_eq!((phys, init, scorch), (0, 0x20, DebrisScorch::Center(3)));
    let (_, phys, init, scorch) = debris_kind_config(8);
    assert_eq!((phys, init, scorch), (2, 0x20, DebrisScorch::Center(4)));
    let (_, phys, init, scorch) = debris_kind_config(9);
    assert_eq!((phys, init, scorch), (3, 0x40, DebrisScorch::Ring));
    let (t, phys, init, scorch) = debris_kind_config(17);
    assert_eq!(t, debris_seq_tables(4));
    assert_eq!((phys, init, scorch), (6, 0x40, DebrisScorch::Nothing));
    let (t, phys, init, scorch) = debris_kind_config(99);
    assert_eq!(t, &[-1][..]);
    assert_eq!((phys, init, scorch), (0, 0x40, DebrisScorch::Nothing));
}

fn seq_sim() -> bedlam_core::mission::MissionSim {
    let terrain = bedlam_core::mission::Terrain::from_parts(32, 32, vec![0u8; 8 * 32 * 32], Vec::new())
        .expect("terrain");
    let angles = bedlam_core::mission::AngleTable::from_thresholds(&[0u16; 64]).expect("thresholds");
    bedlam_core::mission::MissionSim::new(terrain, angles, 0xDEAD_BEEF)
}

#[test]
fn staged_table_index_is_pinned_for_every_kind() {
    let tables: Vec<&[i16]> = (0..11).map(bedlam_core::objects::debris_seq_tables).collect();
    for kind in 1..=20i32 {
        let expected = tables
            .iter()
            .position(|t| *t == bedlam_core::objects::debris_seq_table(kind))
            .expect("every kind maps into the sequence tables");
        let mut s = seq_sim();
        assert!(s.stage_debris(4 * 0x20 + 0x10, 4 * 0x20 + 0x10, 0x20, kind, 0, -1), "kind {kind} stages");
        assert_eq!(s.debris_bank()[0].table as usize, expected, "kind {kind} stages table {expected}");
    }
}

#[test]
fn every_kind_frees_exactly_at_its_table_terminator() {
    for kind in 1..=20i32 {
        let table = bedlam_core::objects::debris_seq_table(kind);
        let len = table.len();
        let mut s = seq_sim();
        assert!(s.stage_debris(4 * 0x20 + 0x10, 4 * 0x20 + 0x10, 0x20, kind, 0, -1));
        for c in 1..len - 1 {
            s.debris_tick();
            assert!(s.debris_bank()[0].active, "kind {kind} still walking at tick {c} of {}", len - 1);
        }
        s.debris_tick();
        assert!(!s.debris_bank()[0].active, "kind {kind} freed at the -1 terminator (tick {})", len - 1);
    }
}
