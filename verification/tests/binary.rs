use sql_engine::binary::{Binary, Datum};

#[test]
fn key_of_a_record_is_seventeen_bytes() {
    assert_eq!(
        Binary::record_key(0x0102).to_bytes(),
        vec![5, 0, 0, 0, 0, 0, 0, 0, 8, 0, 0, 0, 0, 0, 0, 1, 2]
    );
    assert_eq!(Binary::record_key(7), Binary::pack(&[Datum::from_u64(7)]));
}

#[test]
fn record_id_is_read_back_from_a_key() {
    assert_eq!(Binary::record_key(0).record_id(), Some(0));
    assert_eq!(Binary::record_key(u64::MAX).record_id(), Some(u64::MAX));
    assert_eq!(Binary::pack(&[Datum::from_i64(3)]).record_id(), None);
    assert_eq!(Binary::pack(&[]).record_id(), None);
    assert_eq!(Binary::pack(&[Datum::from_u64(1), Datum::from_u64(2)]).record_id(), None);
}

#[test]
fn keys_are_ordered_as_record_ids() {
    let ids: Vec<u64> = vec![0, 1, 2, 255, 256, 257, 65535, 65536, 1 << 40, u64::MAX - 1, u64::MAX];
    for pair in ids.windows(2) {
        assert!(Binary::record_key(pair[0]) < Binary::record_key(pair[1]));
        assert!(Binary::record_key(pair[0]).to_bytes() < Binary::record_key(pair[1]).to_bytes());
    }
}

#[test]
fn packed_fields_have_tag_length_and_payload() {
    assert_eq!(Binary::pack(&[]).to_bytes(), Vec::<u8>::new());
    assert_eq!(Binary::pack(&[Datum::from_null()]).to_bytes(), vec![0, 0, 0, 0, 0, 0, 0, 0, 0]);
    assert_eq!(Binary::pack(&[Datum::from_bool(true)]).to_bytes(), vec![1, 0, 0, 0, 0, 0, 0, 0, 1, 1]);
    assert_eq!(Binary::pack(&[Datum::from_bool(false)]).to_bytes(), vec![1, 0, 0, 0, 0, 0, 0, 0, 1, 0]);
    assert_eq!(
        Binary::pack(&[Datum::from_i16(-1)]).to_bytes(),
        vec![2, 0, 0, 0, 0, 0, 0, 0, 2, 0x7f, 0xff]
    );
    assert_eq!(
        Binary::pack(&[Datum::from_i16(i16::MIN)]).to_bytes(),
        vec![2, 0, 0, 0, 0, 0, 0, 0, 2, 0, 0]
    );
    assert_eq!(
        Binary::pack(&[Datum::from_i32(1)]).to_bytes(),
        vec![3, 0, 0, 0, 0, 0, 0, 0, 4, 0x80, 0, 0, 1]
    );
    assert_eq!(
        Binary::pack(&[Datum::from_i64(i64::MAX)]).to_bytes(),
        vec![4, 0, 0, 0, 0, 0, 0, 0, 8, 0xff, 0xff, 0xff, 0xff, 0xff, 0xff, 0xff, 0xff]
    );
    assert_eq!(
        Binary::pack(&[Datum::from_str("ab")]).to_bytes(),
        vec![6, 0, 0, 0, 0, 0, 0, 0, 2, 0x61, 0x62]
    );
}

#[test]
fn unpack_gives_back_what_was_packed() {
    let tuple = vec![
        Datum::from_null(),
        Datum::from_bool(true),
        Datum::from_bool(false),
        Datum::from_i16(i16::MIN),
        Datum::from_i16(-3),
        Datum::from_i32(i32::MAX),
        Datum::from_i32(-70000),
        Datum::from_i64(i64::MIN),
        Datum::from_i64(5_000_000_000),
        Datum::from_u64(u64::MAX),
        Datum::from_str(""),
        Datum::from_string("grüße, 世界".to_owned()),
    ];
    assert_eq!(Binary::pack(&tuple).unpack(), Some(tuple));
    assert_eq!(Binary::pack(&[]).unpack(), Some(vec![]));
}

#[test]
fn pack_gives_back_what_was_unpacked() {
    let bytes = vec![1, 0, 0, 0, 0, 0, 0, 0, 1, 1, 6, 0, 0, 0, 0, 0, 0, 0, 1, 0x41];
    let tuple = Binary::with_data(bytes.clone()).unpack().unwrap();
    assert_eq!(tuple, vec![Datum::from_bool(true), Datum::from_str("A")]);
    assert_eq!(Binary::pack(&tuple).to_bytes(), bytes);
}

#[test]
fn malformed_bytes_are_not_unpacked() {
    assert_eq!(Binary::with_data(vec![1]).unpack(), None);
    assert_eq!(Binary::with_data(vec![9, 0, 0, 0, 0, 0, 0, 0, 0]).unpack(), None);
    assert_eq!(Binary::with_data(vec![1, 0, 0, 0, 0, 0, 0, 0, 1, 2]).unpack(), None);
    assert_eq!(Binary::with_data(vec![0, 0, 0, 0, 0, 0, 0, 0, 1, 0]).unpack(), None);
    assert_eq!(Binary::with_data(vec![2, 0, 0, 0, 0, 0, 0, 0, 2, 0]).unpack(), None);
    assert_eq!(Binary::with_data(vec![3, 0, 0, 0, 0, 0, 0, 0, 2, 0, 0]).unpack(), None);
    assert_eq!(Binary::with_data(vec![6, 0, 0, 0, 0, 0, 0, 0, 1, 0xff]).unpack(), None);
    assert_eq!(Binary::with_data(vec![6, 0xff, 0xff, 0xff, 0xff, 0xff, 0xff, 0xff, 0xff]).unpack(), None);
}

#[test]
fn copies_have_the_same_bytes() {
    let packed = Binary::pack(&[Datum::from_i32(5), Datum::from_str("x")]);
    assert_eq!(packed.copy(), packed);
    assert!(packed.same_bytes(&packed.copy()));
    assert!(!packed.same_bytes(&Binary::pack(&[Datum::from_i32(5)])));
    assert!(!packed.same_bytes(&Binary::pack(&[Datum::from_i32(6), Datum::from_str("x")])));
}
