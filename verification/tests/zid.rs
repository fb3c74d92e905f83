use networking::zid::{InvalidZenohId, ZenohId};

#[test]
fn short_ids_are_padded_with_zeros() {
    let id = ZenohId::from_le_slice(&[7, 8]).unwrap();
    assert_eq!(id.to_le_bytes(), [7, 8, 0, 0, 0, 0, 0, 0, 0, 0, 0, 0, 0, 0, 0, 0]);
}

#[test]
fn an_id_is_read_back_from_its_bytes() {
    let bytes = [0, 0, 3, 4, 5, 6, 7, 8, 9, 10, 11, 12, 13, 14, 15, 255];
    let id = ZenohId::from_le_slice(&bytes).unwrap();
    assert_eq!(id.to_le_bytes(), bytes);
    assert!(id == ZenohId::from_le_slice(&id.to_le_bytes()).unwrap());
}

#[test]
fn zeros_behind_an_id_do_not_count() {
    let short = ZenohId::from_le_slice(&[1]).unwrap();
    let long = ZenohId::from_le_slice(&[1, 0, 0]).unwrap();
    let other = ZenohId::from_le_slice(&[0, 1]).unwrap();
    assert!(short == long);
    assert!(short != other);
}

#[test]
fn bytes_that_spell_no_id() {
    assert_eq!(ZenohId::from_le_slice(&[]).err(), Some(InvalidZenohId));
    assert_eq!(ZenohId::from_le_slice(&[0; 3]).err(), Some(InvalidZenohId));
    assert_eq!(ZenohId::from_le_slice(&[0; 16]).err(), Some(InvalidZenohId));
    assert_eq!(ZenohId::from_le_slice(&[1; 17]).err(), Some(InvalidZenohId));
}
