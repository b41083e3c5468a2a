use mir_assets::error::AssetError;
use mir_assets::index::{encode_index, parse_primary_index, parse_secondary_index};

fn secondary_bytes(declared: u32, entries: &[u32], tail: &[u8]) -> Vec<u8> {
    let mut bytes = vec![0xABu8; 44];
    bytes.extend_from_slice(&declared.to_le_bytes());
    for entry in entries {
        bytes.extend_from_slice(&entry.to_le_bytes());
    }
    bytes.extend_from_slice(tail);
    bytes
}

#[test]
fn primary_index_is_flat_little_endian() {
    let bytes = [48u8, 0, 0, 0, 128, 0, 0, 0, 0x04, 0x03, 0x02, 0x01];
    assert_eq!(parse_primary_index(&bytes), Ok(vec![48, 128, 0x01020304]));
    assert_eq!(parse_primary_index(&[]), Ok(vec![]));
}

#[test]
fn primary_index_keeps_file_order_and_zeros() {
    let bytes = encode_index(&[9, 0, 3]);
    assert_eq!(parse_primary_index(&bytes), Ok(vec![9, 0, 3]));
}

#[test]
fn primary_index_rejects_partial_entry() {
    assert_eq!(parse_primary_index(&[1, 2, 3]), Err(AssetError::IoError));
    assert_eq!(parse_primary_index(&[1, 2, 3, 4, 5]), Err(AssetError::IoError));
}

#[test]
fn encode_index_writes_little_endian() {
    assert_eq!(encode_index(&[0x01020304, 48]), vec![4, 3, 2, 1, 48, 0, 0, 0]);
    assert_eq!(encode_index(&[]), Vec::<u8>::new());
    let table = vec![48, 128, u32::MAX, 0, 65536];
    assert_eq!(parse_primary_index(&encode_index(&table)), Ok(table));
}

#[test]
fn secondary_index_filters_and_sorts() {
    let bytes = secondary_bytes(3, &[300, 0, 100, 200, 0, 100], &[]);
    let side = parse_secondary_index(&bytes).unwrap();
    assert_eq!(side.offsets, vec![100, 100, 200, 300]);
    assert_eq!(side.declared, 3);
    assert_eq!(side.slots, 6);
    assert!(side.count_mismatch());
    assert_eq!(side.diagnostic(), Some(AssetError::CountMismatch));
}

#[test]
fn secondary_index_ignores_trailing_bytes() {
    let bytes = secondary_bytes(2, &[7, 5], &[1, 2, 3]);
    let side = parse_secondary_index(&bytes).unwrap();
    assert_eq!(side.offsets, vec![5, 7]);
    assert_eq!(side.slots, 2);
    assert!(!side.count_mismatch());
    assert_eq!(side.diagnostic(), None);
}

#[test]
fn secondary_index_short_read() {
    assert_eq!(parse_secondary_index(&vec![0u8; 47]).err(), Some(AssetError::IoError));
    assert_eq!(parse_secondary_index(&[]).err(), Some(AssetError::IoError));
    let bare = parse_secondary_index(&secondary_bytes(0x01020304, &[], &[])).unwrap();
    assert_eq!(bare.declared, 0x01020304);
    assert_eq!(bare.slots, 0);
    assert_eq!(bare.offsets, Vec::<u32>::new());
}
