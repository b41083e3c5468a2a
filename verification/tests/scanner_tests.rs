use mir_assets::error::AssetError;
use mir_assets::header::FrameHeader;
use mir_assets::scanner::{find_first_above, rebuild_index, recover_offsets};

fn frame_header(pixel_format: u8, width: u16, height: u16, payload_length: u32) -> Vec<u8> {
    FrameHeader {
        pixel_format,
        compressed: 1,
        reserve: 0,
        compress_level: 0,
        width,
        height,
        offset_x: 0,
        offset_y: 0,
        payload_length,
    }
    .to_bytes()
}

fn archive_of(parts: &[Vec<u8>]) -> Vec<u8> {
    let mut bytes = vec![0u8; 48];
    for part in parts {
        bytes.extend_from_slice(part);
    }
    bytes
}

fn strictly_rising(offsets: &[u32]) -> bool {
    offsets.windows(2).all(|pair| pair[0] < pair[1])
}

fn secondary_file(declared: u32, entries: &[u32]) -> Vec<u8> {
    let mut bytes = vec![0u8; 44];
    bytes.extend_from_slice(&declared.to_le_bytes());
    for entry in entries {
        bytes.extend_from_slice(&entry.to_le_bytes());
    }
    bytes
}

#[test]
fn first_above_takes_list_order() {
    assert_eq!(find_first_above(&[10, 50, 30, 70], 20), Some(50));
    assert_eq!(find_first_above(&[10, 50, 30, 70], 50), Some(70));
    assert_eq!(find_first_above(&[10, 50, 30, 70], 70), None);
    assert_eq!(find_first_above(&[], 0), None);
    assert_eq!(find_first_above(&[u32::MAX], u32::MAX as u64 - 1), Some(u32::MAX));
    assert_eq!(find_first_above(&[u32::MAX], u64::MAX), None);
}

#[test]
fn scan_single_record_archive() {
    let archive = archive_of(&[frame_header(3, 4, 4, 64), vec![0xAA; 64]]);
    assert_eq!(archive.len(), 128);
    let report = recover_offsets(&archive, &[]).unwrap();
    assert_eq!(report.offsets, vec![48, 128]);
    assert!(report.complete);
    assert_eq!(report.frames(), 1);
}

#[test]
fn scan_steps_over_payload_and_placeholder() {
    let archive = archive_of(&[
        frame_header(3, 2, 1, 8),
        vec![0xAA; 8],
        vec![0u8; 16],
        frame_header(5, 2, 2, 16),
        vec![0xBB; 16],
    ]);
    let report = recover_offsets(&archive, &[]).unwrap();
    assert_eq!(report.offsets, vec![48, 72, 88, 120]);
    assert!(report.complete);
    assert_eq!(report.frames(), 3);
    assert!(strictly_rising(&report.offsets));
    assert_eq!(*report.offsets.last().unwrap() as usize, archive.len());
}

#[test]
fn scan_skips_four_bytes_behind_format_five_thumbnail() {
    let archive = archive_of(&[
        frame_header(5, 1, 1, 0),
        vec![0xFF; 4],
        frame_header(3, 2, 2, 4),
        vec![0xCC; 4],
    ]);
    let report = recover_offsets(&archive, &[]).unwrap();
    assert_eq!(report.offsets, vec![48, 68, 88]);
    assert!(report.complete);
}

#[test]
fn scan_skips_sixteen_bytes_behind_other_thumbnail() {
    let archive = archive_of(&[frame_header(3, 4, 1, 0), vec![0xFF; 16], frame_header(3, 0, 5, 0)]);
    let report = recover_offsets(&archive, &[]).unwrap();
    assert_eq!(report.offsets, vec![48, 80, 96]);
    assert!(report.complete);
}

#[test]
fn scan_retries_behind_thumbnail_after_fault() {
    let archive = archive_of(&[frame_header(5, 1, 1, 0), vec![9u8; 8], frame_header(3, 0, 0, 0)]);
    assert_eq!(archive.len(), 88);
    let report = recover_offsets(&archive, &[]).unwrap();
    assert_eq!(report.offsets, vec![48, 72, 88]);
    assert!(report.complete);
}

#[test]
fn scan_retry_is_spent_once_then_gap() {
    let archive = archive_of(&[frame_header(5, 1, 1, 0), vec![9u8; 40]]);
    let report = recover_offsets(&archive, &[]).unwrap();
    assert_eq!(report.offsets, vec![48]);
    assert!(!report.complete);
    assert_eq!(report.frames(), 1);
}

#[test]
fn scan_follows_fallback_after_fault() {
    let archive = archive_of(&[
        frame_header(3, 5, 5, 20),
        vec![0u8; 20],
        vec![0xFF; 16],
        frame_header(5, 2, 2, 8),
        vec![0xDD; 8],
    ]);
    assert_eq!(archive.len(), 124);
    let report = recover_offsets(&archive, &[48, 100, 200]).unwrap();
    assert_eq!(report.offsets, vec![48, 100, 124]);
    assert!(report.complete);
    assert!(strictly_rising(&report.offsets));
}

#[test]
fn scan_ends_in_gap_without_fallback() {
    let archive = archive_of(&[
        frame_header(3, 5, 5, 20),
        vec![0u8; 20],
        vec![0xFF; 16],
        frame_header(5, 2, 2, 8),
        vec![0xDD; 8],
    ]);
    let report = recover_offsets(&archive, &[]).unwrap();
    assert_eq!(report.offsets, vec![48]);
    assert!(!report.complete);
    let stale = recover_offsets(&archive, &[10, 48]).unwrap();
    assert_eq!(stale.offsets, vec![48]);
    assert!(!stale.complete);
}

#[test]
fn scan_moves_on_to_later_fallback_entries() {
    let archive = archive_of(&[
        frame_header(3, 5, 5, 20),
        vec![0u8; 20],
        vec![0xFF; 16],
        frame_header(5, 2, 2, 8),
        vec![0xDD; 8],
    ]);
    let report = recover_offsets(&archive, &[90, 100]).unwrap();
    assert_eq!(report.offsets, vec![48, 100, 124]);
    assert!(report.complete);
    let lost = recover_offsets(&archive, &[90, 92]).unwrap();
    assert_eq!(lost.offsets, vec![48]);
    assert!(!lost.complete);
}

#[test]
fn scan_payloadless_record_takes_near_fallback_entry() {
    let archive = archive_of(&[frame_header(3, 6, 3, 0), vec![0xFF; 16], frame_header(3, 0, 0, 0)]);
    let report = recover_offsets(&archive, &[80]).unwrap();
    assert_eq!(report.offsets, vec![48, 80, 96]);
    assert!(report.complete);
}

#[test]
fn scan_payloadless_record_uses_packed_size_for_far_entry() {
    let archive = archive_of(&[frame_header(3, 5, 3, 0), vec![0xFF; 36], frame_header(3, 0, 0, 0)]);
    assert_eq!(archive.len(), 116);
    let report = recover_offsets(&archive, &[1000]).unwrap();
    assert_eq!(report.offsets, vec![48, 100, 116]);
    assert!(report.complete);
    let edge = recover_offsets(&archive, &[64 + 433]).unwrap();
    assert_eq!(edge.offsets, vec![48, 100, 116]);
}

#[test]
fn scan_payloadless_record_without_fallback_entry() {
    let archive = archive_of(&[frame_header(3, 6, 3, 0), frame_header(3, 0, 0, 0)]);
    let report = recover_offsets(&archive, &[]).unwrap();
    assert_eq!(report.offsets, vec![48, 64, 80]);
    assert!(report.complete);
}

#[test]
fn scan_of_archive_without_records() {
    let none = recover_offsets(&[], &[]).unwrap();
    assert_eq!(none.offsets, vec![0]);
    assert!(none.complete);
    assert_eq!(none.frames(), 0);
    let bare = recover_offsets(&vec![0u8; 48], &[1, 2, 3]).unwrap();
    assert_eq!(bare.offsets, vec![48]);
    assert!(bare.complete);
}

#[test]
fn scan_of_archive_cut_inside_first_header() {
    let archive = vec![0u8; 60];
    let report = recover_offsets(&archive, &[]).unwrap();
    assert_eq!(report.offsets, Vec::<u32>::new());
    assert!(!report.complete);
    assert_eq!(report.frames(), 0);
}

#[test]
fn scan_payload_beyond_end_closes_table() {
    let archive = archive_of(&[frame_header(3, 4, 4, 64), vec![0xAA; 10]]);
    let report = recover_offsets(&archive, &[]).unwrap();
    assert_eq!(report.offsets, vec![48, 74]);
    assert!(report.complete);
}

#[test]
fn rebuild_index_uses_sorted_secondary_offsets() {
    let archive = archive_of(&[
        frame_header(3, 5, 5, 20),
        vec![0u8; 20],
        vec![0xFF; 16],
        frame_header(5, 2, 2, 8),
        vec![0xDD; 8],
    ]);
    let secondary = secondary_file(2, &[200, 0, 100, 48]);
    let rebuilt = rebuild_index(&archive, &secondary).unwrap();
    assert_eq!(rebuilt.offsets, vec![48, 100, 124]);
    assert!(rebuilt.complete);
    assert_eq!(rebuilt.declared, 2);
    assert_eq!(rebuilt.recovered, 2);
    assert!(!rebuilt.count_mismatch());
    assert_eq!(rebuilt.diagnostic(), None);
}

#[test]
fn rebuild_index_reports_count_mismatch() {
    let archive = archive_of(&[frame_header(3, 4, 4, 64), vec![0xAA; 64]]);
    let secondary = secondary_file(7, &[48]);
    let rebuilt = rebuild_index(&archive, &secondary).unwrap();
    assert_eq!(rebuilt.offsets, vec![48, 128]);
    assert_eq!(rebuilt.declared, 7);
    assert_eq!(rebuilt.recovered, 1);
    assert!(rebuilt.count_mismatch());
    assert_eq!(rebuilt.diagnostic(), Some(AssetError::CountMismatch));
}

#[test]
fn rebuild_index_needs_secondary_header() {
    let archive = archive_of(&[frame_header(3, 4, 4, 64), vec![0xAA; 64]]);
    assert_eq!(rebuild_index(&archive, &vec![0u8; 47]).err(), Some(AssetError::IoError));
    assert!(rebuild_index(&archive, &vec![0u8; 48]).is_ok());
}
