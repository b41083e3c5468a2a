//! Recovery of an archive's offset table from the archive bytes alone.
//!
//! The scanner walks the records from the end of the archive header. A header
//! that passes [`FrameHeader::is_valid`] is recorded and stepped over. One that
//! does not is a synchronisation fault: the scanner first retries behind a
//! thumbnail stand-in, then follows the fallback list, and gives up when the
//! list has nothing further to offer.
//!
//! [`scan`] is the mathematical definition of a run; [`recover_offsets`]
//! computes it.

use vstd::prelude::*;
use crate::error::AssetError;
use crate::header::FrameHeader;
use crate::index::{
    parse_secondary_index, secondary_offsets, SECONDARY_COUNT_AT, SECONDARY_HEADER_SIZE,
};
use crate::wire::spec_u32_le;

verus! {

/// Bytes in front of the first record of an archive.
pub const ARCHIVE_HEADER_SIZE: u64 = 48;

/// A fallback entry at most this far behind a payload-less header is taken as
/// the next record; one further away gives way to the packed size.
pub const NEAR_GAP: u64 = 432;

/// The first entry of `list`, from index `from` on, that is greater than
/// `bound`.
pub open spec fn first_above_from(list: Seq<u32>, bound: int, from: int) -> Option<u32>
    decreases list.len() - from,
{
    if from < 0 || from >= list.len() {
        None
    } else if list[from] > bound {
        Some(list[from])
    } else {
        first_above_from(list, bound, from + 1)
    }
}

/// The first entry of `list`, in list order, that is greater than `bound`.
pub open spec fn first_above(list: Seq<u32>, bound: int) -> Option<u32> {
    first_above_from(list, bound, 0)
}

/// What `first_above_from` finds is an entry of the list at or behind `from`
/// and greater than `bound`, with no such entry before it; it finds nothing
/// only when no entry from `from` on is greater than `bound`.
pub proof fn lemma_first_above_from(list: Seq<u32>, bound: int, from: int)
    requires
        0 <= from,
    ensures
        match first_above_from(list, bound, from) {
            Some(v) => exists|k: int|
                from <= k < list.len() && list[k] == v && v > bound && forall|j: int|
                    from <= j < k ==> list[j] <= bound,
            None => forall|j: int| from <= j < list.len() ==> list[j] <= bound,
        },
    decreases list.len() - from,
{
    if from < list.len() && list[from] <= bound {
        lemma_first_above_from(list, bound, from + 1);
    }
}

/// Finds the first entry of `list` greater than `bound`.
pub fn find_first_above(list: &[u32], bound: u64) -> (r: Option<u32>)
    ensures
        r == first_above(list@, bound as int),
{
    let mut i: usize = 0;
    while i < list.len()
        invariant
            i <= list.len(),
            first_above_from(list@, bound as int, i as int) == first_above(list@, bound as int),
        decreases list.len() - i,
    {
        let entry: u32 = list[i];
        if entry as u64 > bound {
            return Some(entry);
        }
        i += 1;
    }
    None
}

/// Bytes that pixel rows padded to an even width take at two bytes a pixel.
pub open spec fn packed_size(h: FrameHeader) -> int {
    ((h.width + 1) / 2 * 2) * h.height * 2
}

/// Where the cursor goes after the valid header `h` was recorded at `pos`.
///
/// A declared payload is stepped over. A header with a zero dimension is
/// followed at once by the next record. A thumbnail is followed by 4 bytes in
/// pixel format 5 and by 16 otherwise. Any other header without payload asks
/// the fallback list: an entry near its end is the next record, a far one
/// means that the packed pixels follow the header, and with no entry the next
/// record follows at once.
pub open spec fn advance(h: FrameHeader, pos: int, fallback: Seq<u32>) -> int {
    if h.payload_length != 0 {
        pos + 16 + h.payload_length
    } else if h.width == 0 || h.height == 0 {
        pos + 16
    } else if h.is_thumbnail() {
        if h.pixel_format == 5 {
            pos + 16 + 4
        } else {
            pos + 16 + 16
        }
    } else {
        match first_above(fallback, pos) {
            Some(next) => if next - (pos + 16) > NEAR_GAP {
                pos + 16 + packed_size(h)
            } else {
                next as int
            },
            None => pos + 16,
        }
    }
}

/// The scanner between two steps.
pub struct ScanState {
    /// Where the next header is looked for.
    pub cursor: int,
    /// The fallback list is searched above this: the last recorded offset or
    /// the last fallback entry followed, whichever came later.
    pub floor: int,
    /// Whether the retry behind a thumbnail was spent since the last record.
    pub retried: bool,
    /// Whether the scan gave up before the end of the archive.
    pub gap: bool,
    /// The offsets recorded so far.
    pub offsets: Seq<u32>,
}

impl ScanState {
    /// The state a scan starts in.
    pub open spec fn initial() -> ScanState {
        ScanState {
            cursor: ARCHIVE_HEADER_SIZE as int,
            floor: ARCHIVE_HEADER_SIZE as int,
            retried: false,
            gap: false,
            offsets: Seq::empty(),
        }
    }

    /// The least position a new record can have: behind the last recorded
    /// one, and not inside the archive header.
    pub open spec fn frontier(self) -> int {
        if self.offsets.len() == 0 {
            ARCHIVE_HEADER_SIZE as int
        } else {
            self.offsets.last() + 1
        }
    }

    /// Whether the scan has come to rest, at the end of the archive or in a
    /// gap.
    pub open spec fn halted(self, len: int) -> bool {
        self.gap || self.cursor >= len
    }

    /// What holds of every state of a scan of `archive`: the cursor and the
    /// floor are not behind the last record, and the recorded offsets are
    /// strictly increasing and each the place of a valid header.
    pub open spec fn inv(self, archive: Seq<u8>) -> bool {
        &&& archive.len() <= u32::MAX
        &&& self.cursor >= self.frontier()
        &&& self.floor + 1 >= self.frontier()
        &&& self.floor <= u32::MAX
        &&& strictly_increasing(self.offsets)
        &&& all_headers(archive, self.offsets)
    }
}

/// Whether a valid header stands at `at`.
pub open spec fn header_at(archive: Seq<u8>, at: int) -> bool {
    FrameHeader::spec_read(archive, at) is Some && FrameHeader::spec_parse(archive, at).is_valid()
}

/// Whether every entry is the place of a valid header.
pub open spec fn all_headers(archive: Seq<u8>, offsets: Seq<u32>) -> bool {
    forall|i: int| 0 <= i < offsets.len() ==> header_at(archive, #[trigger] offsets[i] as int)
}

/// Each entry is greater than the one before it.
pub open spec fn strictly_increasing(s: Seq<u32>) -> bool {
    forall|i: int, j: int| 0 <= i < j < s.len() ==> s[i] < s[j]
}

/// Whether a header can be read at the last recorded offset and is a
/// thumbnail.
pub open spec fn thumbnail_behind(archive: Seq<u8>, st: ScanState) -> bool {
    &&& st.offsets.len() > 0
    &&& FrameHeader::spec_read(archive, st.offsets.last() as int) is Some
    &&& FrameHeader::spec_read(archive, st.offsets.last() as int).unwrap().is_thumbnail()
}

/// The answer to a header that cannot stand at `st.cursor`.
///
/// Once after each record, if the last recorded header is a thumbnail, the
/// cursor goes behind it: 8 bytes behind that header in pixel format 5, else 4.
/// Otherwise the first fallback entry above the floor becomes cursor and
/// floor. With no such entry the scan ends in a gap.
pub open spec fn resync(archive: Seq<u8>, fallback: Seq<u32>, st: ScanState) -> ScanState {
    if !st.retried && thumbnail_behind(archive, st) {
        let last = st.offsets.last() as int;
        let skip: int = if FrameHeader::spec_parse(archive, last).pixel_format == 5 {
            8
        } else {
            4
        };
        ScanState { cursor: last + 16 + skip, retried: true, ..st }
    } else {
        match first_above(fallback, st.floor) {
            Some(next) => ScanState { cursor: next as int, floor: next as int, ..st },
            None => ScanState { gap: true, ..st },
        }
    }
}

/// One step of a scan that has not halted: a valid header at the cursor is
/// recorded and stepped over, anything else is a synchronisation fault.
pub open spec fn step(archive: Seq<u8>, fallback: Seq<u32>, st: ScanState) -> ScanState {
    let found = FrameHeader::spec_read(archive, st.cursor);
    if found is Some && found.unwrap().is_valid() {
        ScanState {
            cursor: advance(found.unwrap(), st.cursor, fallback),
            floor: st.cursor,
            retried: false,
            gap: false,
            offsets: st.offsets.push(st.cursor as u32),
        }
    } else {
        resync(archive, fallback, st)
    }
}

/// The state in which the scan that is in state `st` comes to rest.
pub open spec fn scan(archive: Seq<u8>, fallback: Seq<u32>, st: ScanState) -> ScanState
    decreases archive.len() - st.frontier(), (if st.retried {
        0int
    } else {
        1int
    }), u32::MAX - st.floor, (if st.gap {
        0int
    } else {
        1int
    }),
    when st.inv(archive)
    via scan_decreases
{
    if st.halted(archive.len() as int) {
        st
    } else {
        scan(archive, fallback, step(archive, fallback, st))
    }
}

#[via_fn]
proof fn scan_decreases(archive: Seq<u8>, fallback: Seq<u32>, st: ScanState) {
    if !st.halted(archive.len() as int) {
        lemma_step(archive, fallback, st);
    }
}

/// The cursor leaves a recorded header forwards.
pub proof fn lemma_advance_forward(h: FrameHeader, pos: int, fallback: Seq<u32>)
    requires
        0 <= pos,
    ensures
        pos < advance(h, pos, fallback) <= pos + 16 + 0x2_0000_0000,
{
    lemma_first_above_from(fallback, pos, 0);
    let w = (h.width + 1) / 2 * 2;
    assert(0 <= w * h.height <= 65536 * 65535) by (nonlinear_arith)
        requires
            0 <= w <= 65536,
            0 <= h.height <= 65535,
    ;
}

/// A step keeps the invariant and brings the scan nearer to its end: a record
/// raises the frontier, a retry spends the one retry, a fallback entry raises
/// the floor.
pub proof fn lemma_step(archive: Seq<u8>, fallback: Seq<u32>, st: ScanState)
    requires
        st.inv(archive),
        !st.halted(archive.len() as int),
    ensures
        ({
            let next = step(archive, fallback, st);
            &&& next.inv(archive)
            &&& next.frontier() <= archive.len()
            &&& next.frontier() >= st.frontier()
            &&& (next.frontier() == st.frontier() ==> {
                ||| (st.retried == next.retried && st.floor == next.floor && next.gap)
                ||| (!st.retried && next.retried)
                ||| (st.retried == next.retried && st.floor < next.floor)
            })
        }),
{
    let next = step(archive, fallback, st);
    let found = FrameHeader::spec_read(archive, st.cursor);
    if found is Some && found.unwrap().is_valid() {
        lemma_advance_forward(found.unwrap(), st.cursor, fallback);
    } else {
        lemma_first_above_from(fallback, st.floor, 0);
    }
}

/// The scan of the whole archive, from the end of the archive header.
pub open spec fn scan_all(archive: Seq<u8>, fallback: Seq<u32>) -> ScanState {
    scan(archive, fallback, ScanState::initial())
}

/// Whether the scan of `archive` reaches the end of the archive.
pub open spec fn scan_completes(archive: Seq<u8>, fallback: Seq<u32>) -> bool {
    !scan_all(archive, fallback).gap
}

/// The offset table that the scan of `archive` yields: the recorded offsets,
/// closed by the archive's length where the scan reaches the end. A scan that
/// ends in a gap yields the recorded offsets alone.
pub open spec fn recovered_table(archive: Seq<u8>, fallback: Seq<u32>) -> Seq<u32> {
    let end = scan_all(archive, fallback);
    if end.gap {
        end.offsets
    } else {
        end.offsets.push(archive.len() as u32)
    }
}

/// A scan comes to rest in a halted state that satisfies the invariant.
pub proof fn lemma_scan_rests(archive: Seq<u8>, fallback: Seq<u32>, st: ScanState)
    requires
        st.inv(archive),
    ensures
        scan(archive, fallback, st).inv(archive),
        scan(archive, fallback, st).halted(archive.len() as int),
    decreases archive.len() - st.frontier(), (if st.retried {
        0int
    } else {
        1int
    }), u32::MAX - st.floor, (if st.gap {
        0int
    } else {
        1int
    }),
{
    if !st.halted(archive.len() as int) {
        lemma_step(archive, fallback, st);
        lemma_scan_rests(archive, fallback, step(archive, fallback, st));
    }
}

/// The recovered table is strictly increasing, and where the scan reaches the
/// end of the archive its last entry is the archive's length. Every entry
/// before that one is the place of a valid header.
pub proof fn lemma_recovered_table(archive: Seq<u8>, fallback: Seq<u32>)
    requires
        archive.len() <= u32::MAX,
    ensures
        strictly_increasing(recovered_table(archive, fallback)),
        scan_completes(archive, fallback) ==> recovered_table(archive, fallback).len() > 0
            && recovered_table(archive, fallback).last() == archive.len(),
        all_headers(archive, scan_all(archive, fallback).offsets),
        scan_all(archive, fallback).offsets == recovered_table(archive, fallback).take(
            scan_all(archive, fallback).offsets.len() as int,
        ),
{
    lemma_scan_rests(archive, fallback, ScanState::initial());
}

/// What a scan found.
#[derive(Debug)]
pub struct ScanReport {
    /// The recovered offset table.
    pub offsets: Vec<u32>,
    /// Whether the scan reached the end of the archive, so that the table is
    /// closed by the archive's length.
    pub complete: bool,
}

impl ScanReport {
    /// The number of entries that stand for a frame: all of them after a
    /// gap, all but the closing one in a complete table.
    pub open spec fn spec_frames(&self) -> int {
        if self.complete && self.offsets@.len() > 0 {
            self.offsets@.len() - 1
        } else {
            self.offsets@.len() as int
        }
    }

    /// The number of frame headers that the scan recorded.
    pub fn frames(&self) -> (n: usize)
        ensures
            n == self.spec_frames(),
    {
        if self.complete && self.offsets.len() > 0 {
            self.offsets.len() - 1
        } else {
            self.offsets.len()
        }
    }
}

/// Reconstructs the offset table of `archive`, with `fallback` as the list of
/// offsets to resynchronise on.
///
/// An archive too long for 32-bit offsets is a format error. Every other
/// archive yields the table of [`recovered_table`], which is strictly
/// increasing; `complete` tells whether the scan reached the end of the
/// archive, in which case the table ends with the archive's length. Every
/// entry that stands for a frame is the place of a valid header.
pub fn recover_offsets(archive: &[u8], fallback: &[u32]) -> (r: Result<ScanReport, AssetError>)
    ensures
        archive@.len() > u32::MAX ==> r == Err::<ScanReport, AssetError>(AssetError::FormatError),
        archive@.len() <= u32::MAX ==> r is Ok,
        r is Ok ==> {
            let report = r->Ok_0;
            &&& report.offsets@ == recovered_table(archive@, fallback@)
            &&& report.complete == scan_completes(archive@, fallback@)
            &&& strictly_increasing(report.offsets@)
            &&& report.complete ==> report.offsets@.len() > 0 && report.offsets@.last()
                == archive@.len()
            &&& all_headers(archive@, report.offsets@.take(report.spec_frames()))
        },
{
    let len = archive.len();
    if len as u64 > u32::MAX as u64 {
        return Err(AssetError::FormatError);
    }
    let total: u64 = len as u64;
    let mut offsets: Vec<u32> = Vec::new();
    let mut cursor: u64 = ARCHIVE_HEADER_SIZE;
    let mut floor: u64 = ARCHIVE_HEADER_SIZE;
    let mut retried = false;
    let mut gap = false;
    let ghost mut st = ScanState::initial();
    while !gap && cursor < total
        invariant
            total == archive@.len(),
            st == (ScanState {
                cursor: cursor as int,
                floor: floor as int,
                retried,
                gap,
                offsets: offsets@,
            }),
            st.inv(archive@),
            cursor <= 0x4_0000_0000,
            scan(archive@, fallback@, st) == scan_all(archive@, fallback@),
        decreases total - st.frontier(), (if retried {
            0int
        } else {
            1int
        }), u32::MAX - floor, (if gap {
            0int
        } else {
            1int
        }),
    {
        proof {
            lemma_step(archive@, fallback@, st);
        }
        let found = FrameHeader::read(archive, cursor);
        let valid = match found {
            Some(h) => h.is_valid(),
            None => false,
        };
        if valid {
            let h = found.unwrap();
            proof {
                lemma_advance_forward(h, cursor as int, fallback@);
            }
            offsets.push(cursor as u32);
            floor = cursor;
            retried = false;
            cursor = next_cursor(h, cursor, fallback);
        } else {
            let mut behind: Option<u64> = None;
            if !retried && offsets.len() > 0 {
                let last: u32 = offsets[offsets.len() - 1];
                if let Some(t) = FrameHeader::read(archive, last as u64) {
                    if t.is_thumbnail() {
                        let skip: u64 = if t.pixel_format == 5 {
                            8
                        } else {
                            4
                        };
                        behind = Some(last as u64 + 16 + skip);
                    }
                }
            }
            match behind {
                Some(target) => {
                    cursor = target;
                    retried = true;
                },
                None => {
                    match find_first_above(fallback, floor) {
                        Some(next) => {
                            cursor = next as u64;
                            floor = next as u64;
                        },
                        None => {
                            gap = true;
                        },
                    }
                },
            }
        }
        proof {
            st = step(archive@, fallback@, st);
        }
    }
    if !gap {
        offsets.push(total as u32);
    }
    Ok(ScanReport { offsets, complete: !gap })
}

/// Computes [`advance`].
fn next_cursor(h: FrameHeader, pos: u64, fallback: &[u32]) -> (next: u64)
    requires
        pos <= u32::MAX,
    ensures
        next == advance(h, pos as int, fallback@),
{
    proof {
        lemma_advance_forward(h, pos as int, fallback@);
    }
    if h.payload_length != 0 {
        pos + 16 + h.payload_length as u64
    } else if h.width == 0 || h.height == 0 {
        pos + 16
    } else if h.is_thumbnail() {
        if h.pixel_format == 5 {
            pos + 16 + 4
        } else {
            pos + 16 + 16
        }
    } else {
        match find_first_above(fallback, pos) {
            Some(entry) => {
                if entry as u64 > pos + 16 + NEAR_GAP {
                    let padded: u64 = (h.width as u64 + 1) / 2 * 2;
                    assert(0 <= padded * h.height <= 65536 * 65535) by (nonlinear_arith)
                        requires
                            0 <= padded <= 65536,
                            0 <= h.height <= 65535,
                    ;
                    pos + 16 + padded * (h.height as u64) * 2
                } else {
                    entry as u64
                }
            },
            None => pos + 16,
        }
    }
}

/// An offset table rebuilt from an archive and its secondary index file.
#[derive(Debug)]
pub struct RecoveredIndex {
    /// The recovered offset table.
    pub offsets: Vec<u32>,
    /// Whether the scan reached the end of the archive.
    pub complete: bool,
    /// The frame count that the secondary index declares.
    pub declared: u32,
    /// The number of frame headers that the scan recorded.
    pub recovered: usize,
}

impl RecoveredIndex {
    /// The table that rebuilding yields, or the reason why there is none: a
    /// secondary index shorter than its header is an I/O error, an archive
    /// too long for 32-bit offsets a format error.
    pub open spec fn spec_rebuild(archive: Seq<u8>, secondary: Seq<u8>) -> Result<
        Seq<u32>,
        AssetError,
    > {
        if secondary.len() < SECONDARY_HEADER_SIZE {
            Err(AssetError::IoError)
        } else if archive.len() > u32::MAX {
            Err(AssetError::FormatError)
        } else {
            Ok(recovered_table(archive, secondary_offsets(secondary)))
        }
    }

    /// Whether the scan recorded another number of frames than the secondary
    /// index declares. This is a diagnostic; rebuilding does not fail on it.
    pub fn count_mismatch(&self) -> (b: bool)
        ensures
            b == (self.recovered as int != self.declared as int),
    {
        self.recovered as u64 != self.declared as u64
    }

    /// The diagnostic that goes with the table: `CountMismatch` where the
    /// counts disagree, else none.
    pub fn diagnostic(&self) -> (d: Option<AssetError>)
        ensures
            d == (if self.recovered as int != self.declared as int {
                Some(AssetError::CountMismatch)
            } else {
                None
            }),
    {
        if self.count_mismatch() {
            Some(AssetError::CountMismatch)
        } else {
            None
        }
    }
}

/// Rebuilds the offset table of `archive`: the secondary index file is
/// decoded, and its offsets are the fallback list of the recovery scan.
///
/// Fails as [`RecoveredIndex::spec_rebuild`] says. A count in the secondary
/// index that the scan does not confirm is reported, not refused.
pub fn rebuild_index(archive: &[u8], secondary: &[u8]) -> (r: Result<RecoveredIndex, AssetError>)
    ensures
        match RecoveredIndex::spec_rebuild(archive@, secondary@) {
            Ok(table) => {
                &&& r is Ok
                &&& r->Ok_0.offsets@ == table
                &&& r->Ok_0.complete == scan_completes(archive@, secondary_offsets(secondary@))
                &&& r->Ok_0.declared == spec_u32_le(secondary@, SECONDARY_COUNT_AT as int)
                &&& r->Ok_0.recovered == scan_all(
                    archive@,
                    secondary_offsets(secondary@),
                ).offsets.len()
                &&& strictly_increasing(table)
                &&& r->Ok_0.complete ==> table.len() > 0 && table.last() == archive@.len()
                &&& all_headers(archive@, table.take(r->Ok_0.recovered as int))
            },
            Err(e) => r == Err::<RecoveredIndex, AssetError>(e),
        },
{
    let side = match parse_secondary_index(secondary) {
        Ok(side) => side,
        Err(e) => {
            return Err(e);
        },
    };
    let report = match recover_offsets(archive, side.offsets.as_slice()) {
        Ok(report) => report,
        Err(e) => {
            return Err(e);
        },
    };
    let recovered = report.frames();
    Ok(
        RecoveredIndex {
            offsets: report.offsets,
            complete: report.complete,
            declared: side.declared,
            recovered,
        },
    )
}

} // verus!
