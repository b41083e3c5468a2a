//! Frames of a sprite archive, addressed through its offset table.
//!
//! Frame `i` of an archive is the record in `[offsets[i], offsets[i + 1])`:
//! a 16-byte header and, behind it, the pixel bytes.

use vstd::prelude::*;
use vstd::slice::{slice_subrange, slice_to_vec};
use crate::error::AssetError;
use crate::header::FrameHeader;
use crate::index::{parse_primary_index, primary_entries};
use crate::scanner::{rebuild_index, RecoveredIndex};

verus! {

/// A decoded sprite: its size, the offset of its origin, and its pixels.
/// `pixel_bytes` is empty for a frame that only holds a place.
#[derive(Debug)]
pub struct SpriteFrame {
    pub width: u16,
    pub height: u16,
    pub offset_x: i16,
    pub offset_y: i16,
    pub pixel_bytes: Vec<u8>,
}

/// A sprite frame as a mathematical value.
pub struct SpriteFrameView {
    pub width: u16,
    pub height: u16,
    pub offset_x: i16,
    pub offset_y: i16,
    pub pixel_bytes: Seq<u8>,
}

impl View for SpriteFrame {
    type V = SpriteFrameView;

    open spec fn view(&self) -> SpriteFrameView {
        SpriteFrameView {
            width: self.width,
            height: self.height,
            offset_x: self.offset_x,
            offset_y: self.offset_y,
            pixel_bytes: self.pixel_bytes@,
        }
    }
}

impl SpriteFrameView {
    /// Bytes that `width` x `height` pixels of four channels take.
    pub open spec fn raster_size(self) -> int {
        self.width * self.height * 4
    }
}

impl SpriteFrame {
    /// Whether the frame holds no pixels.
    pub fn is_empty(&self) -> (b: bool)
        ensures
            b == (self@.pixel_bytes.len() == 0),
    {
        self.pixel_bytes.len() == 0
    }

    /// Whether the pixel bytes are exactly one four-channel raster of the
    /// frame's size.
    pub fn is_raster(&self) -> (b: bool)
        ensures
            b == (self@.pixel_bytes.len() == self@.raster_size()),
    {
        let w: u64 = self.width as u64;
        let h: u64 = self.height as u64;
        assert(0 <= w * h <= 65535 * 65535) by (nonlinear_arith)
            requires
                0 <= w <= 65535,
                0 <= h <= 65535,
        ;
        self.pixel_bytes.len() as u64 == w * h * 4
    }

    /// A copy of the frame.
    pub fn duplicate(&self) -> (copy: SpriteFrame)
        ensures
            copy@ == self@,
    {
        SpriteFrame {
            width: self.width,
            height: self.height,
            offset_x: self.offset_x,
            offset_y: self.offset_y,
            pixel_bytes: slice_to_vec(self.pixel_bytes.as_slice()),
        }
    }
}

/// The frame that a record holds: the fields of its header, and everything
/// behind the header as pixel bytes. A record too short for a header holds
/// none.
pub open spec fn spec_decode_record(record: Seq<u8>) -> Option<SpriteFrameView> {
    if record.len() >= 16 {
        let h = FrameHeader::spec_parse(record, 0);
        Some(
            SpriteFrameView {
                width: h.width,
                height: h.height,
                offset_x: h.offset_x,
                offset_y: h.offset_y,
                pixel_bytes: record.skip(16),
            },
        )
    } else {
        None
    }
}

/// Decodes one record. A record shorter than a header is a format error.
pub fn decode_record(record: &[u8]) -> (r: Result<SpriteFrame, AssetError>)
    ensures
        match spec_decode_record(record@) {
            Some(frame) => r is Ok && r->Ok_0@ == frame,
            None => r == Err::<SpriteFrame, AssetError>(AssetError::FormatError),
        },
{
    let len = record.len();
    if len < 16 {
        return Err(AssetError::FormatError);
    }
    let h = FrameHeader::parse(record, 0);
    let pixels = slice_to_vec(slice_subrange(record, 16, len));
    Ok(
        SpriteFrame {
            width: h.width,
            height: h.height,
            offset_x: h.offset_x,
            offset_y: h.offset_y,
            pixel_bytes: pixels,
        },
    )
}

/// The byte range of frame `i`, or the reason why there is none: the frame
/// lies beyond the table when `i + 1` is no index of it, and the table
/// contradicts the archive when the range cannot hold a header or leaves the
/// archive.
pub open spec fn spec_frame_range(len: int, offsets: Seq<u32>, i: int) -> Result<
    (int, int),
    AssetError,
> {
    if i < 0 || i + 1 >= offsets.len() {
        Err(AssetError::IndexOutOfRange)
    } else if offsets[i] + 16 <= offsets[i + 1] && offsets[i + 1] <= len {
        Ok((offsets[i] as int, offsets[i + 1] as int))
    } else {
        Err(AssetError::FormatError)
    }
}

/// What loading frame `i` of an archive gives.
pub open spec fn spec_load(bytes: Seq<u8>, offsets: Seq<u32>, i: int) -> Result<
    SpriteFrameView,
    AssetError,
> {
    match spec_frame_range(bytes.len() as int, offsets, i) {
        Ok((start, end)) => Ok(spec_decode_record(bytes.subrange(start, end)).unwrap()),
        Err(e) => Err(e),
    }
}

/// Computes the byte range of frame `i` in an archive of `len` bytes.
pub fn frame_range(len: usize, offsets: &[u32], i: u32) -> (r: Result<(usize, usize), AssetError>)
    ensures
        match spec_frame_range(len as int, offsets@, i as int) {
            Ok((start, end)) => r is Ok && r->Ok_0.0 == start && r->Ok_0.1 == end,
            Err(e) => r == Err::<(usize, usize), AssetError>(e),
        },
{
    let n = offsets.len();
    if n < 2 || i as u64 >= (n - 1) as u64 {
        return Err(AssetError::IndexOutOfRange);
    }
    let at: usize = i as usize;
    let start: u32 = offsets[at];
    let end: u32 = offsets[at + 1];
    if start as u64 + 16 <= end as u64 && end as u64 <= len as u64 {
        Ok((start as usize, end as usize))
    } else {
        Err(AssetError::FormatError)
    }
}

/// How the offset table of an archive is obtained from an index file.
#[derive(Clone, Copy, Debug, PartialEq, Eq, Structural)]
pub enum IndexPolicy {
    /// The index file is a primary index and is trusted as it stands.
    Primary,
    /// The index file is a secondary index; the table is rebuilt from the
    /// archive with the file's offsets as fallback.
    Recover,
}

/// The offset table that `policy` obtains for an archive from an index file,
/// or the reason why it obtains none.
pub open spec fn spec_table(policy: IndexPolicy, bytes: Seq<u8>, index: Seq<u8>) -> Result<
    Seq<u32>,
    AssetError,
> {
    match policy {
        IndexPolicy::Primary => if index.len() % 4 != 0 {
            Err(AssetError::IoError)
        } else {
            Ok(primary_entries(index))
        },
        IndexPolicy::Recover => RecoveredIndex::spec_rebuild(bytes, index),
    }
}

/// A sprite archive in memory, with the offset table that addresses it.
#[derive(Debug)]
pub struct SpriteArchive {
    pub bytes: Vec<u8>,
    pub offsets: Vec<u32>,
}

/// A sprite archive as a mathematical value.
pub struct SpriteArchiveView {
    pub bytes: Seq<u8>,
    pub offsets: Seq<u32>,
}

impl View for SpriteArchive {
    type V = SpriteArchiveView;

    open spec fn view(&self) -> SpriteArchiveView {
        SpriteArchiveView { bytes: self.bytes@, offsets: self.offsets@ }
    }
}

impl SpriteArchive {
    /// An archive addressed by `offsets`.
    pub fn new(bytes: Vec<u8>, offsets: Vec<u32>) -> (archive: SpriteArchive)
        ensures
            archive.bytes@ == bytes@,
            archive.offsets@ == offsets@,
    {
        SpriteArchive { bytes, offsets }
    }

    /// An archive addressed by its primary index file, which is trusted as it
    /// stands. Fails as [`parse_primary_index`] does.
    pub fn with_primary_index(bytes: Vec<u8>, index: &[u8]) -> (r: Result<
        SpriteArchive,
        AssetError,
    >)
        ensures
            index@.len() % 4 != 0 ==> r == Err::<SpriteArchive, AssetError>(AssetError::IoError),
            index@.len() % 4 == 0 ==> {
                &&& r is Ok
                &&& r->Ok_0.bytes@ == bytes@
                &&& r->Ok_0.offsets@ == primary_entries(index@)
            },
    {
        match parse_primary_index(index) {
            Ok(offsets) => Ok(SpriteArchive { bytes, offsets }),
            Err(e) => Err(e),
        }
    }

    /// An archive addressed by the table that the recovery scan reconstructs,
    /// with the secondary index file as fallback. Fails as [`rebuild_index`]
    /// does.
    pub fn with_recovered_index(bytes: Vec<u8>, secondary: &[u8]) -> (r: Result<
        SpriteArchive,
        AssetError,
    >)
        ensures
            r is Ok <==> RecoveredIndex::spec_rebuild(bytes@, secondary@) is Ok,
            r is Ok ==> {
                &&& r->Ok_0.bytes@ == bytes@
                &&& r->Ok_0.offsets@ == RecoveredIndex::spec_rebuild(bytes@, secondary@)->Ok_0
            },
            r is Err ==> r->Err_0 == RecoveredIndex::spec_rebuild(bytes@, secondary@)->Err_0,
    {
        match rebuild_index(bytes.as_slice(), secondary) {
            Ok(found) => Ok(SpriteArchive { bytes, offsets: found.offsets }),
            Err(e) => Err(e),
        }
    }

    /// An archive addressed as `policy` says, from the index file that the
    /// policy calls for.
    pub fn open(bytes: Vec<u8>, policy: IndexPolicy, index: &[u8]) -> (r: Result<
        SpriteArchive,
        AssetError,
    >)
        ensures
            match spec_table(policy, bytes@, index@) {
                Ok(table) => r is Ok && r->Ok_0.bytes@ == bytes@ && r->Ok_0.offsets@ == table,
                Err(e) => r is Err && r->Err_0 == e,
            },
    {
        match policy {
            IndexPolicy::Primary => Self::with_primary_index(bytes, index),
            IndexPolicy::Recover => Self::with_recovered_index(bytes, index),
        }
    }

    /// The number of frames that the offset table delimits.
    pub open spec fn spec_frame_count(&self) -> int {
        if self.offsets@.len() == 0 {
            0
        } else {
            self.offsets@.len() - 1
        }
    }

    /// The number of frames that the offset table delimits.
    pub fn frame_count(&self) -> (n: usize)
        ensures
            n == self.spec_frame_count(),
    {
        if self.offsets.len() == 0 {
            0
        } else {
            self.offsets.len() - 1
        }
    }

    /// Decodes frame `i`.
    ///
    /// A frame beyond the table is `IndexOutOfRange`; a table entry that
    /// leaves no room for a header, or points outside the archive, is a
    /// format error. Every other frame is returned with the fields of its
    /// header and the bytes behind the header as pixels.
    pub fn load(&self, i: u32) -> (r: Result<SpriteFrame, AssetError>)
        ensures
            match spec_load(self.bytes@, self.offsets@, i as int) {
                Ok(frame) => r is Ok && r->Ok_0@ == frame,
                Err(e) => r == Err::<SpriteFrame, AssetError>(e),
            },
    {
        match frame_range(self.bytes.len(), self.offsets.as_slice(), i) {
            Ok((start, end)) => decode_record(slice_subrange(self.bytes.as_slice(), start, end)),
            Err(e) => Err(e),
        }
    }
}

/// Whether the table delimits record `i` as the record's own header does:
/// the record ends where the header's declared payload ends.
pub open spec fn record_delimited(bytes: Seq<u8>, offsets: Seq<u32>, i: int) -> bool {
    &&& 0 <= i
    &&& i + 1 < offsets.len()
    &&& offsets[i] + 16 <= bytes.len()
    &&& offsets[i + 1] == offsets[i] + 16 + FrameHeader::spec_parse(
        bytes,
        offsets[i] as int,
    ).payload_length
    &&& offsets[i + 1] <= bytes.len()
}

/// Loading a frame that the table delimits as its header does succeeds and
/// yields as many pixel bytes as the header declares: none for the empty
/// record, and one four-channel raster of the sprite's size where the
/// declared payload is such a raster.
pub proof fn lemma_load_delimited(bytes: Seq<u8>, offsets: Seq<u32>, i: int)
    requires
        record_delimited(bytes, offsets, i),
        ({
            let h = FrameHeader::spec_parse(bytes, offsets[i] as int);
            h.payload_length > 0 ==> h.payload_length == h.width * h.height * 4
        }),
    ensures
        spec_load(bytes, offsets, i) is Ok,
        ({
            let h = FrameHeader::spec_parse(bytes, offsets[i] as int);
            let frame = spec_load(bytes, offsets, i)->Ok_0;
            &&& frame.width == h.width
            &&& frame.height == h.height
            &&& frame.pixel_bytes.len() == h.payload_length
            &&& h.payload_length > 0 ==> frame.pixel_bytes.len() == frame.raster_size()
            &&& h.is_placeholder() ==> frame.pixel_bytes.len() == 0
        }),
{
    let start = offsets[i] as int;
    let end = offsets[i + 1] as int;
    let record = bytes.subrange(start, end);
}

} // verus!
