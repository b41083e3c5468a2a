//! The two index files that accompany a sprite archive.
//!
//! The primary index is a bare array of little-endian `u32` offsets. The
//! secondary index carries a 48-byte header in front of such an array; its
//! zero entries are padding, and its offsets are handed out in ascending
//! order.

use vstd::prelude::*;
use vstd::relations::{sorted_by, total_ordering};
use vstd::seq_lib::lemma_sorted_unique;
use crate::error::AssetError;
use crate::wire::{read_u32_le, spec_u32_le};

verus! {

/// Bytes in front of the entries of a secondary index.
pub const SECONDARY_HEADER_SIZE: usize = 48;

/// Where the header of a secondary index holds its declared entry count.
pub const SECONDARY_COUNT_AT: usize = 44;

/// The `count` little-endian `u32` values that start at `start`.
pub open spec fn entries_at(bytes: Seq<u8>, start: int, count: int) -> Seq<u32> {
    Seq::new(count as nat, |i: int| spec_u32_le(bytes, start + 4 * i))
}

/// The entries of a primary index file.
pub open spec fn primary_entries(bytes: Seq<u8>) -> Seq<u32> {
    entries_at(bytes, 0, bytes.len() as int / 4)
}

/// The entries behind the header of a secondary index file, padding included.
/// Bytes behind the last whole entry are not part of any entry.
pub open spec fn secondary_slots(bytes: Seq<u8>) -> Seq<u32> {
    entries_at(bytes, SECONDARY_HEADER_SIZE as int, (bytes.len() - SECONDARY_HEADER_SIZE) / 4)
}

/// The order of `u32` values.
pub open spec fn leq_u32() -> spec_fn(u32, u32) -> bool {
    |a: u32, b: u32| a <= b
}

/// An entry that is not padding.
pub open spec fn is_offset() -> spec_fn(u32) -> bool {
    |v: u32| v != 0
}

/// The offsets of a secondary index file: its entries without the padding,
/// in ascending order.
pub open spec fn secondary_offsets(bytes: Seq<u8>) -> Seq<u32> {
    secondary_slots(bytes).filter(is_offset()).sort_by(leq_u32())
}

/// No entry is smaller than one before it.
pub open spec fn ascending(s: Seq<u32>) -> bool {
    forall|i: int, j: int| 0 <= i < j < s.len() ==> s[i] <= s[j]
}

/// Reads `count` entries from `start` on.
fn read_entries(bytes: &[u8], start: usize, count: usize) -> (out: Vec<u32>)
    requires
        start + 4 * count <= bytes.len(),
    ensures
        out@ == entries_at(bytes@, start as int, count as int),
{
    let mut out: Vec<u32> = Vec::with_capacity(count);
    let mut i: usize = 0;
    while i < count
        invariant
            i <= count,
            start + 4 * count <= bytes.len(),
            out@ == entries_at(bytes@, start as int, i as int),
        decreases count - i,
    {
        let v: u32 = read_u32_le(bytes, start + 4 * i);
        out.push(v);
        i += 1;
    }
    out
}

/// Decodes a primary index file.
///
/// A file whose length is not a multiple of 4 is an I/O error: it was cut
/// short. Any other file yields its entries in file order.
pub fn parse_primary_index(bytes: &[u8]) -> (r: Result<Vec<u32>, AssetError>)
    ensures
        bytes@.len() % 4 != 0 ==> r == Err::<Vec<u32>, AssetError>(AssetError::IoError),
        bytes@.len() % 4 == 0 ==> r is Ok && r->Ok_0@ == primary_entries(bytes@),
{
    if bytes.len() % 4 != 0 {
        return Err(AssetError::IoError);
    }
    Ok(read_entries(bytes, 0, bytes.len() / 4))
}

/// Encodes an offset table as a primary index file.
pub fn encode_index(offsets: &[u32]) -> (out: Vec<u8>)
    ensures
        out@.len() == 4 * offsets@.len(),
        primary_entries(out@) == offsets@,
{
    let mut out: Vec<u8> = Vec::new();
    let mut i: usize = 0;
    while i < offsets.len()
        invariant
            i <= offsets.len(),
            out@.len() == 4 * i,
            entries_at(out@, 0, i as int) == offsets@.take(i as int),
        decreases offsets.len() - i,
    {
        let v: u32 = offsets[i];
        let ghost before = out@;
        out.push((v % 256) as u8);
        out.push((v / 256 % 256) as u8);
        out.push((v / 65536 % 256) as u8);
        out.push((v / 16777216) as u8);
        i += 1;
        proof {
            assert forall|k: int| 0 <= k < i implies entries_at(out@, 0, i as int)[k]
                == offsets@.take(i as int)[k] by {
                if k < i - 1 {
                    assert(entries_at(before, 0, i - 1)[k] == offsets@.take(i - 1)[k]);
                }
            }
        }
    }
    out
}

/// `<[u32]>::sort` of the standard library, on the elements of a vector:
/// afterwards the vector holds the same values, each as often as before, in
/// ascending order.
#[verifier::external_body]
fn sort_ascending(v: &mut Vec<u32>)
    ensures
        ascending(final(v)@),
        final(v)@.to_multiset() == old(v)@.to_multiset(),
{
    v.sort();
}

/// Copies the entries that are not padding, in their order.
fn without_padding(slots: &Vec<u32>) -> (out: Vec<u32>)
    ensures
        out@ == slots@.filter(is_offset()),
{
    let mut out: Vec<u32> = Vec::new();
    let mut i: usize = 0;
    proof {
        reveal(Seq::filter);
    }
    while i < slots.len()
        invariant
            i <= slots.len(),
            out@ == slots@.take(i as int).filter(is_offset()),
        decreases slots.len() - i,
    {
        let v: u32 = slots[i];
        proof {
            reveal(Seq::filter);
            assert(slots@.take(i + 1).drop_last() =~= slots@.take(i as int));
        }
        if v != 0 {
            out.push(v);
        }
        i += 1;
    }
    proof {
        assert(slots@.take(slots@.len() as int) =~= slots@);
    }
    out
}

/// A decoded secondary index.
#[derive(Debug)]
pub struct SecondaryIndex {
    /// The entry count that the header declares.
    pub declared: u32,
    /// The number of entries that the file holds, padding included.
    pub slots: usize,
    /// The offsets, ascending, without the padding.
    pub offsets: Vec<u32>,
}

impl SecondaryIndex {
    /// Whether the header's count disagrees with the number of entries in the
    /// file. This is a diagnostic; decoding does not fail on it.
    pub fn count_mismatch(&self) -> (b: bool)
        ensures
            b == (self.declared as int != self.slots as int),
    {
        self.declared as u64 != self.slots as u64
    }

    /// The diagnostic that goes with the index: `CountMismatch` where the
    /// header's count disagrees with the entries, else none.
    pub fn diagnostic(&self) -> (d: Option<AssetError>)
        ensures
            d == (if self.declared as int != self.slots as int {
                Some(AssetError::CountMismatch)
            } else {
                None
            }),
    {
        if self.count_mismatch() {
            Some(AssetError::CountMismatch)
        } else {
            None
        }
    }
}

/// Decodes a secondary index file.
///
/// A file shorter than its 48-byte header is an I/O error. Any other file
/// yields the count declared at byte 44, the number of entries behind the
/// header, and the entries that are not zero in ascending order. The declared
/// count is not held against the entries.
pub fn parse_secondary_index(bytes: &[u8]) -> (r: Result<SecondaryIndex, AssetError>)
    ensures
        bytes@.len() < SECONDARY_HEADER_SIZE ==> r == Err::<SecondaryIndex, AssetError>(
            AssetError::IoError,
        ),
        bytes@.len() >= SECONDARY_HEADER_SIZE ==> {
            &&& r is Ok
            &&& r->Ok_0.declared == spec_u32_le(bytes@, SECONDARY_COUNT_AT as int)
            &&& r->Ok_0.slots == secondary_slots(bytes@).len()
            &&& r->Ok_0.offsets@ == secondary_offsets(bytes@)
        },
{
    if bytes.len() < SECONDARY_HEADER_SIZE {
        return Err(AssetError::IoError);
    }
    let declared: u32 = read_u32_le(bytes, SECONDARY_COUNT_AT);
    let count: usize = (bytes.len() - SECONDARY_HEADER_SIZE) / 4;
    let slots = read_entries(bytes, SECONDARY_HEADER_SIZE, count);
    let mut offsets = without_padding(&slots);
    let ghost kept = offsets@;
    sort_ascending(&mut offsets);
    proof {
        lemma_leq_u32_total();
        kept.lemma_sort_by_ensures(leq_u32());
        assert(sorted_by(offsets@, leq_u32()));
        lemma_sorted_unique(offsets@, kept.sort_by(leq_u32()), leq_u32());
    }
    Ok(SecondaryIndex { declared, slots: count, offsets })
}

/// `<=` on `u32` is a total order.
pub proof fn lemma_leq_u32_total()
    ensures
        total_ordering(leq_u32()),
{
}

/// The offsets of a secondary index are ascending, none of them is zero, and
/// they are the file's non-zero entries, each as often as the file holds it.
pub proof fn lemma_secondary_offsets(bytes: Seq<u8>)
    ensures
        ascending(secondary_offsets(bytes)),
        forall|i: int| 0 <= i < secondary_offsets(bytes).len() ==> secondary_offsets(bytes)[i] != 0,
        secondary_offsets(bytes).to_multiset() == secondary_slots(bytes).filter(
            is_offset(),
        ).to_multiset(),
{
    let kept = secondary_slots(bytes).filter(is_offset());
    let sorted = secondary_offsets(bytes);
    lemma_leq_u32_total();
    kept.lemma_sort_by_ensures(leq_u32());
    assert forall|i: int, j: int| 0 <= i < j < sorted.len() implies sorted[i] <= sorted[j] by {
        assert(leq_u32()(sorted[i], sorted[j]));
    }
    assert forall|i: int| 0 <= i < sorted.len() implies sorted[i] != 0 by {
        if !kept.contains(sorted[i]) {
            assert(!sorted.contains(sorted[i]));
        }
        let k = choose|k: int| 0 <= k < kept.len() && kept[k] == sorted[i];
        secondary_slots(bytes).lemma_filter_pred(is_offset(), k);
    }
}

} // verus!
