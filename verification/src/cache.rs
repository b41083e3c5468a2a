//! An in-memory cache of decoded sprite frames.
//!
//! The cache owns the archives that were registered with it, each under its
//! category and sub-file number, and memoises every frame it decodes under
//! the key of [`spec_cache_key`]. What a load returns depends on the
//! registered archives alone, never on what happens to be memoised.

use vstd::prelude::*;
use std::collections::HashMap;
use crate::archive::{spec_load, SpriteArchive, SpriteArchiveView, SpriteFrame, SpriteFrameView};

verus! {

broadcast use vstd::std_specs::hash::group_hash_axioms;

/// The key of a frame: the category in bits 40 to 47, the sub-file number in
/// bits 32 to 39, the frame index in the low 32 bits.
pub open spec fn spec_cache_key(category: u8, sub_file: u8, frame: u32) -> u64 {
    (category as int * 0x100_0000_0000 + sub_file as int * 0x1_0000_0000 + frame as int) as u64
}

/// The key of an archive: what is left of the keys of its frames above the
/// frame index.
pub open spec fn spec_archive_key(category: u8, sub_file: u8) -> u64 {
    (category as int * 0x100 + sub_file as int) as u64
}

/// The archive key inside a frame key.
pub open spec fn key_archive(key: u64) -> u64 {
    key / 0x1_0000_0000
}

/// The frame index inside a frame key.
pub open spec fn key_frame(key: u64) -> u32 {
    (key % 0x1_0000_0000) as u32
}

/// Packs the identity of a frame into one integer.
pub fn cache_key(category: u8, sub_file: u8, frame: u32) -> (key: u64)
    ensures
        key == spec_cache_key(category, sub_file, frame),
        key_archive(key) == spec_archive_key(category, sub_file),
        key_frame(key) == frame,
{
    category as u64 * 0x100_0000_0000 + sub_file as u64 * 0x1_0000_0000 + frame as u64
}

/// Packs the identity of an archive into one integer.
pub fn archive_key(category: u8, sub_file: u8) -> (key: u64)
    ensures
        key == spec_archive_key(category, sub_file),
{
    category as u64 * 0x100 + sub_file as u64
}

/// Two frames with the same key are the same frame of the same archive.
pub proof fn lemma_cache_key_injective(c1: u8, s1: u8, f1: u32, c2: u8, s2: u8, f2: u32)
    requires
        spec_cache_key(c1, s1, f1) == spec_cache_key(c2, s2, f2),
    ensures
        c1 == c2,
        s1 == s2,
        f1 == f2,
{
}

/// The frame that loading frame `frame` of `archive` gives, if it gives one.
pub open spec fn frame_of(archive: SpriteArchiveView, frame: u32) -> Option<SpriteFrameView> {
    match spec_load(archive.bytes, archive.offsets, frame as int) {
        Ok(f) => Some(f),
        Err(_) => None,
    }
}

/// Registered archives and the frames decoded from them so far.
pub struct AssetCache {
    archives: HashMap<u64, SpriteArchive>,
    frames: HashMap<u64, SpriteFrame>,
    capacity: Option<usize>,
}

impl AssetCache {
    /// Every memoised frame is what its archive decodes to, and a bounded
    /// cache holds no more frames than its capacity. Constructors establish
    /// this and every method keeps it.
    pub closed spec fn well_formed(&self) -> bool {
        &&& forall|k: u64| #[trigger]
            self.frames@.contains_key(k) ==> self.archives@.contains_key(key_archive(k))
                && frame_of(self.archives@[key_archive(k)]@, key_frame(k)) == Some(
                self.frames@[k]@,
            )
        &&& self.capacity matches Some(cap) ==> cap > 0 && self.frames@.len() <= cap
    }

    /// The registered archives, by archive key.
    pub closed spec fn archives(&self) -> Map<u64, SpriteArchiveView> {
        self.archives@.map_values(|a: SpriteArchive| a@)
    }

    /// The keys of the memoised frames.
    pub closed spec fn cached(&self) -> Set<u64> {
        self.frames@.dom()
    }

    /// The most frames that the cache memoises at a time, if it is bounded.
    pub closed spec fn limit(&self) -> Option<usize> {
        self.capacity
    }

    /// What a load of the frame gives: the frame as its registered archive
    /// decodes it, and nothing where no archive is registered or the archive
    /// has no such frame.
    pub open spec fn spec_fetch(&self, category: u8, sub_file: u8, frame: u32) -> Option<
        SpriteFrameView,
    > {
        let key = spec_archive_key(category, sub_file);
        if self.archives().contains_key(key) {
            frame_of(self.archives()[key], frame)
        } else {
            None
        }
    }

    /// Whether a bounded cache has no room for another frame.
    pub open spec fn full(&self) -> bool {
        self.limit() matches Some(cap) && self.cached().len() >= cap
    }

    /// An empty cache without bound.
    pub fn new() -> (cache: AssetCache)
        ensures
            cache.well_formed(),
            cache.archives() == Map::<u64, SpriteArchiveView>::empty(),
            cache.cached() == Set::<u64>::empty(),
            cache.limit() is None,
    {
        let cache = AssetCache {
            archives: HashMap::new(),
            frames: HashMap::new(),
            capacity: None,
        };
        cache
    }

    /// An empty cache that memoises at most `capacity` frames at a time; a
    /// capacity of 0 counts as 1.
    pub fn bounded(capacity: usize) -> (cache: AssetCache)
        ensures
            cache.well_formed(),
            cache.archives() == Map::<u64, SpriteArchiveView>::empty(),
            cache.cached() == Set::<u64>::empty(),
            cache.limit() == Some(if capacity == 0 {
                1usize
            } else {
                capacity
            }),
    {
        let cap: usize = if capacity == 0 {
            1
        } else {
            capacity
        };
        let cache = AssetCache {
            archives: HashMap::new(),
            frames: HashMap::new(),
            capacity: Some(cap),
        };
        cache
    }

    /// Whether an archive is registered under the category and sub-file
    /// number.
    pub fn has_archive(&self, category: u8, sub_file: u8) -> (b: bool)
        ensures
            b == self.archives().contains_key(spec_archive_key(category, sub_file)),
    {
        let key = archive_key(category, sub_file);
        self.archives.contains_key(&key)
    }

    /// The number of memoised frames.
    pub fn len(&self) -> (n: usize)
        ensures
            n == self.cached().len(),
    {
        self.frames.len()
    }

    /// Registers `archive` under the category and sub-file number, unless one
    /// is registered there already: an archive, once registered, stays.
    /// Returns whether `archive` was registered.
    pub fn register(&mut self, category: u8, sub_file: u8, archive: SpriteArchive) -> (added: bool)
        requires
            old(self).well_formed(),
        ensures
            final(self).well_formed(),
            added == !old(self).archives().contains_key(spec_archive_key(category, sub_file)),
            final(self).archives() == (if added {
                old(self).archives().insert(spec_archive_key(category, sub_file), archive@)
            } else {
                old(self).archives()
            }),
            final(self).cached() == old(self).cached(),
            final(self).limit() == old(self).limit(),
    {
        let key = archive_key(category, sub_file);
        if self.archives.contains_key(&key) {
            return false;
        }
        self.archives.insert(key, archive);
        true
    }

    /// The memoised frame, if the frame is memoised. Nothing is decoded.
    pub fn peek(&self, category: u8, sub_file: u8, frame: u32) -> (r: Option<&SpriteFrame>)
        requires
            self.well_formed(),
        ensures
            r is Some == self.cached().contains(spec_cache_key(category, sub_file, frame)),
            r is Some ==> self.spec_fetch(category, sub_file, frame) == Some(r->0@),
    {
        let key = cache_key(category, sub_file, frame);
        self.frames.get(&key)
    }

    /// Makes sure that the frame is memoised, decoding it from its archive
    /// if it is not. Returns whether the frame exists.
    ///
    /// A bounded cache that is full forgets its frames before it memoises a
    /// new one. The registered archives stay as they are.
    pub fn ensure(&mut self, category: u8, sub_file: u8, frame: u32) -> (found: bool)
        requires
            old(self).well_formed(),
        ensures
            final(self).well_formed(),
            found == old(self).spec_fetch(category, sub_file, frame) is Some,
            final(self).archives() == old(self).archives(),
            final(self).limit() == old(self).limit(),
            final(self).cached() == (if !found || old(self).cached().contains(
                spec_cache_key(category, sub_file, frame),
            ) {
                old(self).cached()
            } else if old(self).full() {
                set![spec_cache_key(category, sub_file, frame)]
            } else {
                old(self).cached().insert(spec_cache_key(category, sub_file, frame))
            }),
    {
        let key = cache_key(category, sub_file, frame);
        let akey = archive_key(category, sub_file);
        if self.frames.contains_key(&key) {
            return true;
        }
        let decoded = match self.archives.get(&akey) {
            Some(archive) => archive.load(frame),
            None => {
                return false;
            },
        };
        match decoded {
            Ok(sprite) => {
                let full = match self.capacity {
                    Some(cap) => self.frames.len() >= cap,
                    None => false,
                };
                if full {
                    self.frames.clear();
                }
                self.frames.insert(key, sprite);
                true
            },
            Err(_) => false,
        }
    }

    /// Loads a frame through the cache: the memoised frame if there is one,
    /// else the frame decoded from its registered archive, which is memoised
    /// on the way as [`AssetCache::ensure`] says.
    ///
    /// `None` means that there is no sprite to draw: no archive is registered
    /// under the category and sub-file number, the frame lies beyond the
    /// archive's offset table, or the table contradicts the archive there.
    pub fn load(&mut self, category: u8, sub_file: u8, frame: u32) -> (r: Option<&SpriteFrame>)
        requires
            old(self).well_formed(),
        ensures
            final(self).well_formed(),
            r is Some == old(self).spec_fetch(category, sub_file, frame) is Some,
            r is Some ==> old(self).spec_fetch(category, sub_file, frame) == Some(r->0@),
            final(self).archives() == old(self).archives(),
            final(self).limit() == old(self).limit(),
            final(self).cached() == (if r is None || old(self).cached().contains(
                spec_cache_key(category, sub_file, frame),
            ) {
                old(self).cached()
            } else if old(self).full() {
                set![spec_cache_key(category, sub_file, frame)]
            } else {
                old(self).cached().insert(spec_cache_key(category, sub_file, frame))
            }),
    {
        if self.ensure(category, sub_file, frame) {
            self.peek(category, sub_file, frame)
        } else {
            None
        }
    }
}

/// Loading depends on the registered archives alone: two caches with the
/// same archives give the same frame, whatever each has memoised. As a load
/// leaves the archives as they are, loading a frame again gives the same
/// frame again.
pub proof fn lemma_load_repeatable(
    first: AssetCache,
    second: AssetCache,
    category: u8,
    sub_file: u8,
    frame: u32,
)
    requires
        second.archives() == first.archives(),
    ensures
        second.spec_fetch(category, sub_file, frame) == first.spec_fetch(category, sub_file, frame),
{
}

} // verus!
