//! The fixed 16-byte header in front of every frame of a sprite archive.

use vstd::prelude::*;
use crate::wire::{read_i16_le, read_u16_le, read_u32_le, read_u8, spec_i16_le, spec_u16_le, spec_u32_le};

verus! {

/// Bytes taken by one frame header.
pub const FRAME_HEADER_SIZE: usize = 16;

/// A sprite's width must stay below this for its header to be believed.
pub const MAX_SPRITE_WIDTH: u16 = 20000;

/// What the 16 header bytes of a frame say.
#[derive(Clone, Copy, Debug, PartialEq, Eq, Structural)]
pub struct FrameHeader {
    pub pixel_format: u8,
    pub compressed: u8,
    pub reserve: u8,
    pub compress_level: u8,
    pub width: u16,
    pub height: u16,
    pub offset_x: i16,
    pub offset_y: i16,
    pub payload_length: u32,
}

impl FrameHeader {
    /// The header stored in the 16 bytes of `s` that start at `at`.
    pub open spec fn spec_parse(s: Seq<u8>, at: int) -> FrameHeader {
        FrameHeader {
            pixel_format: s[at],
            compressed: s[at + 1],
            reserve: s[at + 2],
            compress_level: s[at + 3],
            width: spec_u16_le(s, at + 4),
            height: spec_u16_le(s, at + 6),
            offset_x: spec_i16_le(s, at + 8),
            offset_y: spec_i16_le(s, at + 10),
            payload_length: spec_u32_le(s, at + 12),
        }
    }

    /// The header at `at`, if 16 bytes are there to hold one.
    pub open spec fn spec_read(s: Seq<u8>, at: int) -> Option<FrameHeader> {
        if 0 <= at && at + 16 <= s.len() {
            Some(Self::spec_parse(s, at))
        } else {
            None
        }
    }

    /// A real sprite: a known pixel format, a known compression flag and a
    /// width below the limit.
    pub open spec fn spec_is_sprite(&self) -> bool {
        &&& (self.pixel_format == 3 || self.pixel_format == 5)
        &&& (self.compressed == 1 || self.compressed == 5 || self.compressed == 9)
        &&& self.width < MAX_SPRITE_WIDTH
    }

    /// The empty record: format, compression, payload length and both
    /// dimensions are zero.
    pub open spec fn spec_is_placeholder(&self) -> bool {
        &&& self.pixel_format == 0
        &&& self.compressed == 0
        &&& self.payload_length == 0
        &&& self.width == 0
        &&& self.height == 0
    }

    /// A header that can stand at a record boundary: a sprite or the empty
    /// record.
    pub open spec fn spec_is_valid(&self) -> bool {
        self.spec_is_sprite() || self.spec_is_placeholder()
    }

    /// A thumbnail stand-in: 1 or 4 pixels wide, 1 high, no payload.
    pub open spec fn spec_is_thumbnail(&self) -> bool {
        &&& (self.width == 1 || self.width == 4)
        &&& self.height == 1
        &&& self.payload_length == 0
    }

    /// Decodes the header in `bytes[at .. at + 16]`.
    pub fn parse(bytes: &[u8], at: usize) -> (h: FrameHeader)
        requires
            at + 16 <= bytes.len(),
        ensures
            h == Self::spec_parse(bytes@, at as int),
    {
        FrameHeader {
            pixel_format: read_u8(bytes, at),
            compressed: read_u8(bytes, at + 1),
            reserve: read_u8(bytes, at + 2),
            compress_level: read_u8(bytes, at + 3),
            width: read_u16_le(bytes, at + 4),
            height: read_u16_le(bytes, at + 6),
            offset_x: read_i16_le(bytes, at + 8),
            offset_y: read_i16_le(bytes, at + 10),
            payload_length: read_u32_le(bytes, at + 12),
        }
    }

    /// Decodes the header at `at`; `None` when fewer than 16 bytes follow
    /// `at`.
    pub fn read(bytes: &[u8], at: u64) -> (r: Option<FrameHeader>)
        ensures
            r == Self::spec_read(bytes@, at as int),
    {
        let len = bytes.len();
        if len >= 16 && at <= (len - 16) as u64 {
            Some(Self::parse(bytes, at as usize))
        } else {
            None
        }
    }

    #[verifier::when_used_as_spec(spec_is_sprite)]
    pub fn is_sprite(&self) -> (b: bool)
        ensures
            b == self.spec_is_sprite(),
    {
        (self.pixel_format == 3 || self.pixel_format == 5) && (self.compressed == 1
            || self.compressed == 5 || self.compressed == 9) && self.width < MAX_SPRITE_WIDTH
    }

    #[verifier::when_used_as_spec(spec_is_placeholder)]
    pub fn is_placeholder(&self) -> (b: bool)
        ensures
            b == self.spec_is_placeholder(),
    {
        self.pixel_format == 0 && self.compressed == 0 && self.payload_length == 0 && self.width
            == 0 && self.height == 0
    }

    #[verifier::when_used_as_spec(spec_is_valid)]
    pub fn is_valid(&self) -> (b: bool)
        ensures
            b == self.spec_is_valid(),
    {
        self.is_sprite() || self.is_placeholder()
    }

    #[verifier::when_used_as_spec(spec_is_thumbnail)]
    pub fn is_thumbnail(&self) -> (b: bool)
        ensures
            b == self.spec_is_thumbnail(),
    {
        (self.width == 1 || self.width == 4) && self.height == 1 && self.payload_length == 0
    }

    /// The 16 bytes that decode to this header.
    pub fn to_bytes(&self) -> (out: Vec<u8>)
        ensures
            out@.len() == 16,
            Self::spec_parse(out@, 0) == *self,
    {
        let ox: u16 = if self.offset_x < 0 {
            (self.offset_x as i32 + 65536) as u16
        } else {
            self.offset_x as u16
        };
        let oy: u16 = if self.offset_y < 0 {
            (self.offset_y as i32 + 65536) as u16
        } else {
            self.offset_y as u16
        };
        let len: u32 = self.payload_length;
        let mut out: Vec<u8> = Vec::with_capacity(16);
        out.push(self.pixel_format);
        out.push(self.compressed);
        out.push(self.reserve);
        out.push(self.compress_level);
        out.push((self.width % 256) as u8);
        out.push((self.width / 256) as u8);
        out.push((self.height % 256) as u8);
        out.push((self.height / 256) as u8);
        out.push((ox % 256) as u8);
        out.push((ox / 256) as u8);
        out.push((oy % 256) as u8);
        out.push((oy / 256) as u8);
        out.push((len % 256) as u8);
        out.push((len / 256 % 256) as u8);
        out.push((len / 65536 % 256) as u8);
        out.push((len / 16777216) as u8);
        out
    }
}

} // verus!
