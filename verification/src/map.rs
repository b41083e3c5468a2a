//! The tile-map file: a 52-byte header and a grid of fixed-size tile records.
//!
//! The header gives the width and the height of the grid; the size of one
//! record follows from the file's length. Records are stored column by
//! column: the tile in column `x` and row `y` is record `x * height + y`.

use vstd::prelude::*;
use vstd::slice::slice_subrange;
use crate::error::AssetError;
use crate::wire::{read_u16_le, read_u8, spec_u16_le};

verus! {

/// Bytes in front of the first tile record.
pub const MAP_HEADER_SIZE: usize = 52;

/// The shortest tile record: the fields up to `light`.
pub const TILE_BASE_SIZE: usize = 12;

/// The longest tile record: all fields.
pub const TILE_FULL_SIZE: usize = 14;

/// The bit of a layer value that is a flag and no part of the frame number.
pub const LAYER_FLAG: u16 = 0x8000;

/// One cell of a map: three layered sprite references and the cell's door,
/// animation and light.
#[derive(Clone, Copy, Debug, PartialEq, Eq, Structural)]
pub struct Tile {
    pub back: u16,
    pub middle: u16,
    pub objects: u16,
    pub door_idx: u8,
    pub door_offset: u8,
    pub frame: u8,
    pub tick: u8,
    pub file_idx: u8,
    pub light: u8,
    pub tile_idx: u8,
    pub middle_idx: u8,
}

impl Tile {
    /// The tile that a record of at least 12 bytes holds. A field that a short
    /// record has no byte for is 0.
    pub open spec fn spec_from(s: Seq<u8>) -> Tile {
        Tile {
            back: spec_u16_le(s, 0),
            middle: spec_u16_le(s, 2),
            objects: spec_u16_le(s, 4),
            door_idx: s[6],
            door_offset: s[7],
            frame: s[8],
            tick: s[9],
            file_idx: s[10],
            light: s[11],
            tile_idx: if s.len() > 12 {
                s[12]
            } else {
                0
            },
            middle_idx: if s.len() > 13 {
                s[13]
            } else {
                0
            },
        }
    }

    /// Decodes one tile record.
    pub fn from(bytes: &[u8]) -> (tile: Tile)
        requires
            bytes@.len() >= TILE_BASE_SIZE,
        ensures
            tile == Self::spec_from(bytes@),
    {
        let len = bytes.len();
        Tile {
            back: read_u16_le(bytes, 0),
            middle: read_u16_le(bytes, 2),
            objects: read_u16_le(bytes, 4),
            door_idx: read_u8(bytes, 6),
            door_offset: read_u8(bytes, 7),
            frame: read_u8(bytes, 8),
            tick: read_u8(bytes, 9),
            file_idx: read_u8(bytes, 10),
            light: read_u8(bytes, 11),
            tile_idx: if len > 12 {
                read_u8(bytes, 12)
            } else {
                0
            },
            middle_idx: if len > 13 {
                read_u8(bytes, 13)
            } else {
                0
            },
        }
    }
}

/// A decoded map.
#[derive(Debug)]
pub struct MapInfo {
    /// Columns of the grid.
    pub width: u32,
    /// Rows of the grid.
    pub height: u32,
    /// Bytes of one tile record in the file.
    pub step: u32,
    /// Bytes of the file.
    pub size: u64,
    /// The name the map goes by.
    pub name: String,
    /// The tiles, column by column.
    pub tiles: Vec<Tile>,
}

impl MapInfo {
    /// There is one tile for every cell of the grid.
    pub open spec fn well_formed(&self) -> bool {
        self.tiles@.len() == self.width * self.height
    }

    /// The place of the tile in column `x` and row `y` among the tiles.
    pub open spec fn spec_linear_index(&self, x: int, y: int) -> int {
        x * self.height + y
    }

    /// The tile in column `x` and row `y`, or `None` outside the grid.
    pub fn tile_at(&self, x: u32, y: u32) -> (t: Option<Tile>)
        requires
            self.well_formed(),
        ensures
            t == (if x < self.width && y < self.height {
                Some(self.tiles@[self.spec_linear_index(x as int, y as int)])
            } else {
                None
            }),
    {
        if x < self.width && y < self.height {
            let count: usize = self.tiles.len();
            proof {
                lemma_cell_in_grid(x as int, y as int, self.width as int, self.height as int);
            }
            let at: u64 = x as u64 * self.height as u64 + y as u64;
            Some(self.tiles[at as usize])
        } else {
            None
        }
    }
}

/// A cell of a grid has a place among the grid's cells.
pub proof fn lemma_cell_in_grid(x: int, y: int, width: int, height: int)
    requires
        0 <= x < width,
        0 <= y < height,
    ensures
        0 <= x * height + y < width * height,
        0 <= x * height <= width * height,
{
    assert(x * height + height <= width * height) by (nonlinear_arith)
        requires
            0 <= x < width,
            0 <= height,
    ;
    assert(0 <= x * height) by (nonlinear_arith)
        requires
            0 <= x,
            0 <= height,
    ;
}

/// The width that a map file declares: the `u16` at byte 0.
pub open spec fn declared_width(bytes: Seq<u8>) -> int {
    spec_u16_le(bytes, 0) as int
}

/// The height that a map file declares: the `u16` at byte 2.
pub open spec fn declared_height(bytes: Seq<u8>) -> int {
    spec_u16_le(bytes, 2) as int
}

/// The size of one tile record of a map file with at least one cell: the
/// bytes behind the header, shared out among the cells.
pub open spec fn tile_record_size(bytes: Seq<u8>) -> int {
    (bytes.len() - MAP_HEADER_SIZE) / (declared_width(bytes) * declared_height(bytes))
}

/// Whether a record size is one of the three that the format knows.
pub open spec fn known_record_size(step: int) -> bool {
    TILE_BASE_SIZE <= step <= TILE_FULL_SIZE
}

/// The reason why a map file cannot be decoded, if there is one: a file
/// shorter than its header is an I/O error; a grid without cells, or a record
/// size that the format does not know, is a format error.
pub open spec fn map_fault(bytes: Seq<u8>) -> Option<AssetError> {
    if bytes.len() < MAP_HEADER_SIZE {
        Some(AssetError::IoError)
    } else if declared_width(bytes) * declared_height(bytes) == 0 {
        Some(AssetError::FormatError)
    } else if !known_record_size(tile_record_size(bytes)) {
        Some(AssetError::FormatError)
    } else {
        None
    }
}

/// Record `i` of a map file whose records take `step` bytes each.
pub open spec fn tile_record(bytes: Seq<u8>, step: int, i: int) -> Seq<u8> {
    bytes.subrange(MAP_HEADER_SIZE + i * step, MAP_HEADER_SIZE + (i + 1) * step)
}

/// The tiles of a map file without fault.
pub open spec fn spec_tiles(bytes: Seq<u8>) -> Seq<Tile> {
    Seq::new(
        (declared_width(bytes) * declared_height(bytes)) as nat,
        |i: int| Tile::spec_from(tile_record(bytes, tile_record_size(bytes), i)),
    )
}

/// Every record of a map file without fault lies inside the file. Where the
/// records are too short to hold a field, every tile has 0 in it: records of
/// 12 bytes leave `tile_idx` and `middle_idx` at 0, records of 13 bytes
/// `middle_idx`.
pub proof fn lemma_short_records(bytes: Seq<u8>, i: int)
    requires
        map_fault(bytes) is None,
        0 <= i < spec_tiles(bytes).len(),
    ensures
        MAP_HEADER_SIZE + (i + 1) * tile_record_size(bytes) <= bytes.len(),
        tile_record(bytes, tile_record_size(bytes), i).len() == tile_record_size(bytes),
        tile_record_size(bytes) == 12 ==> spec_tiles(bytes)[i].tile_idx == 0,
        tile_record_size(bytes) <= 13 ==> spec_tiles(bytes)[i].middle_idx == 0,
{
    let cells = declared_width(bytes) * declared_height(bytes);
    let body = bytes.len() - MAP_HEADER_SIZE;
    let step = tile_record_size(bytes);
    assert(cells * step <= body) by (nonlinear_arith)
        requires
            cells > 0,
            body >= 0,
            step == body / cells,
    ;
    assert((i + 1) * step <= cells * step) by (nonlinear_arith)
        requires
            i + 1 <= cells,
            0 <= step,
    ;
    assert(0 <= i * step && (i + 1) * step == i * step + step) by (nonlinear_arith)
        requires
            0 <= i,
            0 <= step,
    ;
}

/// Decodes a map file.
///
/// Fails exactly as [`map_fault`] says. Otherwise the map has the declared
/// width and height, the record size that follows from the file's length,
/// and one tile for each cell, decoded from the records in file order.
pub fn parse_map(name: &str, bytes: &[u8]) -> (r: Result<MapInfo, AssetError>)
    ensures
        match map_fault(bytes@) {
            Some(e) => r == Err::<MapInfo, AssetError>(e),
            None => {
                &&& r is Ok
                &&& r->Ok_0.width == declared_width(bytes@)
                &&& r->Ok_0.height == declared_height(bytes@)
                &&& r->Ok_0.step == tile_record_size(bytes@)
                &&& r->Ok_0.size == bytes@.len()
                &&& r->Ok_0.name@ == name@
                &&& r->Ok_0.tiles@ == spec_tiles(bytes@)
                &&& r->Ok_0.well_formed()
            },
        },
{
    let len = bytes.len();
    if len < MAP_HEADER_SIZE {
        return Err(AssetError::IoError);
    }
    let width: u32 = read_u16_le(bytes, 0) as u32;
    let height: u32 = read_u16_le(bytes, 2) as u32;
    assert(0 <= width * height <= 65535 * 65535) by (nonlinear_arith)
        requires
            0 <= width <= 65535,
            0 <= height <= 65535,
    ;
    let cells: u64 = width as u64 * height as u64;
    if cells == 0 {
        return Err(AssetError::FormatError);
    }
    let body: u64 = (len - MAP_HEADER_SIZE) as u64;
    let step: u64 = body / cells;
    if step < TILE_BASE_SIZE as u64 || step > TILE_FULL_SIZE as u64 {
        return Err(AssetError::FormatError);
    }
    assert(cells * step <= body) by (nonlinear_arith)
        requires
            cells > 0,
            step == body / cells,
    ;
    let mut tiles: Vec<Tile> = Vec::new();
    let mut i: u64 = 0;
    while i < cells
        invariant
            i <= cells,
            cells * step <= body,
            body == len - MAP_HEADER_SIZE,
            len == bytes@.len(),
            TILE_BASE_SIZE <= step <= TILE_FULL_SIZE,
            tiles@.len() == i,
            forall|k: int|
                0 <= k < i ==> tiles@[k] == Tile::spec_from(
                    #[trigger] tile_record(bytes@, step as int, k),
                ),
        decreases cells - i,
    {
        assert((i + 1) * step <= cells * step) by (nonlinear_arith)
            requires
                i + 1 <= cells,
                0 <= step,
        ;
        assert(i * step + step == (i + 1) * step) by (nonlinear_arith);
        let start: usize = MAP_HEADER_SIZE + (i * step) as usize;
        let end: usize = start + step as usize;
        let tile = Tile::from(slice_subrange(bytes, start, end));
        tiles.push(tile);
        i += 1;
    }
    Ok(
        MapInfo {
            width,
            height,
            step: step as u32,
            size: len as u64,
            name: name.to_owned(),
            tiles,
        },
    )
}

} // verus!
