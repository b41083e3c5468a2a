//! Planning the composition of a map into a raster.
//!
//! A tile refers to up to three sprites, one per layer. This module decides
//! which of them are drawn, names the frame of each, and places the decoded
//! sprite on the raster. Fetching the frames and blending the pixels is left
//! to the caller.

use vstd::prelude::*;
use crate::archive::SpriteFrame;
use crate::map::{lemma_cell_in_grid, MapInfo, Tile};

verus! {

/// Width of a tile cell in pixels.
pub const CELL_WIDTH: i64 = 48;

/// Height of a tile cell in pixels.
pub const CELL_HEIGHT: i64 = 32;

/// The bits of a layer value that hold the frame number plus one.
pub const FRAME_MASK: u16 = 0x7FFF;

/// A raster axis of this many pixels or more is too long to encode.
pub const RASTER_LIMIT: u64 = 0x3FFF;

/// The three sprite layers of a tile, in drawing order.
#[derive(Clone, Copy, Debug, PartialEq, Eq, Structural)]
pub enum Layer {
    Back,
    Middle,
    Object,
}

impl Layer {
    /// The category byte of the layer's archives: the first letter of their
    /// name, `t`, `s` or `o`.
    pub open spec fn spec_category(self) -> u8 {
        match self {
            Layer::Back => 116,
            Layer::Middle => 115,
            Layer::Object => 111,
        }
    }

    /// Raw sub-file numbers from this on name no archive of the layer.
    pub open spec fn spec_sub_file_limit(self) -> u8 {
        match self {
            Layer::Back => 22,
            Layer::Middle => 36,
            Layer::Object => 51,
        }
    }

    /// How many rows below its cell's top edge a sprite of the layer stands:
    /// the back layer's sprites cover two rows, the others one.
    pub open spec fn spec_rows_below(self) -> int {
        match self {
            Layer::Back => 2,
            Layer::Middle => 1,
            Layer::Object => 1,
        }
    }

    #[verifier::when_used_as_spec(spec_category)]
    pub fn category(self) -> (c: u8)
        ensures
            c == self.spec_category(),
    {
        match self {
            Layer::Back => 116,
            Layer::Middle => 115,
            Layer::Object => 111,
        }
    }

    #[verifier::when_used_as_spec(spec_sub_file_limit)]
    pub fn sub_file_limit(self) -> (limit: u8)
        ensures
            limit == self.spec_sub_file_limit(),
    {
        match self {
            Layer::Back => 22,
            Layer::Middle => 36,
            Layer::Object => 51,
        }
    }
}

/// The frame that a layer value names: the value without its flag bit is the
/// frame index plus one, and 0 names no sprite.
pub open spec fn spec_layer_frame(value: u16) -> Option<u32> {
    if value & FRAME_MASK == 0 {
        None
    } else {
        Some(((value & FRAME_MASK) - 1) as u32)
    }
}

/// Computes [`spec_layer_frame`].
pub fn layer_frame(value: u16) -> (frame: Option<u32>)
    ensures
        frame == spec_layer_frame(value),
{
    let masked: u16 = value & FRAME_MASK;
    if masked == 0 {
        None
    } else {
        Some((masked - 1) as u32)
    }
}

/// The sub-file number that a tile's raw number stands for in `layer`: one
/// more than the raw number, and 0 for a raw number of 0 or beyond the
/// layer's limit.
pub open spec fn spec_sub_file(layer: Layer, raw: u8) -> u8 {
    if raw != 0 && raw < layer.spec_sub_file_limit() {
        (raw + 1) as u8
    } else {
        0
    }
}

/// Computes [`spec_sub_file`].
pub fn sub_file(layer: Layer, raw: u8) -> (n: u8)
    ensures
        n == spec_sub_file(layer, raw),
{
    if raw != 0 && raw < layer.sub_file_limit() {
        raw + 1
    } else {
        0
    }
}

/// One sprite to draw: its layer, the archive and frame that hold it, and
/// the cell it belongs to, counted from the window's first column and row.
#[derive(Clone, Copy, Debug, PartialEq, Eq, Structural)]
pub struct DrawRequest {
    pub layer: Layer,
    pub sub_file: u8,
    pub frame: u32,
    pub cell_x: i32,
    pub cell_y: i32,
}

/// What a tile asks to have drawn, layer by layer.
#[derive(Clone, Copy, Debug, PartialEq, Eq, Structural)]
pub struct TileRequests {
    pub back: Option<DrawRequest>,
    pub middle: Option<DrawRequest>,
    pub object: Option<DrawRequest>,
}

/// The request as a sequence of none or one.
pub open spec fn optional(request: Option<DrawRequest>) -> Seq<DrawRequest> {
    match request {
        Some(r) => seq![r],
        None => Seq::empty(),
    }
}

impl TileRequests {
    /// The requests in drawing order: back, middle, object.
    pub open spec fn in_order(self) -> Seq<DrawRequest> {
        optional(self.back) + optional(self.middle) + optional(self.object)
    }
}

/// Whether the back layer of the tile at linear index `index` is drawn.
/// Back sprites cover two columns and two rows, so only a tile with an even
/// index in an even column draws one.
pub open spec fn back_drawn(tile: Tile, index: int, height: int) -> bool {
    &&& tile.back & FRAME_MASK != 0
    &&& index % 2 == 0
    &&& (index / height) % 2 == 0
}

/// Whether the middle layer of the tile is drawn.
pub open spec fn middle_drawn(tile: Tile) -> bool {
    tile.middle & FRAME_MASK != 0
}

/// Whether the object layer of the tile is drawn: animated objects are left
/// out of a still composition.
pub open spec fn object_drawn(tile: Tile) -> bool {
    &&& tile.objects & FRAME_MASK != 0
    &&& tile.frame == 0
}

/// The request for `layer` of a tile whose layer value is `value` and whose
/// raw sub-file number is `raw`.
pub open spec fn request_for(layer: Layer, value: u16, raw: u8, cell_x: i32, cell_y: i32)
    -> DrawRequest {
    DrawRequest {
        layer,
        sub_file: spec_sub_file(layer, raw),
        frame: spec_layer_frame(value).unwrap(),
        cell_x,
        cell_y,
    }
}

/// What the tile at linear index `index` of a map with `height` rows asks to
/// have drawn in cell (`cell_x`, `cell_y`).
pub open spec fn spec_tile_requests(tile: Tile, index: int, height: int, cell_x: i32, cell_y: i32)
    -> TileRequests {
    TileRequests {
        back: if back_drawn(tile, index, height) {
            Some(request_for(Layer::Back, tile.back, tile.tile_idx, cell_x, cell_y))
        } else {
            None
        },
        middle: if middle_drawn(tile) {
            Some(request_for(Layer::Middle, tile.middle, tile.middle_idx, cell_x, cell_y))
        } else {
            None
        },
        object: if object_drawn(tile) {
            Some(request_for(Layer::Object, tile.objects, tile.file_idx, cell_x, cell_y))
        } else {
            None
        },
    }
}

/// Decides what a tile asks to have drawn.
pub fn tile_requests(tile: &Tile, index: u64, height: u32, cell_x: i32, cell_y: i32) -> (r:
    TileRequests)
    requires
        height > 0,
    ensures
        r == spec_tile_requests(*tile, index as int, height as int, cell_x, cell_y),
{
    let back = match layer_frame(tile.back) {
        Some(frame) => {
            if index % 2 == 0 && (index / height as u64) % 2 == 0 {
                Some(
                    DrawRequest {
                        layer: Layer::Back,
                        sub_file: sub_file(Layer::Back, tile.tile_idx),
                        frame,
                        cell_x,
                        cell_y,
                    },
                )
            } else {
                None
            }
        },
        None => None,
    };
    let middle = match layer_frame(tile.middle) {
        Some(frame) => Some(
            DrawRequest {
                layer: Layer::Middle,
                sub_file: sub_file(Layer::Middle, tile.middle_idx),
                frame,
                cell_x,
                cell_y,
            },
        ),
        None => None,
    };
    let object = match layer_frame(tile.objects) {
        Some(frame) => {
            if tile.frame == 0 {
                Some(
                    DrawRequest {
                        layer: Layer::Object,
                        sub_file: sub_file(Layer::Object, tile.file_idx),
                        frame,
                        cell_x,
                        cell_y,
                    },
                )
            } else {
                None
            }
        },
        None => None,
    };
    TileRequests { back, middle, object }
}

/// A tile whose back value names no sprite asks for no back sprite, whatever
/// its place in the map.
pub proof fn lemma_no_back_without_sprite(
    tile: Tile,
    index: int,
    height: int,
    cell_x: i32,
    cell_y: i32,
)
    requires
        tile.back & FRAME_MASK == 0,
    ensures
        spec_tile_requests(tile, index, height, cell_x, cell_y).back is None,
        forall|i: int|
            0 <= i < spec_tile_requests(tile, index, height, cell_x, cell_y).in_order().len()
                ==> spec_tile_requests(tile, index, height, cell_x, cell_y).in_order()[i].layer
                != Layer::Back,
{
}

/// A rectangle of cells: `columns` x `rows` cells from column `x` and row `y`
/// of the map on. It may reach beyond the map.
#[derive(Clone, Copy, Debug, PartialEq, Eq, Structural)]
pub struct Window {
    pub x: i32,
    pub y: i32,
    pub columns: u16,
    pub rows: u16,
}

impl Window {
    /// The number of cells in the window.
    pub open spec fn cells(self) -> int {
        self.columns * self.rows
    }

    /// The window over a whole map of at most 65535 columns and rows; a
    /// longer axis is cut off there.
    pub fn covering(map: &MapInfo) -> (window: Window)
        ensures
            window.x == 0,
            window.y == 0,
            window.columns == (if map.width > 0xFFFF {
                0xFFFF
            } else {
                map.width as int
            }),
            window.rows == (if map.height > 0xFFFF {
                0xFFFF
            } else {
                map.height as int
            }),
    {
        Window {
            x: 0,
            y: 0,
            columns: if map.width > 0xFFFF {
                0xFFFF
            } else {
                map.width as u16
            },
            rows: if map.height > 0xFFFF {
                0xFFFF
            } else {
                map.height as u16
            },
        }
    }
}

/// What cell `k` of the window asks to have drawn, the cells counted column
/// by column. A cell outside the map asks for nothing.
pub open spec fn cell_requests(map: &MapInfo, window: Window, k: int) -> Seq<DrawRequest> {
    let dx = k / (window.rows as int);
    let dy = k % (window.rows as int);
    let column = window.x + dx;
    let row = window.y + dy;
    if 0 <= column < map.width && 0 <= row < map.height {
        let index = column * map.height + row;
        spec_tile_requests(
            map.tiles@[index],
            index,
            map.height as int,
            dx as i32,
            dy as i32,
        ).in_order()
    } else {
        Seq::empty()
    }
}

/// The requests of the first `n` cells of the window.
pub open spec fn plan_prefix(map: &MapInfo, window: Window, n: nat) -> Seq<DrawRequest>
    decreases n,
{
    if n == 0 {
        Seq::empty()
    } else {
        plan_prefix(map, window, (n - 1) as nat) + cell_requests(map, window, n - 1)
    }
}

/// Everything the window asks to have drawn: the requests of its cells,
/// column by column as the map stores them, each cell's in drawing order.
pub open spec fn spec_plan(map: &MapInfo, window: Window) -> Seq<DrawRequest> {
    plan_prefix(map, window, window.cells() as nat)
}

/// Appends a request, if there is one.
fn push_optional(out: &mut Vec<DrawRequest>, request: Option<DrawRequest>)
    ensures
        final(out)@ == old(out)@ + optional(request),
{
    match request {
        Some(r) => {
            out.push(r);
        },
        None => {
        },
    }
}

/// Lists what the window asks to have drawn.
pub fn plan(map: &MapInfo, window: Window) -> (requests: Vec<DrawRequest>)
    requires
        map.well_formed(),
    ensures
        requests@ == spec_plan(map, window),
{
    let mut out: Vec<DrawRequest> = Vec::new();
    let rows: u64 = window.rows as u64;
    let columns: u64 = window.columns as u64;
    assert(0 <= columns * rows <= 65535 * 65535) by (nonlinear_arith)
        requires
            0 <= columns <= 65535,
            0 <= rows <= 65535,
    ;
    let cells: u64 = columns * rows;
    let count: usize = map.tiles.len();
    let mut k: u64 = 0;
    while k < cells
        invariant
            k <= cells,
            cells == window.cells(),
            rows == window.rows,
            columns == window.columns,
            map.well_formed(),
            count == map.tiles@.len(),
            out@ == plan_prefix(map, window, k as nat),
        decreases cells - k,
    {
        let dx: u64 = k / rows;
        let dy: u64 = k % rows;
        assert(dx < columns) by (nonlinear_arith)
            requires
                k < columns * rows,
                dx == k / rows,
                rows > 0,
        ;
        let column: i64 = window.x as i64 + dx as i64;
        let row: i64 = window.y as i64 + dy as i64;
        if 0 <= column && column < map.width as i64 && 0 <= row && row < map.height as i64 {
            proof {
                lemma_cell_in_grid(
                    column as int,
                    row as int,
                    map.width as int,
                    map.height as int,
                );
            }
            let index: u64 = column as u64 * map.height as u64 + row as u64;
            let tile = &map.tiles[index as usize];
            let found = tile_requests(tile, index, map.height, dx as i32, dy as i32);
            push_optional(&mut out, found.back);
            push_optional(&mut out, found.middle);
            push_optional(&mut out, found.object);
        }
        k += 1;
    }
    out
}

/// The pixel at which a sprite of `sprite_height` rows is drawn when it
/// stands on the top edge of row `tile_y` in column `tile_x`.
pub open spec fn spec_pixel_position(tile_x: int, tile_y: int, sprite_height: int) -> (int, int) {
    (tile_x * CELL_WIDTH, tile_y * CELL_HEIGHT - sprite_height)
}

/// Where the sprite of a request is drawn: sprites stand on their lower
/// edge, the layer's number of rows below the top edge of their cell.
pub open spec fn spec_place(request: DrawRequest, sprite_height: u16) -> (int, int) {
    spec_pixel_position(
        request.cell_x as int,
        request.cell_y + request.layer.spec_rows_below(),
        sprite_height as int,
    )
}

/// Places a decoded frame on the raster. A frame without pixels holds a
/// place only and is not drawn.
pub fn place(request: &DrawRequest, frame: &SpriteFrame) -> (at: Option<(i64, i64)>)
    ensures
        frame@.pixel_bytes.len() == 0 ==> at is None,
        frame@.pixel_bytes.len() > 0 ==> at is Some && (at->Some_0.0 as int, at->Some_0.1 as int)
            == spec_place(*request, frame.height),
{
    if frame.is_empty() {
        return None;
    }
    let rows_below: i64 = match request.layer {
        Layer::Back => 2,
        Layer::Middle => 1,
        Layer::Object => 1,
    };
    let x: i64 = request.cell_x as i64 * CELL_WIDTH;
    let y: i64 = (request.cell_y as i64 + rows_below) * CELL_HEIGHT - frame.height as i64;
    Some((x, y))
}

/// The size of the raster that holds a whole map.
pub fn raster_size(map: &MapInfo) -> (size: (u64, u64))
    ensures
        size.0 == map.width * CELL_WIDTH,
        size.1 == map.height * CELL_HEIGHT,
{
    (map.width as u64 * 48, map.height as u64 * 32)
}

/// The size at which a raster of `width` x `height` pixels is encoded: both
/// axes are halved until neither reaches the limit.
pub open spec fn spec_export_size(width: u64, height: u64) -> (u64, u64)
    decreases width + height,
{
    if width >= RASTER_LIMIT || height >= RASTER_LIMIT {
        spec_export_size(width / 2, height / 2)
    } else {
        (width, height)
    }
}

/// Computes [`spec_export_size`]. Neither axis of the result reaches the
/// limit.
pub fn export_size(width: u64, height: u64) -> (size: (u64, u64))
    ensures
        size == spec_export_size(width, height),
        size.0 < RASTER_LIMIT,
        size.1 < RASTER_LIMIT,
{
    let mut w: u64 = width;
    let mut h: u64 = height;
    while w >= RASTER_LIMIT || h >= RASTER_LIMIT
        invariant
            spec_export_size(w, h) == spec_export_size(width, height),
        decreases w + h,
    {
        w = w / 2;
        h = h / 2;
    }
    (w, h)
}

} // verus!
