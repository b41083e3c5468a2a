use mir_assets::archive::SpriteFrame;
use mir_assets::compositor::{
    export_size, layer_frame, place, plan, raster_size, sub_file, tile_requests, DrawRequest,
    Layer, Window,
};
use mir_assets::map::{MapInfo, Tile};
use mir_assets::scene::Scene;

fn blank_tile() -> Tile {
    Tile {
        back: 0,
        middle: 0,
        objects: 0,
        door_idx: 0,
        door_offset: 0,
        frame: 0,
        tick: 0,
        file_idx: 0,
        light: 0,
        tile_idx: 0,
        middle_idx: 0,
    }
}

fn map_of(width: u32, height: u32, tiles: Vec<Tile>) -> MapInfo {
    MapInfo { width, height, step: 14, size: 0, name: String::from("test"), tiles }
}

fn frame_of_height(height: u16, pixels: usize) -> SpriteFrame {
    SpriteFrame { width: 1, height, offset_x: 0, offset_y: 0, pixel_bytes: vec![0u8; pixels] }
}

#[test]
fn layer_frame_masks_flag_bit() {
    assert_eq!(layer_frame(0), None);
    assert_eq!(layer_frame(0x8000), None);
    assert_eq!(layer_frame(1), Some(0));
    assert_eq!(layer_frame(0x8001), Some(0));
    assert_eq!(layer_frame(0x7FFF), Some(0x7FFE));
    assert_eq!(layer_frame(0xFFFF), Some(0x7FFE));
    assert_eq!(layer_frame(0x0102), Some(0x0101));
}

#[test]
fn sub_file_numbers_per_layer() {
    assert_eq!(sub_file(Layer::Back, 0), 0);
    assert_eq!(sub_file(Layer::Back, 1), 2);
    assert_eq!(sub_file(Layer::Back, 21), 22);
    assert_eq!(sub_file(Layer::Back, 22), 0);
    assert_eq!(sub_file(Layer::Middle, 35), 36);
    assert_eq!(sub_file(Layer::Middle, 36), 0);
    assert_eq!(sub_file(Layer::Object, 50), 51);
    assert_eq!(sub_file(Layer::Object, 51), 0);
    assert_eq!(sub_file(Layer::Object, 255), 0);
    assert_eq!(Layer::Back.category(), b't');
    assert_eq!(Layer::Middle.category(), b's');
    assert_eq!(Layer::Object.category(), b'o');
}

#[test]
fn back_layer_follows_checkerboard() {
    let tile = Tile { back: 0x0001, ..blank_tile() };
    let at_zero = tile_requests(&tile, 0, 4, 0, 0);
    assert_eq!(
        at_zero.back,
        Some(DrawRequest { layer: Layer::Back, sub_file: 0, frame: 0, cell_x: 0, cell_y: 0 })
    );
    assert_eq!(at_zero.middle, None);
    assert_eq!(at_zero.object, None);
    let at_one = tile_requests(&tile, 1, 4, 0, 1);
    assert_eq!(at_one.back, None);
    assert_eq!(at_one.middle, None);
    assert_eq!(at_one.object, None);
    assert!(tile_requests(&tile, 2, 4, 0, 2).back.is_some());
    assert!(tile_requests(&tile, 4, 4, 1, 0).back.is_none());
    assert!(tile_requests(&tile, 6, 4, 1, 2).back.is_none());
    assert!(tile_requests(&tile, 8, 4, 2, 0).back.is_some());
    assert!(tile_requests(&tile, 4, 2, 2, 0).back.is_some());
    assert!(tile_requests(&tile, 2, 2, 1, 0).back.is_none());
}

#[test]
fn tile_without_back_sprite_asks_for_none() {
    for back in [0u16, 0x8000] {
        let tile = Tile { back, middle: 5, objects: 6, tile_idx: 3, ..blank_tile() };
        for index in 0..12u64 {
            let found = tile_requests(&tile, index, 3, 0, 0);
            assert_eq!(found.back, None);
            assert!(found.middle.is_some());
            assert!(found.object.is_some());
        }
    }
}

#[test]
fn middle_and_object_layers() {
    let tile = Tile {
        back: 0,
        middle: 0x8007,
        objects: 0x0102,
        file_idx: 4,
        middle_idx: 2,
        frame: 0,
        ..blank_tile()
    };
    let found = tile_requests(&tile, 5, 3, 7, -2);
    assert_eq!(found.back, None);
    assert_eq!(
        found.middle,
        Some(DrawRequest { layer: Layer::Middle, sub_file: 3, frame: 6, cell_x: 7, cell_y: -2 })
    );
    assert_eq!(
        found.object,
        Some(DrawRequest {
            layer: Layer::Object,
            sub_file: 5,
            frame: 0x0101,
            cell_x: 7,
            cell_y: -2
        })
    );
    let animated = Tile { frame: 1, ..tile };
    let moving = tile_requests(&animated, 5, 3, 7, -2);
    assert_eq!(moving.object, None);
    assert_eq!(moving.middle, found.middle);
}

#[test]
fn plan_walks_cells_column_by_column() {
    let tiles = vec![
        Tile { back: 1, middle: 11, ..blank_tile() },
        Tile { back: 2, objects: 22, ..blank_tile() },
        Tile { back: 3, middle: 33, ..blank_tile() },
        Tile { middle: 44, objects: 45, frame: 1, ..blank_tile() },
    ];
    let map = map_of(2, 2, tiles);
    let requests = plan(&map, Window::covering(&map));
    assert_eq!(
        requests,
        vec![
            DrawRequest { layer: Layer::Back, sub_file: 0, frame: 0, cell_x: 0, cell_y: 0 },
            DrawRequest { layer: Layer::Middle, sub_file: 0, frame: 10, cell_x: 0, cell_y: 0 },
            DrawRequest { layer: Layer::Object, sub_file: 0, frame: 21, cell_x: 0, cell_y: 1 },
            DrawRequest { layer: Layer::Middle, sub_file: 0, frame: 32, cell_x: 1, cell_y: 0 },
            DrawRequest { layer: Layer::Middle, sub_file: 0, frame: 43, cell_x: 1, cell_y: 1 },
        ]
    );
}

#[test]
fn plan_window_reaches_beyond_map() {
    let tiles = vec![
        Tile { middle: 1, ..blank_tile() },
        Tile { middle: 2, ..blank_tile() },
        Tile { middle: 3, ..blank_tile() },
        Tile { middle: 4, ..blank_tile() },
    ];
    let map = map_of(2, 2, tiles);
    let window = Window { x: -1, y: 1, columns: 4, rows: 3 };
    let requests = plan(&map, window);
    assert_eq!(
        requests,
        vec![
            DrawRequest { layer: Layer::Middle, sub_file: 0, frame: 1, cell_x: 1, cell_y: 0 },
            DrawRequest { layer: Layer::Middle, sub_file: 0, frame: 3, cell_x: 2, cell_y: 0 },
        ]
    );
    assert_eq!(plan(&map, Window { x: 0, y: 0, columns: 0, rows: 5 }), vec![]);
    assert_eq!(plan(&map, Window { x: 0, y: 0, columns: 5, rows: 0 }), vec![]);
    assert_eq!(plan(&map, Window { x: 2, y: 0, columns: 3, rows: 3 }), vec![]);
}

#[test]
fn window_covering_map() {
    let map = map_of(3, 2, vec![blank_tile(); 6]);
    assert_eq!(Window::covering(&map), Window { x: 0, y: 0, columns: 3, rows: 2 });
    assert_eq!(raster_size(&map), (144, 64));
}

#[test]
fn place_stands_sprites_on_lower_edge() {
    let back = DrawRequest { layer: Layer::Back, sub_file: 0, frame: 0, cell_x: 1, cell_y: 0 };
    assert_eq!(place(&back, &frame_of_height(64, 4)), Some((48, 0)));
    assert_eq!(place(&back, &frame_of_height(100, 4)), Some((48, -36)));
    let object = DrawRequest { layer: Layer::Object, sub_file: 0, frame: 0, cell_x: 2, cell_y: 3 };
    assert_eq!(place(&object, &frame_of_height(40, 4)), Some((96, 88)));
    let middle = DrawRequest { layer: Layer::Middle, sub_file: 0, frame: 0, cell_x: 0, cell_y: 0 };
    assert_eq!(place(&middle, &frame_of_height(32, 1)), Some((0, 0)));
    assert_eq!(place(&middle, &frame_of_height(32, 0)), None);
    let far = DrawRequest {
        layer: Layer::Back,
        sub_file: 0,
        frame: 0,
        cell_x: i32::MIN,
        cell_y: i32::MAX,
    };
    assert_eq!(
        place(&far, &frame_of_height(u16::MAX, 1)),
        Some((i32::MIN as i64 * 48, (i32::MAX as i64 + 2) * 32 - 65535))
    );
}

#[test]
fn export_size_halves_until_below_limit() {
    assert_eq!(export_size(100, 200), (100, 200));
    assert_eq!(export_size(0x3FFE, 0x3FFE), (0x3FFE, 0x3FFE));
    assert_eq!(export_size(0x3FFF, 10), (0x1FFF, 5));
    assert_eq!(export_size(10, 0x3FFF), (5, 0x1FFF));
    assert_eq!(export_size(19200, 19200), (9600, 9600));
    assert_eq!(export_size(48000, 32000), (12000, 8000));
    assert_eq!(export_size(u64::MAX, 1), (u64::MAX >> 51, 0));
    assert_eq!(export_size(0, 0), (0, 0));
}

#[test]
fn scenes_are_distinct() {
    assert_ne!(Scene::Loading, Scene::Login);
    assert_ne!(Scene::Role, Scene::Play);
    assert_eq!(Scene::Play, Scene::Play);
}
