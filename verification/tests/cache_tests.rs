use mir_assets::archive::SpriteArchive;
use mir_assets::cache::{archive_key, cache_key, AssetCache};
use mir_assets::header::FrameHeader;

fn sprite_record(width: u16, height: u16, fill: u8) -> Vec<u8> {
    let size = width as usize * height as usize * 4;
    let mut bytes = FrameHeader {
        pixel_format: 3,
        compressed: 1,
        reserve: 0,
        compress_level: 0,
        width,
        height,
        offset_x: 1,
        offset_y: -1,
        payload_length: size as u32,
    }
    .to_bytes();
    bytes.extend_from_slice(&vec![fill; size]);
    bytes
}

fn three_sprites(fill: u8) -> SpriteArchive {
    let mut bytes = vec![0u8; 48];
    let mut offsets = vec![48u32];
    for i in 0..3u8 {
        bytes.extend_from_slice(&sprite_record(1 + i as u16, 2, fill + i));
        offsets.push(bytes.len() as u32);
    }
    SpriteArchive::new(bytes, offsets)
}

#[test]
fn cache_key_packs_three_fields() {
    assert_eq!(cache_key(116, 2, 7), (116u64 << 40) | (2u64 << 32) | 7);
    assert_eq!(cache_key(0, 0, 0), 0);
    assert_eq!(cache_key(255, 255, u32::MAX), 0xFFFF_FFFF_FFFF);
    assert_eq!(cache_key(1, 0, 0), 1u64 << 40);
    assert_eq!(cache_key(0, 1, 0), 1u64 << 32);
    assert_ne!(cache_key(0, 1, 0), cache_key(1, 0, 0));
    assert_eq!(archive_key(116, 2), 116 * 256 + 2);
    assert_eq!(cache_key(116, 2, 7) >> 32, archive_key(116, 2));
}

#[test]
fn cache_loads_registered_frame() {
    let mut cache = AssetCache::new();
    assert!(!cache.has_archive(116, 0));
    assert!(cache.register(116, 0, three_sprites(10)));
    assert!(cache.has_archive(116, 0));
    assert!(!cache.has_archive(116, 1));
    assert_eq!(cache.len(), 0);
    let frame = cache.load(116, 0, 1).unwrap();
    assert_eq!(frame.width, 2);
    assert_eq!(frame.height, 2);
    assert_eq!(frame.pixel_bytes, vec![11u8; 16]);
    assert_eq!(cache.len(), 1);
}

#[test]
fn cache_load_twice_gives_identical_frame() {
    let mut cache = AssetCache::new();
    cache.register(111, 3, three_sprites(40));
    let first = cache.load(111, 3, 2).unwrap().duplicate();
    assert_eq!(cache.len(), 1);
    let second = cache.load(111, 3, 2).unwrap().duplicate();
    assert_eq!(cache.len(), 1);
    assert_eq!(first.pixel_bytes, second.pixel_bytes);
    assert_eq!(first.pixel_bytes, vec![42u8; 24]);
    assert_eq!((first.width, first.height), (second.width, second.height));
    assert_eq!((first.offset_x, first.offset_y), (second.offset_x, second.offset_y));
    assert_eq!((first.offset_x, first.offset_y), (1, -1));
}

#[test]
fn cache_load_without_sprite_is_none() {
    let mut cache = AssetCache::new();
    assert!(cache.load(116, 0, 0).is_none());
    cache.register(116, 0, three_sprites(1));
    assert!(cache.load(116, 0, 3).is_none());
    assert!(cache.load(116, 1, 0).is_none());
    assert!(cache.load(115, 0, 0).is_none());
    assert_eq!(cache.len(), 0);
    assert!(cache.load(116, 0, 2).is_some());
    cache.register(115, 0, SpriteArchive::new(vec![0u8; 60], vec![48, 60]));
    assert!(cache.load(115, 0, 0).is_none());
    assert_eq!(cache.len(), 1);
}

#[test]
fn cache_peek_decodes_nothing() {
    let mut cache = AssetCache::new();
    cache.register(116, 0, three_sprites(1));
    assert!(cache.peek(116, 0, 0).is_none());
    assert!(cache.ensure(116, 0, 0));
    assert_eq!(cache.peek(116, 0, 0).unwrap().pixel_bytes, vec![1u8; 8]);
    assert!(cache.peek(116, 0, 1).is_none());
    assert!(!cache.ensure(116, 0, 9));
    assert_eq!(cache.len(), 1);
}

#[test]
fn cache_keeps_first_registered_archive() {
    let mut cache = AssetCache::new();
    assert!(cache.register(116, 0, three_sprites(1)));
    assert!(!cache.register(116, 0, three_sprites(100)));
    assert_eq!(cache.load(116, 0, 0).unwrap().pixel_bytes, vec![1u8; 8]);
    assert!(cache.register(116, 1, three_sprites(100)));
    assert_eq!(cache.load(116, 1, 0).unwrap().pixel_bytes, vec![100u8; 8]);
    assert_eq!(cache.load(116, 0, 0).unwrap().pixel_bytes, vec![1u8; 8]);
    assert_eq!(cache.len(), 2);
}

#[test]
fn bounded_cache_forgets_when_full() {
    let mut cache = AssetCache::bounded(2);
    cache.register(116, 0, three_sprites(1));
    assert!(cache.load(116, 0, 0).is_some());
    assert!(cache.load(116, 0, 1).is_some());
    assert_eq!(cache.len(), 2);
    assert!(cache.load(116, 0, 1).is_some());
    assert_eq!(cache.len(), 2);
    assert_eq!(cache.load(116, 0, 2).unwrap().pixel_bytes, vec![3u8; 24]);
    assert_eq!(cache.len(), 1);
    assert!(cache.peek(116, 0, 0).is_none());
    assert!(cache.peek(116, 0, 2).is_some());
    assert_eq!(cache.load(116, 0, 0).unwrap().pixel_bytes, vec![1u8; 8]);
    assert_eq!(cache.len(), 2);
}

#[test]
fn bounded_cache_of_zero_holds_one() {
    let mut cache = AssetCache::bounded(0);
    cache.register(116, 0, three_sprites(1));
    assert!(cache.load(116, 0, 0).is_some());
    assert_eq!(cache.len(), 1);
    assert!(cache.load(116, 0, 1).is_some());
    assert_eq!(cache.len(), 1);
    assert!(cache.peek(116, 0, 1).is_some());
}
