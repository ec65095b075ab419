use bino::disk::{Access, DiskMap, Transfer};
use bino::keyboard::KeyMap;
use bino::mapped::{size_of_mapped, Mapped, VideoMap, DISK_MAP_SIZE, PIXEL_SIZE};
use bino::memory::Memory;

#[test]
fn layout_constants() {
    assert_eq!(DISK_MAP_SIZE, 24);
    assert_eq!(PIXEL_SIZE, 4);
}

#[test]
fn size_is_the_three_parts_in_whole_words() {
    assert_eq!(size_of_mapped(0), Some(40));
    assert_eq!(size_of_mapped(1), Some(48));
    assert_eq!(size_of_mapped(2), Some(48));
    assert_eq!(size_of_mapped(3), Some(56));
    assert_eq!(size_of_mapped(600 * 400), Some(24 + 600 * 400 * 4 + 16));
}

#[test]
fn size_that_does_not_fit_is_refused() {
    assert_eq!(size_of_mapped(usize::MAX), None);
    assert_eq!(size_of_mapped(usize::MAX / 4), None);
    assert!(Mapped::new(usize::MAX / 4).is_none());
}

#[test]
fn new_region_is_zero() {
    let map = Mapped::new(5).unwrap();
    assert_eq!(map.len(), 64);
    assert_eq!(map.bytes, vec![0u8; 64]);
    assert_eq!(map.disk_map(), DiskMap { sector: 0, addr: 0, write: 0 });
    assert_eq!(map.video_map(5).pixels, vec![0u32; 5]);
    assert_eq!(map.key_map(5).keys, [0u8; 16]);
}

#[test]
fn disk_map_decodes_the_first_bytes() {
    let mut map = Mapped::new(1).unwrap();
    map.data_mut()[..17].copy_from_slice(&[
        0x39, 0x30, 0, 0, 0, 0, 0, 0, 0, 0x02, 0, 0, 0, 0, 0, 0, 7,
    ]);
    assert_eq!(map.disk_map(), DiskMap { sector: 12345, addr: 512, write: 7 });
}

#[test]
fn disk_map_mut_stores_the_request() {
    let mut map = Mapped { bytes: vec![0xEE; 48] };
    let request = DiskMap { sector: 0x0102_0304_0506_0708, addr: 0x1112_1314_1516_1718, write: 1 };
    map.disk_map_mut(&request);
    assert_eq!(map.disk_map(), request);
    assert_eq!(
        map.bytes[..17],
        [8, 7, 6, 5, 4, 3, 2, 1, 0x18, 0x17, 0x16, 0x15, 0x14, 0x13, 0x12, 0x11, 1]
    );
    assert_eq!(map.bytes[17..], [0xEE; 31]);
}

#[test]
fn video_map_decodes_the_pixels() {
    let mut map = Mapped::new(3).unwrap();
    map.data_mut()[24..36].copy_from_slice(&[
        0x44, 0x33, 0x22, 0x11, 0xFF, 0xFF, 0xFF, 0xFF, 1, 0, 0, 0,
    ]);
    assert_eq!(map.video_map(3).pixels, vec![0x1122_3344, 0xFFFF_FFFF, 1]);
    assert_eq!(map.video_map(2).pixels, vec![0x1122_3344, 0xFFFF_FFFF]);
    assert_eq!(map.video_map(0).pixels, Vec::<u32>::new());
}

#[test]
fn video_map_mut_stores_the_pixels() {
    let mut map = Mapped { bytes: vec![0xEE; 56] };
    let video = VideoMap { pixels: vec![0x00FF_8040, 0xDEAD_BEEF, 0] };
    map.video_map_mut(3, &video);
    assert_eq!(map.video_map(3), video);
    assert_eq!(map.bytes[..24], [0xEE; 24]);
    assert_eq!(map.bytes[24..36], [0x40, 0x80, 0xFF, 0x00, 0xEF, 0xBE, 0xAD, 0xDE, 0, 0, 0, 0]);
    assert_eq!(map.bytes[36..], [0xEE; 20]);
}

#[test]
fn key_map_reads_behind_the_framebuffer() {
    let mut map = Mapped::new(2).unwrap();
    for i in 0..16 {
        map.data_mut()[32 + i] = 50 + i as u8;
    }
    assert_eq!(
        map.key_map(2).keys,
        [50, 51, 52, 53, 54, 55, 56, 57, 58, 59, 60, 61, 62, 63, 64, 65]
    );
}

#[test]
fn key_map_mut_stores_the_keys() {
    let mut map = Mapped { bytes: vec![0xEE; 48] };
    let keys = KeyMap { keys: [1, 2, 3, 4, 5, 6, 7, 8, 9, 10, 11, 12, 13, 14, 15, 16] };
    map.key_map_mut(2, &keys);
    assert_eq!(map.key_map(2), keys);
    assert_eq!(map.bytes[..32], [0xEE; 32]);
    assert_eq!(map.bytes[32..], keys.keys);
}

#[test]
fn keys_that_were_refreshed_are_read_from_the_region() {
    let memory = Memory::new(1).unwrap();
    let mut map = Mapped::new(4).unwrap();
    let mut keys = map.key_map(4);
    keys.update(&Some(vec![21, 22, 23]));
    map.key_map_mut(4, &keys);
    assert_eq!(map.read(&memory, 40), Access::Byte(21));
    assert_eq!(map.read(&memory, 41), Access::Byte(22));
    assert_eq!(map.read(&memory, 42), Access::Byte(23));
    for i in 43..56 {
        assert_eq!(map.read(&memory, i), Access::Byte(0));
    }
}

#[test]
fn framebuffer_bytes_are_read_back() {
    let memory = Memory::new(1).unwrap();
    let mut map = Mapped::new(2).unwrap();
    assert_eq!(map.write(&memory, 24, 0x11), None);
    assert_eq!(map.write(&memory, 27, 0x44), None);
    assert_eq!(map.write(&memory, 31, 0x88), None);
    assert_eq!(map.read(&memory, 24), Access::Byte(0x11));
    assert_eq!(map.read(&memory, 27), Access::Byte(0x44));
    assert_eq!(map.read(&memory, 31), Access::Byte(0x88));
    assert_eq!(map.read(&memory, 25), Access::Byte(0));
    assert_eq!(map.write(&memory, 27, 0x55), None);
    assert_eq!(map.read(&memory, 27), Access::Byte(0x55));
    assert_eq!(map.read(&memory, 24), Access::Byte(0x11));
    assert_eq!(map.video_map(2).pixels, vec![0x5500_0011, 0x8800_0000]);
}

#[test]
fn four_byte_writes_build_one_pixel() {
    let memory = Memory::new(1).unwrap();
    let mut map = Mapped::new(1).unwrap();
    map.write(&memory, 24, 0xDD);
    map.write(&memory, 25, 0xCC);
    map.write(&memory, 26, 0xBB);
    map.write(&memory, 27, 0xAA);
    assert_eq!(map.video_map(1).pixels, vec![0xAABB_CCDD]);
}

#[test]
fn write_outside_offset_zero_starts_no_transfer() {
    let memory = Memory::new(100).unwrap();
    let mut map = Mapped::new(1).unwrap();
    for addr in 1..48 {
        assert_eq!(map.write(&memory, addr, 1), None);
        assert_eq!(map.read(&memory, addr), Access::Byte(1));
    }
}

#[test]
fn read_at_offset_zero_serves_the_request() {
    let memory = Memory { bytes: (0..1024).map(|i| (i % 256) as u8).collect() };
    let mut map = Mapped::new(1).unwrap();
    map.disk_map_mut(&DiskMap { sector: 9, addr: 16, write: 0 });
    assert_eq!(map.read(&memory, 0), Access::Disk(Transfer::Load { sector: 9 }));
    map.disk_map_mut(&DiskMap { sector: 9, addr: 16, write: 1 });
    assert_eq!(
        map.read(&memory, 0),
        Access::Disk(Transfer::Store { sector: 9, data: memory.bytes[16..528].to_vec() })
    );
    map.disk_map_mut(&DiskMap { sector: 9, addr: 600, write: 1 });
    assert_eq!(map.read(&memory, 0), Access::Byte(255));
}

#[test]
fn write_at_offset_zero_stores_and_serves_the_request() {
    let memory = Memory { bytes: (0..1024).map(|i| (i % 256) as u8).collect() };
    let mut map = Mapped::new(1).unwrap();
    map.disk_map_mut(&DiskMap { sector: 0x0300, addr: 512, write: 0 });
    assert_eq!(map.write(&memory, 0, 4), Some(Transfer::Load { sector: 0x0304 }));
    assert_eq!(map.disk_map().sector, 0x0304);
    map.disk_map_mut(&DiskMap { sector: 0x0300, addr: 512, write: 2 });
    assert_eq!(
        map.write(&memory, 0, 5),
        Some(Transfer::Store { sector: 0x0305, data: memory.bytes[512..].to_vec() })
    );
    map.disk_map_mut(&DiskMap { sector: 0x0300, addr: 513, write: 2 });
    assert_eq!(map.write(&memory, 0, 6), None);
    assert_eq!(map.disk_map(), DiskMap { sector: 0x0306, addr: 513, write: 2 });
}

#[test]
fn mapped_data_and_data_mut_are_the_bytes() {
    let mut map = Mapped::new(0).unwrap();
    assert_eq!(map.data(), &[0u8; 40]);
    map.data_mut()[39] = 3;
    assert_eq!(map.data()[39], 3);
    assert_eq!(map.bytes[39], 3);
}
