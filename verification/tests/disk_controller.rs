use bino::disk::{
    sector_name, status_of, Access, DiskMap, Outcome, Transfer, DISK_DIR, STATUS_OK, STATUS_OVERFLOW,
};
use bino::memory::Memory;

fn patterned(words: usize) -> Memory {
    let mut memory = Memory::new(words).unwrap();
    for i in 0..memory.len() {
        memory.write_byte(i, (i % 253) as u8 + 1);
    }
    memory
}

#[test]
fn status_values() {
    assert_eq!(STATUS_OK, 0);
    assert_eq!(STATUS_OVERFLOW, 255);
}

#[test]
fn status_of_a_code_that_fits_is_the_code() {
    assert_eq!(status_of(Some(2)), 2);
    assert_eq!(status_of(Some(13)), 13);
    assert_eq!(status_of(Some(0)), 0);
    assert_eq!(status_of(Some(255)), 255);
}

#[test]
fn status_of_a_code_that_does_not_fit_is_overflow() {
    assert_eq!(status_of(Some(256)), 255);
    assert_eq!(status_of(Some(258)), 255);
    assert_eq!(status_of(Some(-1)), 255);
    assert_eq!(status_of(Some(i32::MAX)), 255);
    assert_eq!(status_of(Some(i32::MIN)), 255);
    assert_eq!(status_of(None), 255);
}

#[test]
fn read_request_asks_for_the_sector() {
    let memory = patterned(8);
    let request = DiskMap { sector: 7, addr: 1_000_000, write: 0 };
    assert_eq!(request.begin(&memory), Access::Disk(Transfer::Load { sector: 7 }));
}

#[test]
fn write_request_hands_out_a_sector_of_memory() {
    let memory = patterned(128);
    let request = DiskMap { sector: 3, addr: 100, write: 1 };
    let expected: Vec<u8> = memory.bytes[100..612].to_vec();
    assert_eq!(request.begin(&memory), Access::Disk(Transfer::Store { sector: 3, data: expected }));
}

#[test]
fn write_request_up_to_the_last_byte_is_served() {
    let memory = patterned(128);
    let request = DiskMap { sector: 0, addr: 512, write: 0xFF };
    let expected: Vec<u8> = memory.bytes[512..1024].to_vec();
    assert_eq!(request.begin(&memory), Access::Disk(Transfer::Store { sector: 0, data: expected }));
}

#[test]
fn write_request_past_the_end_is_refused() {
    let memory = patterned(128);
    let before = memory.clone();
    let request = DiskMap { sector: 3, addr: 513, write: 1 };
    assert_eq!(request.begin(&memory), Access::Byte(255));
    let far = DiskMap { sector: 3, addr: u64::MAX, write: 1 };
    assert_eq!(far.begin(&memory), Access::Byte(255));
    assert_eq!(memory, before);
}

#[test]
fn loaded_contents_go_to_memory() {
    let mut memory = Memory::new(4).unwrap();
    let request = DiskMap { sector: 1, addr: 10, write: 0 };
    let status = request.complete(&mut memory, &Outcome::Loaded(vec![1, 2, 3, 4]));
    assert_eq!(status, 0);
    let mut expected = vec![0u8; 32];
    expected[10..14].copy_from_slice(&[1, 2, 3, 4]);
    assert_eq!(memory.bytes, expected);
}

#[test]
fn loaded_contents_that_end_with_memory_are_accepted() {
    let mut memory = Memory::new(1).unwrap();
    let request = DiskMap { sector: 1, addr: 5, write: 0 };
    assert_eq!(request.complete(&mut memory, &Outcome::Loaded(vec![7, 8, 9])), 0);
    assert_eq!(memory.bytes, vec![0, 0, 0, 0, 0, 7, 8, 9]);
    assert_eq!(request.complete(&mut memory, &Outcome::Loaded(vec![])), 0);
    let at_the_end = DiskMap { sector: 1, addr: 8, write: 0 };
    assert_eq!(at_the_end.complete(&mut memory, &Outcome::Loaded(vec![])), 0);
    assert_eq!(memory.bytes, vec![0, 0, 0, 0, 0, 7, 8, 9]);
}

#[test]
fn loaded_contents_past_the_end_leave_memory_alone() {
    let mut memory = patterned(4);
    let before = memory.clone();
    let request = DiskMap { sector: 1, addr: 30, write: 0 };
    assert_eq!(request.complete(&mut memory, &Outcome::Loaded(vec![1, 2, 3])), 255);
    assert_eq!(memory, before);
    let far = DiskMap { sector: 1, addr: u64::MAX, write: 0 };
    assert_eq!(far.complete(&mut memory, &Outcome::Loaded(vec![1])), 255);
    assert_eq!(memory, before);
    let beyond = DiskMap { sector: 1, addr: 33, write: 0 };
    assert_eq!(beyond.complete(&mut memory, &Outcome::Loaded(vec![])), 255);
    assert_eq!(memory, before);
}

#[test]
fn stored_sector_gives_ok() {
    let mut memory = patterned(128);
    let before = memory.clone();
    let request = DiskMap { sector: 1, addr: 0, write: 1 };
    assert_eq!(request.complete(&mut memory, &Outcome::Stored), 0);
    assert_eq!(memory, before);
}

#[test]
fn failure_gives_its_code() {
    let mut memory = patterned(4);
    let before = memory.clone();
    let request = DiskMap { sector: 1, addr: 0, write: 0 };
    assert_eq!(request.complete(&mut memory, &Outcome::Failed(Some(2))), 2);
    assert_eq!(request.complete(&mut memory, &Outcome::Failed(Some(1000))), 255);
    assert_eq!(request.complete(&mut memory, &Outcome::Failed(None)), 255);
    assert_eq!(memory, before);
}

#[test]
fn sector_written_and_read_back_restores_the_bytes() {
    let mut memory = patterned(200);
    let initial = memory.clone();
    let writing = DiskMap { sector: 42, addr: 640, write: 1 };
    let stored = match writing.begin(&memory) {
        Access::Disk(Transfer::Store { sector, data }) => {
            assert_eq!(sector, 42);
            data
        },
        other => panic!("no store: {:?}", other),
    };
    assert_eq!(writing.complete(&mut memory, &Outcome::Stored), 0);
    for i in 600..1200 {
        memory.write_byte(i, 0);
    }
    let reading = DiskMap { sector: 42, addr: 640, write: 0 };
    assert_eq!(reading.begin(&memory), Access::Disk(Transfer::Load { sector: 42 }));
    assert_eq!(reading.complete(&mut memory, &Outcome::Loaded(stored)), 0);
    assert_eq!(memory.bytes[640..1152], initial.bytes[640..1152]);
    assert_eq!(memory.bytes[600..640], [0u8; 40]);
    assert_eq!(memory.bytes[1152..1200], [0u8; 48]);
    assert_eq!(memory.bytes[..600], initial.bytes[..600]);
    assert_eq!(memory.bytes[1200..], initial.bytes[1200..]);
}

#[test]
fn sector_name_is_the_index_in_decimal() {
    assert_eq!(DISK_DIR, "disk");
    assert_eq!(sector_name(0), b"0".to_vec());
    assert_eq!(sector_name(7), b"7".to_vec());
    assert_eq!(sector_name(10), b"10".to_vec());
    assert_eq!(sector_name(12345), b"12345".to_vec());
    assert_eq!(sector_name(1_000_000), b"1000000".to_vec());
    assert_eq!(sector_name(u64::MAX), b"18446744073709551615".to_vec());
}

#[test]
fn sector_name_agrees_with_the_usual_formatting() {
    let mut sector: u64 = 1;
    for _ in 0..64 {
        assert_eq!(sector_name(sector), format!("{}", sector).into_bytes());
        assert_eq!(sector_name(sector - 1), format!("{}", sector - 1).into_bytes());
        sector = sector.wrapping_mul(3).wrapping_add(sector >> 3).max(1);
    }
}
