//! Memory that backs disks.

use rblk::bio::Segment;
use rblk::device::{Memory, NullBlkDevice};
use rblk::disk_storage::page::{NullBlockPage, Page};
use rblk::disk_storage::DiskStorage;
use rblk::error::{Errno, EINVAL, ENOMEM};

fn pattern(sectors: usize, seed: u8) -> Vec<u8> {
    (0..sectors * 512).map(|i| (i / 512) as u8 ^ (i % 251) as u8 ^ seed).collect()
}

fn write(storage: &mut DiskStorage, spare: &mut Option<NullBlockPage>, sector: u64, data: Vec<u8>) {
    let mut memory = Memory { grants: 1000 };
    let mut segment = Segment::new(0, data);
    NullBlkDevice::write(storage, spare, &mut memory, 512, sector, &mut segment, false).unwrap();
    assert!(segment.is_empty());
}

fn read(storage: &DiskStorage, sector: u64, sectors: usize) -> Vec<u8> {
    let mut segment = Segment::new(0, vec![0xee; sectors * 512]);
    NullBlkDevice::read(storage, sector, &mut segment).unwrap();
    segment.into_data()
}

#[test]
fn pages_record_their_sectors() {
    let mut page = NullBlockPage::new(512, Ok(())).unwrap();
    assert!(page.is_empty());
    assert!(!page.is_full());
    page.set_occupied(8);
    assert!(!page.is_empty());
    page.set_free(8);
    assert!(page.is_empty());
    for sector in 0..8 {
        assert!(!page.is_full());
        page.set_occupied(sector);
    }
    assert!(page.is_full());
    page.reset();
    assert!(page.is_empty());
    let mut large = NullBlockPage::new(4096, Ok(())).unwrap();
    large.set_occupied(0);
    assert!(large.is_full());
    assert!(NullBlockPage::new(512, Err(Errno(ENOMEM))).is_err());
}

#[test]
fn pages_copy_parts_of_themselves() {
    let mut from = Page::zeroed();
    from.set_byte(600, 7);
    let mut to = Page::zeroed();
    to.set_byte(5, 9);
    from.copy_to_page(&mut to, 512, 512).unwrap();
    assert_eq!(to.byte(600), 7);
    assert_eq!(to.byte(5), 9);
    assert_eq!(from.copy_to_page(&mut to, 4000, 512), Err(Errno(EINVAL)));
}

#[test]
fn sectors_belong_to_pages() {
    assert_eq!(DiskStorage::to_index(0), 0);
    assert_eq!(DiskStorage::to_index(7), 0);
    assert_eq!(DiskStorage::to_index(8), 1);
    assert_eq!(DiskStorage::to_sector(3), 24);
}

#[test]
fn written_sectors_are_read_back() {
    let mut storage = DiskStorage::new(0, 512);
    let mut spare = None;
    let data = pattern(24, 3);
    write(&mut storage, &mut spare, 5, data.clone());
    assert_eq!(read(&storage, 5, 24), data);
    assert_eq!(read(&storage, 6, 1), data[512..1024]);
    assert_eq!(read(&storage, 0, 5), vec![0; 5 * 512]);
    assert_eq!(read(&storage, 29, 4), vec![0; 4 * 512]);
    let newer = pattern(2, 90);
    write(&mut storage, &mut spare, 7, newer.clone());
    let all = read(&storage, 5, 24);
    assert_eq!(all[..1024], data[..1024]);
    assert_eq!(all[1024..2048], newer[..]);
    assert_eq!(all[2048..], data[2048..]);
}

#[test]
fn written_sectors_are_read_back_through_a_cache() {
    let mut storage = DiskStorage::new(1 << 20, 512);
    assert!(storage.cache_enabled());
    let mut spare = None;
    let data = pattern(20, 11);
    write(&mut storage, &mut spare, 3, data.clone());
    assert_eq!(read(&storage, 3, 20), data);
    assert!(!DiskStorage::new(0, 512).cache_enabled());
}

#[test]
fn flushes_keep_the_content() {
    let mut storage = DiskStorage::new(1 << 20, 512);
    let mut spare = None;
    let data = pattern(4, 12);
    write(&mut storage, &mut spare, 10, data.clone());
    assert!(storage.get_cache_page(10).is_some());
    let mut page = Some(NullBlockPage::new(512, Ok(())).unwrap());
    storage.flush(&mut page);
    assert!(page.is_none());
    assert_eq!(storage.cache_size_used, 0);
    assert!(storage.get_cache_page(10).is_none());
    assert_eq!(read(&storage, 10, 4), data);
    // A page of the cache stands for the whole page of the disk.
    let newer = pattern(1, 99);
    write(&mut storage, &mut spare, 11, newer.clone());
    assert_eq!(read(&storage, 10, 1), vec![0; 512]);
    let mut none = None;
    storage.flush(&mut none);
    let all = read(&storage, 10, 4);
    assert_eq!(all[..512], [0; 512]);
    assert_eq!(all[512..1024], newer[..]);
    assert_eq!(all[1024..], [0; 1024]);
}

#[test]
fn a_cache_at_its_limit_makes_room() {
    let mut storage = DiskStorage::new(4096, 512);
    let mut spare = None;
    let data = pattern(4, 12);
    write(&mut storage, &mut spare, 10, data.clone());
    storage.cache_size_used = 4096;
    let mut page = Some(NullBlockPage::new(512, Ok(())).unwrap());
    assert!(storage.get_write_page(&mut page, 40, false).is_ok());
    assert!(page.is_none());
    assert_eq!(storage.cache_size_used, 0);
    assert!(storage.get_cache_page(10).is_none());
    assert!(storage.get_cache_page(40).is_some());
    assert_eq!(read(&storage, 10, 4), data);
}

#[test]
fn unaligned_segments_are_written() {
    let mut storage = DiskStorage::new(0, 512);
    let mut spare = None;
    let mut memory = Memory { grants: 100 };
    let data = pattern(3, 77);
    let mut segment = Segment::new(1024, data.clone());
    assert_eq!(segment.len(), 1536);
    NullBlkDevice::write(&mut storage, &mut spare, &mut memory, 512, 14, &mut segment, false)
        .unwrap();
    assert_eq!(read(&storage, 14, 3), data);
}

#[test]
fn writes_need_memory() {
    let mut storage = DiskStorage::new(0, 512);
    let mut spare = None;
    let mut memory = Memory { grants: 0 };
    let mut segment = Segment::new(0, pattern(1, 1));
    let failed = NullBlkDevice::write(
        &mut storage, &mut spare, &mut memory, 512, 0, &mut segment, false,
    );
    assert_eq!(failed, Err(Errno(ENOMEM)));
    assert_eq!(read(&storage, 0, 1), vec![0; 512]);
    assert_eq!(memory.allocate(), Err(Errno(ENOMEM)));
    let mut memory = Memory { grants: 1 };
    assert_eq!(memory.allocate(), Ok(()));
    assert_eq!(memory.grants, 0);
}

#[test]
fn freed_sectors_read_as_zeroes_once_their_page_is_gone() {
    let mut storage = DiskStorage::new(0, 4096);
    let mut spare = None;
    let mut memory = Memory { grants: 100 };
    let data = pattern(8, 5);
    let mut segment = Segment::new(0, data.clone());
    NullBlkDevice::write(&mut storage, &mut spare, &mut memory, 4096, 16, &mut segment, false)
        .unwrap();
    assert_eq!(read(&storage, 16, 8), data);
    storage.free_sector(16);
    assert!(storage.get_read_page(16).is_none());
    assert_eq!(read(&storage, 16, 8), vec![0; 4096]);
}

#[test]
fn discards_free_all_blocks_of_the_range() {
    for (cache, block_size) in [(0, 4096), (1 << 20, 4096), (0, 512), (1 << 20, 512)] {
        let mut storage = DiskStorage::new(cache, block_size);
        let mut spare = None;
        let mut memory = Memory { grants: 100 };
        let mut segment = Segment::new(0, pattern(32, 5));
        NullBlkDevice::write(
            &mut storage, &mut spare, &mut memory, block_size, 0, &mut segment, false,
        )
        .unwrap();
        storage.discard(8, 16);
        assert!(storage.get_read_page(0).is_some());
        assert!(storage.get_read_page(8).is_none());
        assert!(storage.get_read_page(16).is_none());
        assert!(storage.get_read_page(24).is_some());
        assert_eq!(read(&storage, 0, 8), pattern(32, 5)[..4096]);
        assert_eq!(read(&storage, 8, 16), vec![0; 8192]);
    }
}

#[test]
fn reads_step_over_holes() {
    let mut storage = DiskStorage::new(0, 512);
    let mut spare = None;
    let data = pattern(8, 9);
    write(&mut storage, &mut spare, 16, data.clone());
    let all = read(&storage, 0, 32);
    assert_eq!(all[..8192], [0; 8192]);
    assert_eq!(all[8192..12288], data[..]);
    assert_eq!(all[12288..], [0; 4096]);
}

#[test]
fn segments_move_through_pages() {
    let mut segment = Segment::new(100, vec![1, 2, 3, 4, 5]);
    let mut page = Page::zeroed();
    assert_eq!(segment.copy_to_page_limit(&mut page, 10, 2), 2);
    assert_eq!((page.byte(10), page.byte(11), page.byte(12)), (1, 2, 0));
    assert_eq!(segment.len(), 3);
    page.set_byte(50, 60);
    assert_eq!(segment.copy_from_page(&page, 50), 3);
    assert!(segment.is_empty());
    assert_eq!(segment.into_data(), vec![1, 2, 60, 0, 0]);
    let mut segment = Segment::new(0, vec![9; 4]);
    assert_eq!(segment.zero_page(), 4);
    assert_eq!(segment.into_data(), vec![0; 4]);
}

#[test]
fn sheaves_hold_nodes_for_two_entries() {
    assert_eq!(NullBlkDevice::sheaf_size(), if usize::BITS == 64 { 22 } else { 12 });
}
