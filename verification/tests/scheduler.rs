use page_cache::config::PAGE_SIZE;
use page_cache::disk_manager::{page_id_to_file_offset, DiskManager};
use page_cache::disk_scheduler::{DiskScheduler, ScheduleOutcome};
use page_cache::frame::Frame;

#[test]
fn test_disk_scheduler() {
    let mut frame1 = Frame::new(vec![0u8; PAGE_SIZE]);
    let mut frame2 = Frame::new(vec![0u8; PAGE_SIZE]);

    // Write some string data into frame1
    let data = b"A test string.";
    frame1.data[0..data.len()].copy_from_slice(data);

    let db = DiskManager::new(vec![]);

    let mut scheduler = DiskScheduler::new(db);

    match scheduler.schedule_write(0, &frame1.data).recv() {
        Ok(ScheduleOutcome::WriteDone) => {}
        _ => panic!("write failed"),
    }
    frame2.data = match scheduler.schedule_read(0).recv() {
        Ok(ScheduleOutcome::ReadDone(bytes)) => bytes,
        _ => panic!("read failed"),
    };

    let data1 = &frame1.data;
    let data2 = &frame2.data;

    assert_eq!(data1, data2, "Data mismatch");
}

#[test]
fn test_scheduler_read_past_end_is_a_zeroed_page() {
    let mut scheduler = DiskScheduler::new(DiskManager::new(vec![]));
    let bytes = match scheduler.schedule_read(5).recv() {
        Ok(ScheduleOutcome::ReadDone(bytes)) => bytes,
        _ => panic!("read failed"),
    };
    assert_eq!(bytes, vec![0u8; PAGE_SIZE]);
}

#[test]
fn test_disk_manager_write_then_read_round_trip() {
    let mut dm = DiskManager::new(vec![]);
    let mut page = vec![0u8; PAGE_SIZE];
    for (i, b) in page.iter_mut().enumerate() {
        *b = (i % 251) as u8;
    }
    dm.write_page(3, &page);
    let read = dm.read_page(3);
    assert_eq!(read, page);
    // pages 0..3 were zero-filled by the gap
    assert_eq!(dm.bytes().len(), 4 * PAGE_SIZE);
    assert_eq!(&dm.bytes()[0..PAGE_SIZE], &vec![0u8; PAGE_SIZE][..]);
}

#[test]
fn test_disk_manager_short_store_reads_as_empty_and_extends() {
    // A store shorter than one page: the read zero-fills the page region.
    let mut dm = DiskManager::new(vec![9u8; 100]);
    let read = dm.read_page(0);
    assert_eq!(read, vec![0u8; PAGE_SIZE]);
    assert_eq!(dm.bytes().len(), PAGE_SIZE);
    let again = dm.read_page(0);
    assert_eq!(again, vec![0u8; PAGE_SIZE]);
}

#[test]
fn test_disk_manager_write_preserves_other_pages() {
    let mut dm = DiskManager::new(vec![]);
    let ones = vec![1u8; PAGE_SIZE];
    let twos = vec![2u8; PAGE_SIZE];
    dm.write_page(0, &ones);
    dm.write_page(1, &twos);
    assert_eq!(dm.read_page(0), ones);
    assert_eq!(dm.read_page(1), twos);
}

#[test]
fn test_page_id_to_file_offset_is_structural() {
    assert_eq!(page_id_to_file_offset(0), 0);
    assert_eq!(page_id_to_file_offset(1), PAGE_SIZE as u64);
    assert_eq!(page_id_to_file_offset(7), 7 * PAGE_SIZE as u64);
    assert_eq!(
        page_id_to_file_offset(u32::MAX),
        u32::MAX as u64 * PAGE_SIZE as u64
    );
}
