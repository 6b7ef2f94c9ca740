use page_cache::buffer_pool::BufferPool;
use page_cache::config::PAGE_SIZE;
use page_cache::database::Database;
use page_cache::disk_manager::DiskManager;
use page_cache::errors::BufferPoolError;

const TEST_CONCURRENCY: usize = 24;

#[test]
fn test_create_database_from_reader() {
    let database = vec![0u8; PAGE_SIZE];

    let db = Database::from_buffer(database);
    assert!(db.filename.is_none());
    assert_eq!(db.buffer_pool.len(), 0);
    assert!(db.buffer_pool.is_empty());
}

#[test]
fn test_database_many_readers_of_a_just_loaded_page() {
    let data = vec![7u8; PAGE_SIZE];

    let mut db = Database::from_buffer(data);
    let mut guards = Vec::with_capacity(TEST_CONCURRENCY);
    let mut n_bytes_read: usize = 0;

    for _ in 0..TEST_CONCURRENCY {
        let page = db.buffer_pool.get_page_read(0).unwrap();
        guards.push(page);
    }
    for page in &guards {
        let data = page.read(&db.buffer_pool);

        assert_eq!(data[0], 7);
        assert_eq!(data.last(), Some(&7));

        n_bytes_read += data.len();
    }
    for page in guards {
        db.buffer_pool.release_read(page);
    }

    assert_eq!(n_bytes_read, TEST_CONCURRENCY * PAGE_SIZE);
    assert_eq!(db.buffer_pool.len(), 1);
}

#[test]
fn test_database_many_writers_then_a_reader() {
    let data = vec![]; // empty database

    let mut db = Database::from_buffer(data);

    for i in 0..TEST_CONCURRENCY {
        let page = db.buffer_pool.get_page_write(0).unwrap();
        page.write(&mut db.buffer_pool, vec![i as u8; PAGE_SIZE]);
        db.buffer_pool.release_write(page);
    }

    assert_eq!(db.buffer_pool.len(), 1);
    let page = db.buffer_pool.get_page_read(0).unwrap();
    let data = page.read(&db.buffer_pool);
    let first_byte = data[0];
    // the same byte should be written in all the page
    assert_eq!(data[..], vec![first_byte; PAGE_SIZE][..]);
    assert_eq!(first_byte, (TEST_CONCURRENCY - 1) as u8);
}

#[test]
fn test_fetch_past_end_of_store_yields_a_zeroed_page() {
    let mut db = Database::from_buffer(vec![]);
    let page = db.buffer_pool.get_page_read(5).unwrap();
    let data = page.read(&db.buffer_pool);
    assert_eq!(data.len(), PAGE_SIZE);
    assert!(data.iter().all(|b| *b == 0));
    db.buffer_pool.release_read(page);
}

#[test]
fn test_pool_full_when_every_frame_is_pinned() {
    let mut pool = BufferPool::new(1, DiskManager::new(vec![]));
    let guard = pool.get_page_read(0).unwrap();
    match pool.get_page_write(1) {
        Err(BufferPoolError::BufferPoolFull) => {}
        _ => panic!("a second page must not fit while the only frame is pinned"),
    }
    pool.release_read(guard);
    // once the pin is gone the frame can be evicted and reused
    let guard2 = pool.get_page_write(1).unwrap();
    pool.release_write(guard2);
    assert_eq!(pool.len(), 1);
}

#[test]
fn test_write_back_on_eviction_round_trip() {
    let mut pool = BufferPool::new(1, DiskManager::new(vec![]));

    let mut pattern = vec![0u8; PAGE_SIZE];
    for (i, b) in pattern.iter_mut().enumerate() {
        *b = (i % 97) as u8;
    }

    let wguard = pool.get_page_write(0).unwrap();
    wguard.write(&mut pool, pattern.clone());
    pool.release_write(wguard);

    // fetching another page evicts page 0 and writes its bytes back
    let other = pool.get_page_read(1).unwrap();
    pool.release_read(other);

    // reloading page 0 yields the bytes written under the write guard
    let rguard = pool.get_page_read(0).unwrap();
    assert_eq!(rguard.read(&pool)[..], pattern[..]);
    pool.release_read(rguard);
}

#[test]
fn test_pool_hit_returns_the_cached_bytes() {
    let mut store = vec![5u8; PAGE_SIZE];
    store.extend(vec![6u8; PAGE_SIZE]);
    let mut pool = BufferPool::new(4, DiskManager::new(store));

    let g0 = pool.get_page_read(0).unwrap();
    let g1 = pool.get_page_read(1).unwrap();
    assert!(g0.read(&pool).iter().all(|b| *b == 5));
    assert!(g1.read(&pool).iter().all(|b| *b == 6));
    assert_eq!(pool.len(), 2);
    pool.release_read(g0);
    pool.release_read(g1);

    let again = pool.get_page_read(1).unwrap();
    assert!(again.read(&pool).iter().all(|b| *b == 6));
    assert_eq!(pool.len(), 2);
    pool.release_read(again);
}
