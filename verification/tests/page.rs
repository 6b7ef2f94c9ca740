use page_cache::config::PAGE_SIZE;
use page_cache::page::{SlottedPage, Tuple};

#[test]
fn test_get_n_tuple_returns_the_slot_bytes() {
    let mut data = vec![0u8; PAGE_SIZE];
    // slot 0: offset 16, length 4, big-endian
    data[0] = 0;
    data[1] = 16;
    data[2] = 0;
    data[3] = 4;
    data[16..20].copy_from_slice(b"tupl");

    let page = SlottedPage::new(&data);
    let tuple = page.get_n_tuple(0).unwrap();
    assert_eq!(tuple.bytes(), b"tupl");
}

#[test]
fn test_get_n_tuple_rejects_a_slot_past_the_page() {
    let mut data = vec![0u8; PAGE_SIZE];
    // slot 0 reports offset 4092, length 8: past the page's end
    data[0] = 0x0f;
    data[1] = 0xfc;
    data[2] = 0;
    data[3] = 8;

    let page = SlottedPage::new(&data);
    assert!(page.get_n_tuple(0).is_none());
}

#[test]
fn test_get_n_tuple_rejects_a_slot_number_outside_the_page() {
    let data = vec![0u8; PAGE_SIZE];
    let page = SlottedPage::new(&data);
    assert!(page.get_n_tuple(PAGE_SIZE).is_none());
}

#[test]
fn test_tuple_wraps_bytes() {
    let bytes = b"some tuple";
    let tuple = Tuple::from(bytes);
    assert_eq!(tuple.bytes(), bytes);
}
