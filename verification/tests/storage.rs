use hypersync::storage::{RandomAccessProxy, StorageError, Store, WasmStorage};

fn store() -> RandomAccessProxy {
    RandomAccessProxy::new(String::from("data"))
}

#[test]
fn write_then_read_returns_the_bytes() {
    let mut s = store();
    s.write(0, &vec![1u8, 2, 3, 4]).unwrap();
    assert_eq!(s.read(0, 4).unwrap(), vec![1u8, 2, 3, 4]);
}

#[test]
fn write_at_an_offset_then_read_returns_the_bytes() {
    let mut s = store();
    s.write(0, &vec![9u8; 10]).unwrap();
    s.write(3, &vec![7u8, 8]).unwrap();
    assert_eq!(s.read(3, 2).unwrap(), vec![7u8, 8]);
    assert_eq!(s.read(0, 3).unwrap(), vec![9u8, 9, 9]);
    assert_eq!(s.len(), 10);
}

#[test]
fn write_past_the_end_zero_fills_the_gap() {
    let mut s = store();
    s.write(4, &vec![5u8, 6]).unwrap();
    assert_eq!(s.len(), 6);
    assert_eq!(s.read(0, 6).unwrap(), vec![0u8, 0, 0, 0, 5, 6]);
}

#[test]
fn write_extends_the_tracked_length_to_the_maximum() {
    let mut s = store();
    s.write(0, &vec![1u8; 8]).unwrap();
    s.write(2, &vec![2u8, 2]).unwrap();
    assert_eq!(s.len(), 8);
}

#[test]
fn read_past_the_tracked_length_is_out_of_bounds() {
    let mut s = store();
    s.write(0, &vec![1u8, 2, 3]).unwrap();
    assert_eq!(s.read(0, 4), Err(StorageError::OutOfBounds));
    assert_eq!(s.read(3, 1), Err(StorageError::OutOfBounds));
    assert_eq!(s.read(2, 1).unwrap(), vec![3u8]);
}

#[test]
fn zero_length_read_past_an_empty_store_is_out_of_bounds() {
    let s = store();
    assert_eq!(s.read(5, 0), Err(StorageError::OutOfBounds));
}

#[test]
fn zero_length_read_at_the_end_is_empty() {
    let s = store();
    assert_eq!(s.read(0, 0).unwrap(), Vec::<u8>::new());
}

#[test]
fn del_inside_the_store_zeroes_the_range() {
    let mut s = store();
    s.write(0, &vec![1u8, 2, 3, 4, 5]).unwrap();
    s.del(1, 2).unwrap();
    assert_eq!(s.read(0, 5).unwrap(), vec![1u8, 0, 0, 4, 5]);
    assert_eq!(s.len(), 5);
}

#[test]
fn del_reaching_the_end_shrinks_the_store() {
    let mut s = store();
    s.write(0, &vec![1u8, 2, 3, 4, 5]).unwrap();
    s.del(2, 100).unwrap();
    assert_eq!(s.len(), 2);
    assert_eq!(s.read(0, 2).unwrap(), vec![1u8, 2]);
}

#[test]
fn del_past_the_end_changes_nothing() {
    let mut s = store();
    s.write(0, &vec![1u8, 2]).unwrap();
    s.del(5, 3).unwrap();
    assert_eq!(s.read(0, 2).unwrap(), vec![1u8, 2]);
    assert_eq!(s.len(), 2);
}

#[test]
fn truncate_discards_bytes_from_the_end() {
    let mut s = store();
    s.write(0, &vec![1u8, 2, 3, 4]).unwrap();
    s.truncate(2).unwrap();
    assert_eq!(s.len(), 2);
    assert_eq!(s.read(0, 2).unwrap(), vec![1u8, 2]);
    assert_eq!(s.read(0, 3), Err(StorageError::OutOfBounds));
}

#[test]
fn truncate_grows_with_zero_padding() {
    let mut s = store();
    s.write(0, &vec![1u8, 2]).unwrap();
    s.truncate(5).unwrap();
    assert_eq!(s.len(), 5);
    assert_eq!(s.read(0, 5).unwrap(), vec![1u8, 2, 0, 0, 0]);
}

#[test]
fn a_new_store_is_empty() {
    let s = store();
    assert!(s.is_empty());
    assert_eq!(s.len(), 0);
    let mut s = s;
    s.write(0, &vec![1u8]).unwrap();
    assert!(!s.is_empty());
}

#[test]
fn sync_all_succeeds() {
    let s = store();
    assert!(s.sync_all().is_ok());
}

#[test]
fn the_four_stores_open_empty_under_their_names() {
    let mut storage = WasmStorage::new_proxy();
    assert_eq!(Store::Tree.name(), "tree");
    assert_eq!(Store::Data.name(), "data");
    assert_eq!(Store::Bitfield.name(), "bitfield");
    assert_eq!(Store::Oplog.name(), "oplog");
    assert!(storage.store(Store::Tree).is_empty());
    assert!(storage.store(Store::Oplog).is_empty());
    storage
        .store_mut(Store::Data)
        .write(0, &vec![1u8, 2])
        .unwrap();
    assert_eq!(storage.store(Store::Data).len(), 2);
    assert!(storage.store(Store::Bitfield).is_empty());
}
