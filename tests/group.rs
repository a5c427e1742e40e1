use kvsep::group::{GroupLog, MAX_FILES};
use kvsep::store::{Location, KV};

#[test]
fn first_append_opens_file_zero() {
    let mut g = GroupLog::new(10);
    assert_eq!(g.file_count(), 0);
    assert_eq!(g.place(4), Some(Location { file_index: 0, offset: 0, length: 4 }));
    assert_eq!(g.place(6), Some(Location { file_index: 0, offset: 4, length: 6 }));
    assert_eq!(g.file_count(), 1);
}

#[test]
fn append_past_limit_rotates() {
    let mut g = GroupLog::new(10);
    g.place(6);
    assert_eq!(g.place(5), Some(Location { file_index: 1, offset: 0, length: 5 }));
    assert_eq!(g.file_count(), 2);
}

#[test]
fn oversized_append_fills_an_empty_file() {
    let mut g = GroupLog::new(4);
    assert_eq!(g.place(9), Some(Location { file_index: 0, offset: 0, length: 9 }));
    assert_eq!(g.place(1), Some(Location { file_index: 1, offset: 0, length: 1 }));
}

#[test]
fn no_file_past_the_last_index() {
    let mut g = GroupLog::open(4, vec![4; MAX_FILES]).unwrap();
    assert_eq!(g.place(1), None);
    assert_eq!(g.file_count(), MAX_FILES);
    assert_eq!(g.place(0), Some(Location { file_index: 255, offset: 4, length: 0 }));
    let mut h = GroupLog::open(4, vec![4; MAX_FILES - 1]).unwrap();
    assert_eq!(h.place(1), Some(Location { file_index: 255, offset: 0, length: 1 }));
    assert!(GroupLog::open(4, vec![0; MAX_FILES + 1]).is_none());
}

#[test]
fn kv_keeps_its_configuration() {
    let kv = KV::new("/data/meta", "/data/kv", 4096);
    assert_eq!(kv.meta_dir(), "/data/meta");
    assert_eq!(kv.kv_dir(), "/data/kv");
    assert_eq!(kv.limit_per_file(), 4096);
}
