use jtaskstats::thread::{ThreadInfo, ThreadMapping};

#[test]
fn new_thread_is_java_exactly_when_tid_is_not_zero() {
    assert!(ThreadInfo::new(1, 1, "a".to_string()).is_java());
    assert!(ThreadInfo::new(1, -1, "a".to_string()).is_java());
    assert!(!ThreadInfo::new(1, 0, "a".to_string()).is_java());
}

#[test]
fn select_java_tids_is_ascending_and_leaves_out_tid_zero() {
    let mut mapping = ThreadMapping::new();
    for (nid, tid) in [(50u32, 1i64), (3, 2), (4000000000, 3), (17, 0), (1, 0), (18, 9), (0, 4)] {
        mapping.insert(ThreadInfo::new(nid, tid, format!("t{}", nid)));
    }
    assert_eq!(mapping.len(), 7);
    assert_eq!(mapping.select_java_tids(), vec![0, 3, 18, 50, 4000000000]);
    assert!(mapping.get(17).is_some());
    assert!(mapping.get(1).is_some());
}

#[test]
fn select_java_tids_gives_the_same_list_again() {
    let mut mapping = ThreadMapping::new();
    for nid in [9u32, 8, 7, 1, 2, 3, 100, 50] {
        mapping.insert(ThreadInfo::new(nid, (nid % 3) as i64, String::new()));
    }
    let first = mapping.select_java_tids();
    let second = mapping.select_java_tids();
    assert_eq!(first, second);
    assert_eq!(first, vec![1, 2, 7, 8, 50, 100]);
}

#[test]
fn select_java_tids_of_empty_mapping_is_empty() {
    assert!(ThreadMapping::new().select_java_tids().is_empty());
    let mut mapping = ThreadMapping::new();
    mapping.insert(ThreadInfo::new(5, 0, "vm".to_string()));
    assert!(mapping.select_java_tids().is_empty());
}

#[test]
fn insert_replaces_the_thread_of_the_same_nid() {
    let mut mapping = ThreadMapping::new();
    mapping.insert(ThreadInfo::new(5, 0, "vm".to_string()));
    mapping.insert(ThreadInfo::new(5, 6, "java".to_string()));
    assert_eq!(mapping.len(), 1);
    let info = mapping.get(5).unwrap();
    assert_eq!((info.nid(), info.tid(), info.name(), info.is_java()), (5, 6, "java", true));
    assert!(mapping.get(6).is_none());
    assert_eq!(mapping.select_java_tids(), vec![5]);
}
