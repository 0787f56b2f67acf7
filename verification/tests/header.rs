use jtaskstats::header::{shorten, JavaHeaderFormat, MAX_SHORT_NAME_LEN};
use jtaskstats::thread::{ThreadInfo, ThreadMapping};

fn sample() -> ThreadMapping {
    let mut mapping = ThreadMapping::new();
    mapping.insert(ThreadInfo::new(42, 1001, "main".to_string()));
    mapping.insert(ThreadInfo::new(7, 0, "GC Thread#0".to_string()));
    mapping.insert(ThreadInfo::new(
        9,
        -5,
        "abcdefghijklmnopqrstuvwxyzABCDEFGHIJKLMNOPQRSTUVWXYZ0123456789".to_string(),
    ));
    mapping.insert(ThreadInfo::new(4294967295, 9223372036854775807, "edge".to_string()));
    mapping
}

#[test]
fn format_names_tid_nid_and_name() {
    let mapping = sample();
    let format = JavaHeaderFormat { full_name: false, mapping: &mapping };
    assert_eq!(format.format(42), "42 Thread 1001 - main");
    assert_eq!(format.format(7), "7 Thread 0 - GC Thread#0");
    assert_eq!(
        format.format(4294967295),
        "4294967295 Thread 9223372036854775807 - edge"
    );
}

#[test]
fn format_of_unknown_thread_carries_the_nid() {
    let mapping = sample();
    let format = JavaHeaderFormat { full_name: false, mapping: &mapping };
    assert_eq!(format.format(0), "0 Thread UNKNOWN");
    assert_eq!(format.format(43), "43 Thread UNKNOWN");
    let empty = ThreadMapping::new();
    let format = JavaHeaderFormat { full_name: true, mapping: &empty };
    assert_eq!(format.format(4294967294), "4294967294 Thread UNKNOWN");
}

#[test]
fn format_truncates_unless_full_name() {
    let mapping = sample();
    let short = JavaHeaderFormat { full_name: false, mapping: &mapping };
    assert_eq!(
        short.format(9),
        "9 Thread -5 - abcdefghijklmnopqrstuv...LMNOPQRSTUVWXYZ0123456789"
    );
    let full = JavaHeaderFormat { full_name: true, mapping: &mapping };
    assert_eq!(
        full.format(9),
        "9 Thread -5 - abcdefghijklmnopqrstuvwxyzABCDEFGHIJKLMNOPQRSTUVWXYZ0123456789"
    );
}

#[test]
fn short_name_of_long_name_has_the_maximum_width() {
    let name = "abcdefghijklmnopqrstuvwxyzABCDEFGHIJKLMNOPQRSTUVWXYZ0123456789";
    let info = ThreadInfo::new(1, 1, name.to_string());
    let short = info.short_name();
    assert_eq!(MAX_SHORT_NAME_LEN, 50);
    assert_eq!(short.len(), 50);
    assert_eq!(short, "abcdefghijklmnopqrstuv...LMNOPQRSTUVWXYZ0123456789");
    assert!(name.starts_with(&short[..22]));
    assert_eq!(&short[22..25], "...");
    assert!(name.ends_with(&short[25..]));
}

#[test]
fn short_name_of_fitting_name_is_the_name() {
    let exactly: String = "x".repeat(50);
    assert_eq!(ThreadInfo::new(1, 1, exactly.clone()).short_name(), exactly);
    assert_eq!(ThreadInfo::new(1, 1, String::new()).short_name(), "");
    assert_eq!(ThreadInfo::new(1, 1, "main".to_string()).short_name(), "main");
    let one_more: String = "y".repeat(51);
    let short = ThreadInfo::new(1, 1, one_more).short_name();
    assert_eq!(short, format!("{}...{}", "y".repeat(22), "y".repeat(25)));
}

#[test]
fn shorten_keeps_the_width_for_every_width() {
    let name = "0123456789abcdefghij";
    assert_eq!(shorten(name, 3), "...");
    assert_eq!(shorten(name, 4), "...j");
    assert_eq!(shorten(name, 5), "...ij");
    assert_eq!(shorten(name, 6), "...hij");
    assert_eq!(shorten(name, 7), "0...hij");
    assert_eq!(shorten(name, 10), "01...fghij");
    assert_eq!(shorten(name, 19), "0123456...bcdefghij");
    assert_eq!(shorten(name, 20), name);
    assert_eq!(shorten(name, 21), name);
    for width in 3..20 {
        assert_eq!(shorten(name, width).len(), width);
    }
}

#[test]
fn shorten_counts_characters() {
    let name = "äöüäöüäöüäöü";
    assert_eq!(shorten(name, 12), name);
    assert_eq!(shorten(name, 8), "ä...üäöü");
    assert_eq!(shorten(name, 8).chars().count(), 8);
}
