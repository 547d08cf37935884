use cliper::cliper_info::{detail_record, CliperInfo};
use cliper::size_data::{checked_summarize, summarize, SizeData};

fn entry(id: u64, path: &str, download: u64) -> CliperInfo {
    detail_record(id, path.to_string(), download * 2, download, None)
}

#[test]
fn new_summary_is_zero() {
    let d = SizeData::new();
    assert_eq!(d.file_name, "");
    assert_eq!(
        (d.asserts, d.res, d.code, d.native, d.others, d.all),
        (0, 0, 0, 0, 0, 0)
    );
}

#[test]
fn summary_of_five_entries() {
    let records = vec![
        entry(0, "assets/a.png", 500),
        entry(1, "res/b.xml", 47),
        entry(2, "classes.dex", 2000),
        entry(3, "lib/x.so", 300),
        entry(4, "readme.txt", 10),
    ];
    let d = summarize(&records);
    assert_eq!(d.asserts, 500);
    assert_eq!(d.res, 47);
    assert_eq!(d.code, 2000);
    assert_eq!(d.native, 300);
    assert_eq!(d.others, 10);
    assert_eq!(d.all, 2857);
}

#[test]
fn summary_of_nothing() {
    let d = summarize(&Vec::new());
    assert_eq!((d.asserts, d.res, d.code, d.native, d.others, d.all), (0, 0, 0, 0, 0, 0));
}

#[test]
fn summary_adds_up_within_a_category() {
    let records = vec![
        entry(0, "res/a.xml", 5),
        entry(1, "classes.dex", 7),
        entry(2, "resources.arsc", 11),
        entry(3, "classes2.dex", 13),
        entry(4, "base/res/c.xml", 17),
    ];
    let d = summarize(&records);
    assert_eq!(d.res, 33);
    assert_eq!(d.code, 20);
    assert_eq!(d.asserts, 0);
    assert_eq!(d.all, 53);
}

#[test]
fn total_is_the_sum_of_the_categories() {
    let records = vec![
        entry(0, "assets/a", 1),
        entry(1, "res/b", 20),
        entry(2, "classes.dex", 300),
        entry(3, "lib/c", 4000),
        entry(4, "d", 50000),
        entry(5, "assets/e", 600000),
    ];
    let d = summarize(&records);
    assert_eq!(d.all, d.asserts + d.res + d.code + d.native + d.others);
    assert_eq!(d.all, 654321);
}

#[test]
fn summary_counts_the_stored_size() {
    let records = vec![detail_record(0, "assets/a".to_string(), 1000, 10, None)];
    assert_eq!(summarize(&records).asserts, 10);
}

#[test]
fn summary_goes_by_the_category_of_the_record() {
    let mut r = entry(0, "assets/a", 5);
    r.file_type = cliper::category::Category::Code;
    let d = summarize(&vec![r]);
    assert_eq!(d.code, 5);
    assert_eq!(d.asserts, 0);
}

#[test]
fn checked_summary_fits() {
    let records = vec![entry(0, "a", u64::MAX / 2), entry(1, "res/b", u64::MAX / 2), entry(2, "c", 1)];
    let d = checked_summarize(&records).unwrap();
    assert_eq!(d.all, u64::MAX);
    assert_eq!(d.others, u64::MAX / 2 + 1);
    assert_eq!(d.res, u64::MAX / 2);
}

#[test]
fn checked_summary_overflows() {
    let records = vec![
        detail_record(0, "a".to_string(), 0, u64::MAX, None),
        detail_record(1, "res/b".to_string(), 0, 1, None),
    ];
    assert!(checked_summarize(&records).is_none());
}
