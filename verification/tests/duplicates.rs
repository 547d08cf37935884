use cliper::cliper_info::{detail_record, CliperInfo};
use cliper::duplicates::{
    bucket_of, collect_hashes, contains_text, group_by_md5, member_paths, read_same_info, total_size,
};
use cliper::error::CliperError;

fn hashed(id: u64, path: &str, size: u64, md5: &str) -> CliperInfo {
    detail_record(id, path.to_string(), size, size / 2, Some(md5.to_string()))
}

fn bare(id: u64, path: &str, size: u64) -> CliperInfo {
    detail_record(id, path.to_string(), size, size / 2, None)
}

#[test]
fn two_entries_share_a_hash() {
    let data = vec![
        hashed(0, "res/a.png", 300, "h1"),
        hashed(1, "assets/b.png", 300, "h1"),
        hashed(2, "res/c.png", 50, "h2"),
    ];
    let groups = read_same_info(data).unwrap();
    assert_eq!(groups.len(), 1);
    assert_eq!(groups[0].md5, "h1");
    assert_eq!(groups[0].size, 600);
    assert_eq!(groups[0].file_names, vec!["res/a.png".to_string(), "assets/b.png".to_string()]);
}

#[test]
fn no_group_without_a_shared_hash() {
    let data = vec![hashed(0, "a", 1, "x"), hashed(1, "b", 2, "y"), hashed(2, "c", 3, "z")];
    assert!(read_same_info(data).unwrap().is_empty());
    assert!(read_same_info(Vec::new()).unwrap().is_empty());
}

#[test]
fn groups_run_from_largest_to_smallest() {
    let data = vec![
        hashed(0, "a1", 10, "a"),
        hashed(1, "b1", 100, "b"),
        hashed(2, "a2", 10, "a"),
        hashed(3, "c1", 40, "c"),
        hashed(4, "b2", 100, "b"),
        hashed(5, "c2", 40, "c"),
        hashed(6, "c3", 40, "c"),
    ];
    let groups = read_same_info(data).unwrap();
    let seen: Vec<(String, u64, usize)> =
        groups.iter().map(|g| (g.md5.clone(), g.size, g.file_names.len())).collect();
    assert_eq!(
        seen,
        vec![("b".to_string(), 200, 2), ("c".to_string(), 120, 3), ("a".to_string(), 20, 2)]
    );
}

#[test]
fn groups_of_equal_size_keep_scan_order() {
    let data = vec![
        hashed(0, "s-one", 5, "second"),
        hashed(1, "f-one", 5, "first"),
        hashed(2, "f-two", 5, "first"),
        hashed(3, "s-two", 5, "second"),
        hashed(4, "t-one", 5, "third"),
        hashed(5, "t-two", 5, "third"),
    ];
    let groups = read_same_info(data).unwrap();
    let order: Vec<String> = groups.iter().map(|g| g.md5.clone()).collect();
    assert_eq!(order, vec!["second".to_string(), "first".to_string(), "third".to_string()]);
}

#[test]
fn members_keep_scan_order() {
    let data = vec![
        hashed(0, "z", 1, "h"),
        hashed(1, "m", 1, "other"),
        hashed(2, "a", 1, "h"),
        hashed(3, "k", 1, "h"),
    ];
    let groups = read_same_info(data).unwrap();
    assert_eq!(groups.len(), 1);
    assert_eq!(groups[0].file_names, vec!["z".to_string(), "a".to_string(), "k".to_string()]);
    assert_eq!(groups[0].size, 3);
}

#[test]
fn records_without_hash_are_in_no_group() {
    let data = vec![bare(0, "a", 10), bare(1, "b", 10), hashed(2, "c", 7, "h"), bare(3, "d", 10)];
    assert!(read_same_info(data).unwrap().is_empty());
    let data = vec![bare(0, "a", 10), hashed(1, "c", 7, "h"), bare(2, "b", 10), hashed(3, "d", 8, "h")];
    let groups = read_same_info(data).unwrap();
    assert_eq!(groups.len(), 1);
    assert_eq!(groups[0].file_names, vec!["c".to_string(), "d".to_string()]);
    assert_eq!(groups[0].size, 15);
}

#[test]
fn group_size_counts_the_unpacked_size() {
    let data = vec![
        detail_record(0, "a".to_string(), 1000, 1, Some("h".to_string())),
        detail_record(1, "b".to_string(), 2000, 2, Some("h".to_string())),
    ];
    assert_eq!(read_same_info(data).unwrap()[0].size, 3000);
}

#[test]
fn every_group_has_two_members_or_more() {
    let data = vec![
        hashed(0, "a", 1, "1"),
        hashed(1, "b", 1, "2"),
        hashed(2, "c", 1, "1"),
        hashed(3, "d", 1, "3"),
        hashed(4, "e", 1, "2"),
        hashed(5, "f", 1, "1"),
        bare(6, "g", 1),
    ];
    let groups = read_same_info(data).unwrap();
    assert!(groups.iter().all(|g| g.file_names.len() >= 2));
    let mut hashes: Vec<String> = groups.iter().map(|g| g.md5.clone()).collect();
    hashes.sort();
    assert_eq!(hashes, vec!["1".to_string(), "2".to_string()]);
}

#[test]
fn group_size_overflow_is_an_error() {
    let data = vec![hashed(0, "a", u64::MAX, "h"), hashed(1, "b", 1, "h")];
    assert!(matches!(read_same_info(data), Err(CliperError::SizeOverflow)));
}

#[test]
fn a_single_huge_entry_is_no_overflow() {
    let data = vec![hashed(0, "a", u64::MAX, "h"), hashed(1, "b", 1, "g"), hashed(2, "c", 1, "g")];
    let groups = read_same_info(data).unwrap();
    assert_eq!(groups.len(), 1);
    assert_eq!(groups[0].size, 2);
}

#[test]
fn buckets_in_order_of_first_appearance() {
    let data = vec![
        hashed(0, "a", 1, "x"),
        hashed(1, "b", 2, "y"),
        bare(2, "n", 9),
        hashed(3, "c", 3, "x"),
        hashed(4, "d", 4, "z"),
    ];
    let buckets = group_by_md5(data);
    let keys: Vec<String> = buckets.iter().map(|b| b.0.clone()).collect();
    assert_eq!(keys, vec!["x".to_string(), "y".to_string(), "z".to_string()]);
    let paths: Vec<Vec<String>> =
        buckets.iter().map(|b| b.1.iter().map(|m| m.file_path.clone()).collect()).collect();
    assert_eq!(
        paths,
        vec![vec!["a".to_string(), "c".to_string()], vec!["b".to_string()], vec!["d".to_string()]]
    );
    assert_eq!(buckets[0].1[1].id, 3);
    assert_eq!(buckets[0].1[1].size, 3);
    assert_eq!(buckets[0].1[1].md5, "x");
}

#[test]
fn helpers_of_grouping() {
    let data = vec![hashed(0, "a", 4, "x"), hashed(1, "b", 6, "y"), hashed(2, "c", 8, "x")];
    assert_eq!(collect_hashes(&data), vec!["x".to_string(), "y".to_string()]);
    assert!(contains_text(&vec!["x".to_string(), "y".to_string()], &"y".to_string()));
    assert!(!contains_text(&vec!["x".to_string(), "y".to_string()], &"z".to_string()));
    let members = bucket_of(&data, &"x".to_string());
    assert_eq!(members.len(), 2);
    assert_eq!(total_size(&members), Some(12));
    assert_eq!(member_paths(&members), vec!["a".to_string(), "c".to_string()]);
}
