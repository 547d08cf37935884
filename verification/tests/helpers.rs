use cliper::cliper_info::{detail_record, CliperInfo};
use cliper::cmds::CommonOpts;
use cliper::order::sort_by_size_desc;
use cliper::paths::{absolute_path, check_build_path, check_input_file, join, output_path};
use cliper::skip::{_filter_md5_file, default_skip_rules, should_skip, SkipRule};
use cliper::text::{chars_of, contains, ends_with, matches_at, rfind, slice_of, starts_with};

fn cs(s: &str) -> Vec<char> {
    s.chars().collect()
}

#[test]
fn characters_of_a_string() {
    assert_eq!(chars_of("a/é"), vec!['a', '/', 'é']);
    assert!(chars_of("").is_empty());
}

#[test]
fn prefix_and_suffix() {
    assert!(starts_with(&cs("assets/a"), &cs("assets/")));
    assert!(starts_with(&cs("abc"), &cs("")));
    assert!(starts_with(&cs("abc"), &cs("abc")));
    assert!(!starts_with(&cs("abc"), &cs("abcd")));
    assert!(!starts_with(&cs("abc"), &cs("b")));
    assert!(ends_with(&cs("a.png"), &cs(".png")));
    assert!(ends_with(&cs("abc"), &cs("")));
    assert!(ends_with(&cs("abc"), &cs("abc")));
    assert!(!ends_with(&cs("abc"), &cs("zabc")));
    assert!(!ends_with(&cs("abc"), &cs("b")));
    assert!(!starts_with(&cs(""), &cs("a")));
    assert!(!ends_with(&cs(""), &cs("a")));
}

#[test]
fn infix() {
    assert!(contains(&cs("android:versionCode"), &cs("versionCode")));
    assert!(contains(&cs("abc"), &cs("")));
    assert!(contains(&cs(""), &cs("")));
    assert!(contains(&cs("abc"), &cs("c")));
    assert!(contains(&cs("aab"), &cs("ab")));
    assert!(!contains(&cs("abc"), &cs("ac")));
    assert!(!contains(&cs("ab"), &cs("abc")));
    assert!(matches_at(&cs("xxabc"), &cs("ab"), 2));
    assert!(!matches_at(&cs("xxabc"), &cs("ab"), 1));
}

#[test]
fn last_position_of_a_character() {
    assert_eq!(rfind(&cs("a/b/c"), '/'), Some(3));
    assert_eq!(rfind(&cs("/"), '/'), Some(0));
    assert_eq!(rfind(&cs("abc"), '/'), None);
    assert_eq!(rfind(&cs(""), '/'), None);
}

#[test]
fn part_of_a_string() {
    assert_eq!(slice_of("héllo", 1, 3), "él");
    assert_eq!(slice_of("abc", 0, 3), "abc");
    assert_eq!(slice_of("abc", 2, 2), "");
}

fn sized(id: u64, download: u64) -> CliperInfo {
    detail_record(id, "p".to_string(), 0, download, None)
}

#[test]
fn sort_is_descending_and_stable() {
    let v = vec![sized(0, 5), sized(1, 9), sized(2, 5), sized(3, 1), sized(4, 9), sized(5, 5)];
    let ids: Vec<u64> = sort_by_size_desc(v).iter().map(|r| r.id).collect();
    assert_eq!(ids, vec![1, 4, 0, 2, 5, 3]);
}

#[test]
fn sort_of_little() {
    assert!(sort_by_size_desc(Vec::<CliperInfo>::new()).is_empty());
    let ids: Vec<u64> = sort_by_size_desc(vec![sized(7, 3)]).iter().map(|r| r.id).collect();
    assert_eq!(ids, vec![7]);
    let ids: Vec<u64> =
        sort_by_size_desc(vec![sized(0, 1), sized(1, 2), sized(2, 3)]).iter().map(|r| r.id).collect();
    assert_eq!(ids, vec![2, 1, 0]);
}

#[test]
fn default_rules() {
    let rules: Vec<(String, u64)> = default_skip_rules().into_iter().map(|r| (r.ext, r.size)).collect();
    assert_eq!(
        rules,
        vec![
            (".webp".to_string(), 0),
            (".xml".to_string(), 47),
            (".json".to_string(), 2),
            (".mp3".to_string(), 0),
            (".png".to_string(), 67),
            (".9.png".to_string(), 77),
            (".jpg".to_string(), 0),
        ]
    );
}

#[test]
fn stubs_by_name_and_size() {
    assert!(_filter_md5_file("a.webp", 0));
    assert!(_filter_md5_file("b.xml", 47));
    assert!(_filter_md5_file("c.json", 2));
    assert!(_filter_md5_file("d.mp3", 0));
    assert!(_filter_md5_file("e.png", 67));
    assert!(_filter_md5_file("f.9.png", 77));
    assert!(_filter_md5_file("f.9.png", 67));
    assert!(_filter_md5_file("g.jpg", 0));
    assert!(_filter_md5_file(".xml", 47));
}

#[test]
fn no_stub_with_another_size_or_name() {
    assert!(!_filter_md5_file("a.webp", 1));
    assert!(!_filter_md5_file("b.xml", 46));
    assert!(!_filter_md5_file("b.xml", 48));
    assert!(!_filter_md5_file("c.json", 0));
    assert!(!_filter_md5_file("e.png", 77));
    assert!(!_filter_md5_file("g.jpeg", 0));
    assert!(!_filter_md5_file("b.xml.bak", 47));
    assert!(!_filter_md5_file("B.XML", 47));
    assert!(!_filter_md5_file("", 0));
    assert!(!_filter_md5_file("xml", 47));
}

#[test]
fn rules_of_the_caller() {
    let rules = vec![SkipRule { ext: ".so".to_string(), size: 4096 }];
    assert!(should_skip("libx.so", 4096, &rules));
    assert!(!should_skip("libx.so", 4097, &rules));
    assert!(!should_skip("b.xml", 47, &rules));
    assert!(!should_skip("b.xml", 47, &Vec::new()));
}

#[test]
fn joined_paths() {
    assert_eq!(join("a/b", "c.csv"), "a/b/c.csv");
    assert_eq!(join("", "c"), "/c");
}

#[test]
fn export_paths() {
    assert_eq!(output_path("", "table_total.csv", "/work/build"), "/work/build/table_total.csv");
    assert_eq!(output_path("/out/report.csv", "table_total.csv", "/work/build"), "/out/report.csv");
    assert_eq!(output_path("/out", "table_same.csv", "/work/build"), "/out/table_same.csv");
    assert_eq!(output_path("/out/", "t.csv", "/work/build"), "/out//t.csv");
}

#[test]
fn absolute_paths() {
    assert_eq!(absolute_path("./build/app.apk", "/home/me"), "/home/me/./build/app.apk");
    assert_eq!(absolute_path("../app.apk", "/home/me"), "/home/me/../app.apk");
    assert_eq!(absolute_path("/data/app.apk", "/home/me"), "/data/app.apk");
    assert_eq!(absolute_path("app.apk", "/home/me"), "app.apk");
    assert_eq!(absolute_path("", "/home/me"), "");
}

fn common(build_path: &str) -> CommonOpts {
    CommonOpts {
        debug: true,
        input: "in.apk".to_string(),
        output_csv: true,
        build_path: build_path.to_string(),
    }
}

#[test]
fn build_path_is_settled() {
    let mut o = common("");
    check_build_path(&mut o, "/work/build", "/work");
    assert_eq!(o.build_path, "/work/build");
    let mut o = common("./out");
    check_build_path(&mut o, "/work/build", "/work");
    assert_eq!(o.build_path, "/work/./out");
    let mut o = common("/abs/out");
    check_build_path(&mut o, "/work/build", "/work");
    assert_eq!(o.build_path, "/abs/out");
    assert!(o.debug && o.output_csv);
    assert_eq!(o.input, "in.apk");
}

#[test]
fn input_file_is_checked() {
    assert_eq!(check_input_file("", true), Err("Input file path is empty".to_string()));
    assert_eq!(check_input_file("", false), Err("Input file path is empty".to_string()));
    assert_eq!(check_input_file("a.apk", false), Err("Input file path not exists".to_string()));
    assert_eq!(check_input_file("a.apk", true), Ok(()));
}
