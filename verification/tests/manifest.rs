use cliper::cmds::{Args, CommonOpts};
use cliper::cliper_info::detail_record;
use cliper::diff::{total_delta, DiffEntry};
use cliper::manifest::{add_attribute, derive_info, parse_to_info, ApkParsedInfo, XmlStep};

const SAMPLE: &str = r#"<?xml version="1.0" encoding="utf-8"?>
<manifest xmlns:android="http://schemas.android.com/apk/res/android"
    android:versionCode="42"
    android:versionName="1.2.3"
    android:compileSdkVersion="33"
    android:compileSdkVersionCodename="13"
    package="com.example.app">
    <uses-sdk android:minSdkVersion="21" android:targetSdkVersion="33" />
    <uses-permission android:name="android.permission.INTERNET" />
    <uses-permission android:name="android.permission.CAMERA" />
    <application android:label="App" android:name="com.example.App">
        <activity android:name=".Main" />
    </application>
</manifest>"#;

#[test]
fn manifest_is_read() {
    let info = parse_to_info(SAMPLE.to_string(), "aWNvbg==".to_string()).unwrap();
    assert_eq!(info.package_name, "com.example.app");
    assert_eq!(info.version_code, "42");
    assert_eq!(info.version_name, "1.2.3");
    assert_eq!(info.compile_sdk_version, "33");
    assert_eq!(info.compile_sdk_version_code_name, "13");
    assert_eq!(info.min_sdk_version, "21");
    assert_eq!(info.target_sdk_version, "33");
    assert_eq!(
        info.permissions,
        vec!["android.permission.INTERNET".to_string(), "android.permission.CAMERA".to_string()]
    );
    assert_eq!(info.icon, "aWNvbg==");
}

#[test]
fn manifest_without_attributes() {
    let info = parse_to_info("<manifest><application/></manifest>".to_string(), String::new()).unwrap();
    assert_eq!(info.package_name, "");
    assert_eq!(info.version_code, "");
    assert!(info.permissions.is_empty());
    assert_eq!(info.icon, "");
}

#[test]
fn text_that_is_not_xml() {
    assert!(parse_to_info("<manifest><unclosed></manifest>".to_string(), String::new()).is_none());
    assert!(parse_to_info("\u{3}\u{0}\u{8}\u{0}binary".to_string(), String::new()).is_none());
    assert!(parse_to_info(String::new(), String::new()).is_none());
}

#[test]
fn attributes_of_other_elements_are_left_out() {
    let text = r#"<root versionCode="1" package="p"><uses-sdk minSdkVersion="7"/></root>"#;
    let info = parse_to_info(text.to_string(), String::new()).unwrap();
    assert_eq!(info.version_code, "");
    assert_eq!(info.package_name, "");
    assert_eq!(info.min_sdk_version, "7");
}

#[test]
fn new_info_is_blank() {
    let info = ApkParsedInfo::new();
    assert_eq!(info.package_name, "");
    assert_eq!(info.version_code, "");
    assert_eq!(info.version_name, "");
    assert_eq!(info.compile_sdk_version, "");
    assert_eq!(info.compile_sdk_version_code_name, "");
    assert_eq!(info.min_sdk_version, "");
    assert_eq!(info.target_sdk_version, "");
    assert!(info.permissions.is_empty());
    assert_eq!(info.icon, "");
}

fn start(name: &str, attributes: &[(&str, &str)]) -> XmlStep {
    XmlStep::Start {
        name: name.to_string(),
        attributes: attributes.iter().map(|a| (a.0.to_string(), a.1.to_string())).collect(),
    }
}

#[test]
fn first_word_in_the_name_decides() {
    let steps = vec![start(
        "manifest",
        &[
            ("versionCodeAndversionName", "a"),
            ("compileSdkVersionCodename", "b"),
            ("compileSdkVersion", "c"),
            ("packageversionName", "d"),
            ("other", "e"),
        ],
    )];
    let info = derive_info(&steps, String::new()).unwrap();
    assert_eq!(info.version_code, "a");
    assert_eq!(info.compile_sdk_version_code_name, "b");
    assert_eq!(info.compile_sdk_version, "c");
    assert_eq!(info.version_name, "d");
    assert_eq!(info.package_name, "");
}

#[test]
fn later_attribute_replaces_earlier() {
    let steps = vec![
        start("manifest", &[("package", "first"), ("package", "second")]),
        XmlStep::Other,
        start("manifest", &[("versionCode", "9")]),
        start("uses-permission", &[("name", "perm.A"), ("maxSdkVersion", "x"), ("name", "perm.B")]),
    ];
    let info = derive_info(&steps, "i".to_string()).unwrap();
    assert_eq!(info.package_name, "second");
    assert_eq!(info.version_code, "9");
    assert_eq!(info.permissions, vec!["perm.A".to_string(), "perm.B".to_string()]);
    assert_eq!(info.icon, "i");
}

#[test]
fn failure_anywhere_gives_nothing() {
    let steps = vec![start("manifest", &[("package", "p")]), XmlStep::Failed];
    assert!(derive_info(&steps, String::new()).is_none());
    let steps = vec![XmlStep::Failed, start("manifest", &[("package", "p")])];
    assert!(derive_info(&steps, String::new()).is_none());
    assert!(derive_info(&Vec::new(), String::new()).is_some());
}

#[test]
fn one_attribute() {
    let mut info = ApkParsedInfo::new();
    add_attribute(
        &mut info,
        &"uses-sdk".to_string(),
        &"android:targetSdkVersion".to_string(),
        &"34".to_string(),
    );
    assert_eq!(info.target_sdk_version, "34");
    add_attribute(&mut info, &"uses-sdk".to_string(), &"package".to_string(), &"x".to_string());
    assert_eq!(info.package_name, "");
    add_attribute(&mut info, &"Manifest".to_string(), &"package".to_string(), &"x".to_string());
    assert_eq!(info.package_name, "");
}

fn delta(d: i128) -> DiffEntry {
    DiffEntry { info: detail_record(0, "p".to_string(), 0, 0, None), size_delta: d }
}

#[test]
fn deltas_add_up() {
    assert_eq!(total_delta(&Vec::new()), Some(0));
    assert_eq!(total_delta(&vec![delta(20), delta(-70), delta(5)]), Some(-45));
    assert_eq!(total_delta(&vec![delta(i128::MAX), delta(-1), delta(1)]), Some(i128::MAX));
}

#[test]
fn deltas_that_leave_the_range() {
    assert_eq!(total_delta(&vec![delta(i128::MAX), delta(1)]), None);
    assert_eq!(total_delta(&vec![delta(i128::MAX), delta(1), delta(-1)]), None);
    assert_eq!(total_delta(&vec![delta(i128::MIN), delta(-1)]), None);
}

fn common(input: &str) -> CommonOpts {
    CommonOpts { debug: false, input: input.to_string(), output_csv: false, build_path: String::new() }
}

#[test]
fn commands() {
    let all = vec![
        (Args::Summary { common: common("a") }, "Summary", "a"),
        (
            Args::Detail {
                common: common("b"),
                detail: cliper::cmds::DetailOpts {
                    filter_path: String::new(),
                    filter_size: 0,
                    filter_ext: String::new(),
                    filter_type: String::new(),
                    filter_regex: String::new(),
                    limit: 0,
                },
            },
            "Detail",
            "b",
        ),
        (Args::Same { common: common("c") }, "Same", "c"),
        (Args::Info { common: common("d") }, "Info", "d"),
        (Args::Diff { common: common("e"), input_cmp: "old".to_string() }, "Diff", "e"),
    ];
    for (args, name, input) in all {
        assert_eq!(args.command_name(), name);
        assert_eq!(args.common().input, input);
    }
}
