use cliper::category::{read_type, Category};
use cliper::cliper_info::{
    create_cliper_item, detail_record, read_file_ext, read_file_folder, read_file_name, CliperInfo,
};

#[test]
fn assets_by_prefix() {
    assert_eq!(read_type("assets/a.png"), Category::Assets);
    assert_eq!(read_type("base/assets/fonts/x.ttf"), Category::Assets);
    assert_eq!(read_type("assets/"), Category::Assets);
}

#[test]
fn assets_needs_the_slash() {
    assert_eq!(read_type("assets"), Category::Other);
    assert_eq!(read_type("assetsx/a.png"), Category::Other);
}

#[test]
fn resources_by_prefix_and_table() {
    assert_eq!(read_type("res/b.xml"), Category::Resources);
    assert_eq!(read_type("base/res/layout/main.xml"), Category::Resources);
    assert_eq!(read_type("resources.arsc"), Category::Resources);
    assert_eq!(read_type("base/resources.arsc"), Category::Resources);
}

#[test]
fn resource_table_must_end_the_path() {
    assert_eq!(read_type("resources.arsc.bak"), Category::Other);
}

#[test]
fn code_by_prefix() {
    assert_eq!(read_type("classes.dex"), Category::Code);
    assert_eq!(read_type("classes2.dex"), Category::Code);
    assert_eq!(read_type("classes17.dex"), Category::Code);
    assert_eq!(read_type("base/dex/classes3.dex"), Category::Code);
    assert_eq!(read_type("classes"), Category::Code);
}

#[test]
fn native_by_prefix() {
    assert_eq!(read_type("lib/arm64-v8a/x.so"), Category::Native);
    assert_eq!(read_type("base/lib/x86/y.so"), Category::Native);
    assert_eq!(read_type("base/library.txt"), Category::Native);
    assert_eq!(read_type("lib"), Category::Other);
}

#[test]
fn everything_else_is_other() {
    assert_eq!(read_type("readme.txt"), Category::Other);
    assert_eq!(read_type("META-INF/MANIFEST.MF"), Category::Other);
    assert_eq!(read_type("AndroidManifest.xml"), Category::Other);
    assert_eq!(read_type(""), Category::Other);
}

#[test]
fn classification_is_case_sensitive() {
    assert_eq!(read_type("Assets/a.png"), Category::Other);
    assert_eq!(read_type("RES/b.xml"), Category::Other);
    assert_eq!(read_type("Classes.dex"), Category::Other);
}

#[test]
fn earlier_rule_wins() {
    assert_eq!(read_type("assets/resources.arsc"), Category::Assets);
    assert_eq!(read_type("classes/resources.arsc"), Category::Resources);
    assert_eq!(read_type("lib/resources.arsc"), Category::Resources);
}

#[test]
fn every_path_gets_one_of_the_five() {
    let paths = ["", "/", "a", "assets/x", "res/y", "classes9", "lib/z", "base/dex/classes", "日本/語"];
    for p in paths {
        let c = read_type(p);
        let hits = [
            c == Category::Assets,
            c == Category::Resources,
            c == Category::Code,
            c == Category::Native,
            c == Category::Other,
        ];
        assert_eq!(hits.iter().filter(|h| **h).count(), 1);
    }
}

#[test]
fn labels() {
    assert_eq!(Category::Assets.label(), "Assets");
    assert_eq!(Category::Resources.label(), "Res");
    assert_eq!(Category::Code.label(), "Code");
    assert_eq!(Category::Native.label(), "Native");
    assert_eq!(Category::Other.label(), "Others");
}

#[test]
fn file_name_after_last_slash() {
    assert_eq!(read_file_name("a/b/c.txt"), "c.txt");
    assert_eq!(read_file_name("res/b.xml"), "b.xml");
    assert_eq!(read_file_name("dir/"), "");
}

#[test]
fn file_name_is_empty_without_a_slash() {
    assert_eq!(read_file_name("classes.dex"), "");
    assert_eq!(read_file_name(""), "");
}

#[test]
fn extension_from_last_dot_of_last_segment() {
    assert_eq!(read_file_ext("a/b/c.txt"), ".txt");
    assert_eq!(read_file_ext("classes.dex"), ".dex");
    assert_eq!(read_file_ext("res/drawable/bg.9.png"), ".png");
    assert_eq!(read_file_ext("a/b."), ".");
}

#[test]
fn extension_is_empty_without_a_dot() {
    assert_eq!(read_file_ext("lib/arm/libfoo"), "");
    assert_eq!(read_file_ext(""), "");
}

#[test]
fn extension_ignores_dots_in_folders() {
    assert_eq!(read_file_ext("a.b/c"), "");
    assert_eq!(read_file_ext("v1.2/notes/readme"), "");
}

#[test]
fn extension_is_empty_where_the_dot_comes_first() {
    assert_eq!(read_file_ext(".gitignore"), "");
    assert_eq!(read_file_ext("a/.hidden"), "");
    assert_eq!(read_file_ext("a/.hidden.txt"), ".txt");
}

#[test]
fn extension_begins_with_a_dot_or_is_empty() {
    let paths = ["a/b/c.txt", "x", ".x", "a.b/c", "a/b.c.d", "r/é.ü", "", "a/", "a/b."];
    for p in paths {
        let e = read_file_ext(p);
        assert!(e.is_empty() || e.starts_with('.'));
    }
}

#[test]
fn folder_before_last_slash() {
    assert_eq!(read_file_folder("a/b/c.txt"), "a/b");
    assert_eq!(read_file_folder("res/b.xml"), "res");
    assert_eq!(read_file_folder("classes.dex"), "");
    assert_eq!(read_file_folder("/top"), "");
    assert_eq!(read_file_folder("dir/"), "dir");
}

#[test]
fn paths_are_cut_by_characters() {
    assert_eq!(read_file_name("资源/图片.png"), "图片.png");
    assert_eq!(read_file_ext("资源/图片.png"), ".png");
    assert_eq!(read_file_folder("资源/图片.png"), "资源");
    assert_eq!(read_file_ext("é/ü.ö"), ".ö");
}

#[test]
fn new_record_is_empty() {
    let r = CliperInfo::new();
    assert_eq!(r.id, 0);
    assert_eq!(r.file_path, "");
    assert_eq!(r.name, "");
    assert_eq!(r.size, 0);
    assert_eq!(r.download, 0);
    assert_eq!(r.file_type, Category::Other);
    assert_eq!(r.file_ext, "");
    assert_eq!(r.file_folder, "");
    assert_eq!(r.md5, None);
}

#[test]
fn clone_keeps_every_field() {
    let r = detail_record(4, "res/raw/a.json".to_string(), 10, 7, Some("abc".to_string()));
    let c = r.clone();
    assert_eq!(c.id, 4);
    assert_eq!(c.file_path, "res/raw/a.json");
    assert_eq!(c.name, "a.json");
    assert_eq!(c.size, 10);
    assert_eq!(c.download, 7);
    assert_eq!(c.file_type, Category::Resources);
    assert_eq!(c.file_ext, ".json");
    assert_eq!(c.file_folder, "res/raw");
    assert_eq!(c.md5, Some("abc".to_string()));
}

#[test]
fn detail_record_derives_from_path() {
    let r = detail_record(0, "lib/arm64-v8a/libx.so".to_string(), 900, 300, None);
    assert_eq!(r.name, "libx.so");
    assert_eq!(r.file_ext, ".so");
    assert_eq!(r.file_folder, "lib/arm64-v8a");
    assert_eq!(r.file_type, Category::Native);
    assert_eq!(r.md5, None);
}

#[test]
fn create_item_takes_fields_as_given() {
    let r = create_cliper_item(
        9,
        "p".to_string(),
        "n".to_string(),
        1,
        2,
        Category::Code,
        "e".to_string(),
        "f".to_string(),
        Some("m".to_string()),
    );
    assert_eq!(r.id, 9);
    assert_eq!(r.file_path, "p");
    assert_eq!(r.name, "n");
    assert_eq!(r.size, 1);
    assert_eq!(r.download, 2);
    assert_eq!(r.file_type, Category::Code);
    assert_eq!(r.file_ext, "e");
    assert_eq!(r.file_folder, "f");
    assert_eq!(r.md5, Some("m".to_string()));
}
