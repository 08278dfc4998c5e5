use rustyforge::arguments::DiscoverOptions;
use rustyforge::config::dummy_config;
use rustyforge::discovery::{
    discover, discover_questions, find_c_files, find_header_dirs, should_be_ignored, WalkEntry,
};
use rustyforge::fs_utils::parent_dir;

fn strings(items: &[&str]) -> Vec<String> {
    items.iter().map(|s| s.to_string()).collect()
}

fn file(path: &str) -> WalkEntry {
    WalkEntry { path: path.to_string(), is_file: true }
}

fn dir(path: &str) -> WalkEntry {
    WalkEntry { path: path.to_string(), is_file: false }
}

#[test]
fn test_should_be_ignored() {
    let patterns = vec!["*.c".to_string(), "ignored/**".to_string()];
    assert!(should_be_ignored(&"main.c".to_string(), &patterns));
    assert!(should_be_ignored(&"ignored/file.h".to_string(), &patterns));
    assert!(!should_be_ignored(&"src/lib.h".to_string(), &patterns));
}

#[test]
fn test_nothing_is_ignored_without_patterns() {
    assert!(!should_be_ignored(&"main.c".to_string(), &[]));
    assert!(!should_be_ignored(&"".to_string(), &[]));
}

#[test]
fn test_invalid_patterns_are_skipped() {
    let only_invalid = vec!["[".to_string(), "{a,b".to_string()];
    assert!(!should_be_ignored(&"main.c".to_string(), &only_invalid));
    assert!(!should_be_ignored(&"[".to_string(), &only_invalid));
    let mixed = vec!["[".to_string(), "*.c".to_string()];
    assert!(should_be_ignored(&"main.c".to_string(), &mixed));
    assert!(!should_be_ignored(&"main.h".to_string(), &mixed));
}

#[test]
fn test_patterns_match_the_whole_name() {
    let patterns = vec!["main.c".to_string(), "build/*".to_string(), "?.h".to_string()];
    assert!(should_be_ignored(&"main.c".to_string(), &patterns));
    assert!(!should_be_ignored(&"xmain.c".to_string(), &patterns));
    assert!(!should_be_ignored(&"src/main.c".to_string(), &patterns));
    assert!(should_be_ignored(&"build/a/b.o".to_string(), &patterns));
    assert!(should_be_ignored(&"a.h".to_string(), &patterns));
    assert!(!should_be_ignored(&"ab.h".to_string(), &patterns));
}

#[test]
fn test_find_c_files_and_header_dirs() {
    let entries = vec![dir("/tmp/walk"), file("/tmp/walk/main.c"), file("/tmp/walk/main.h")];
    let c_files = find_c_files(&entries);
    assert_eq!(c_files.len(), 1);
    assert_eq!(c_files[0], "/tmp/walk/main.c");
    let header_dirs = find_header_dirs(&entries);
    assert_eq!(header_dirs.len(), 1);
    assert_eq!(header_dirs[0], "/tmp/walk");
}

#[test]
fn test_find_c_files_keeps_the_order_of_the_walk() {
    let entries = vec![
        dir("."),
        file("./b.c"),
        dir("./src.c"),
        file("./src/a.c"),
        file("./src/a.h"),
        file("./README"),
        file("./src/.c"),
        file("./src/x.cc"),
        file("./src/y.tar.c"),
    ];
    assert_eq!(find_c_files(&entries), strings(&["./b.c", "./src/a.c", "./src/y.tar.c"]));
    assert_eq!(find_c_files(&Vec::new()), Vec::<String>::new());
}

#[test]
fn test_find_header_dirs_lists_each_directory_once() {
    let entries = vec![
        file("./include/a.h"),
        file("./src/x.c"),
        file("./src/x.h"),
        file("./include/b.h"),
        dir("./gen.h"),
        file("top.h"),
        file("/root.h"),
        file("./src/y.h"),
    ];
    assert_eq!(find_header_dirs(&entries), strings(&["./include", "./src", "", "/"]));
    assert_eq!(find_header_dirs(&Vec::new()), Vec::<String>::new());
}

#[test]
fn test_parent_dir() {
    assert_eq!(parent_dir("./include/a.h"), Some("./include".to_string()));
    assert_eq!(parent_dir("a.h"), Some("".to_string()));
    assert_eq!(parent_dir("./a.h"), Some(".".to_string()));
    assert_eq!(parent_dir("/a.h"), Some("/".to_string()));
    assert_eq!(parent_dir("/usr/include/a.h"), Some("/usr/include".to_string()));
    assert_eq!(parent_dir("dir/"), Some("".to_string()));
    assert_eq!(parent_dir("dir//sub/./a.h/"), Some("dir//sub".to_string()));
    assert_eq!(parent_dir("."), Some("".to_string()));
    assert_eq!(parent_dir(""), None);
    assert_eq!(parent_dir("/"), None);
    assert_eq!(parent_dir("//"), None);
}

#[test]
fn test_header_in_the_project_root() {
    let walk = vec![file("./a.h"), file("./include/b.h")];
    let dirs = find_header_dirs(&walk);
    assert_eq!(dirs, strings(&[".", "./include"]));
    let options = DiscoverOptions { auto: true, ignore: Vec::new() };
    let mut forge = dummy_config(true).forge;
    discover(&options, &mut forge, &Vec::new(), &dirs, &Vec::new());
    assert_eq!(forge.build.include_dirs, strings(&["", "include"]));
}

#[test]
fn test_discover_adds_everything_in_auto_mode() {
    let options = DiscoverOptions { auto: true, ignore: strings(&["tests/**"]) };
    let mut forge = dummy_config(true).forge;
    forge.build.src = strings(&["main.c"]);
    let c_files = strings(&["./main.c", "./src/lib.c", "./tests/t.c", ".\\src\\io.c"]);
    let header_dirs = strings(&["./include", "./tests/include", "./include"]);
    discover(&options, &mut forge, &c_files, &header_dirs, &Vec::new());
    assert_eq!(forge.build.src, strings(&["main.c", "src/lib.c", "./src/io.c"]));
    assert_eq!(forge.build.include_dirs, strings(&["include"]));
    assert_eq!(discover_questions(&options, &c_files, &header_dirs), Vec::<String>::new());
}

#[test]
fn test_discover_asks_about_each_file_that_is_not_ignored() {
    let options = DiscoverOptions { auto: false, ignore: strings(&["*.gen.c"]) };
    let c_files = strings(&["./a.c", "./b.gen.c", "./c.c", "./d.c"]);
    let header_dirs = strings(&["./include", "./other"]);
    let questions = discover_questions(&options, &c_files, &header_dirs);
    assert_eq!(questions, strings(&["a.c", "c.c", "d.c", "include", "other"]));
    let answers = strings(&["y", " N ", "maybe", "Y\n", "n"]);
    let mut forge = dummy_config(true).forge;
    discover(&options, &mut forge, &c_files, &header_dirs, &answers);
    assert_eq!(forge.build.src, strings(&["a.c"]));
    assert_eq!(forge.build.include_dirs, strings(&["include"]));
    assert_eq!(forge.build.output, "dummy");
}

#[test]
fn test_discover_leaves_out_what_nobody_answered_for() {
    let options = DiscoverOptions { auto: false, ignore: Vec::new() };
    let c_files = strings(&["a.c", "b.c"]);
    let header_dirs = strings(&["include"]);
    let mut forge = dummy_config(true).forge;
    discover(&options, &mut forge, &c_files, &header_dirs, &strings(&["y"]));
    assert_eq!(forge.build.src, strings(&["a.c"]));
    assert!(forge.build.include_dirs.is_empty());
}
