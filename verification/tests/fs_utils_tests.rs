use rustyforge::config::{dummy_config, Dependencies};
use rustyforge::fs_utils::{
    add_to_build_toml, extension, file_stem, find_file, find_o_files, find_o_files_dir,
    find_r_paths, get_equivalent_forge_path, has_extension, is_absolute_path, join_path,
    library_candidates,
    normalize_path, std_hash_cache_path, std_toml_path, BuildField, DirEntry, FileError,
    FileProbe,
};

fn entry(name: &str, is_file: bool) -> DirEntry {
    DirEntry { name: name.to_string(), is_file }
}

fn strings(items: &[&str]) -> Vec<String> {
    items.iter().map(|s| s.to_string()).collect()
}

#[test]
fn test_find_file_exists() {
    let result = find_file("/tmp/project", "test.txt", &FileProbe::Regular);
    assert!(result.is_ok());
    let found_path = result.unwrap();
    assert_eq!(found_path, "/tmp/project/test.txt");
}

#[test]
fn test_find_file_not_exists() {
    let result = find_file("/tmp/project", "file_that_does_not_exist.txt", &FileProbe::Missing);
    assert!(result.is_err());
    if let Err(FileError::FileNotFound(msg)) = result {
        assert!(msg.contains("file_that_does_not_exist.txt"));
    } else {
        panic!("Expected FileNotFound error");
    }
}

#[test]
fn test_find_file_unresolvable() {
    let probe = FileProbe::Unresolvable("too many links".to_string());
    let result = find_file("/tmp/project", "loop.c", &probe);
    assert_eq!(result, Err(FileError::FileError("File Error: too many links".to_string())));
}

#[test]
fn test_find_file_normalizes_the_joined_path() {
    let result = find_file("C:\\proj", "src\\main.c", &FileProbe::Regular);
    assert_eq!(result, Ok("C:/proj/src/main.c".to_string()));
    let absolute = find_file("/tmp/project", "/etc/other.c", &FileProbe::Regular);
    assert_eq!(absolute, Ok("/etc/other.c".to_string()));
}

#[test]
fn test_find_o_files() {
    let entries = vec![
        entry("file1.o", true),
        entry("file2.o", true),
        entry("other_file.txt", true),
    ];
    let result = find_o_files("/tmp/project", ".", &entries);
    assert_eq!(result.len(), 2);
    assert!(result.contains(&normalize_path("/tmp/project/./file1.o")));
    assert!(result.contains(&normalize_path("/tmp/project/./file2.o")));
    assert!(!result.contains(&normalize_path("/tmp/project/./other_file.txt")));
}

#[test]
fn test_find_o_files_keeps_listing_order_and_skips_directories() {
    let entries = vec![
        entry("b.o", true),
        entry("objects.o", false),
        entry(".o", true),
        entry("a.o", true),
        entry("a.obj", true),
        entry("archive.tar.o", true),
    ];
    let result = find_o_files("/work", "forge/debug", &entries);
    assert_eq!(
        result,
        strings(&["/work/forge/debug/b.o", "/work/forge/debug/a.o", "/work/forge/debug/archive.tar.o"])
    );
    assert_eq!(find_o_files("/work", "forge/debug", &Vec::new()), Vec::<String>::new());
}

#[test]
fn test_normalize_path_strip_dot_slash() {
    let normalized = normalize_path("./test.txt");
    assert_eq!(normalized, "test.txt");
}

#[test]
fn test_normalize_path_windows_unc_prefix() {
    let normalized = normalize_path(r"\\?\C:\Users\test.txt");
    assert_eq!(normalized, "C:/Users/test.txt");
}

#[test]
fn test_normalize_path_backslashes() {
    let normalized = normalize_path(r"C:\folder\subfolder\file.o");
    assert_eq!(normalized, "C:/folder/subfolder/file.o");
}

#[test]
fn test_normalize_path_no_prefix() {
    let normalized = normalize_path("folder/subfolder/file.o");
    assert_eq!(normalized, "folder/subfolder/file.o");
}

#[test]
fn test_normalize_path_edge_cases() {
    assert_eq!(normalize_path(""), "");
    assert_eq!(normalize_path("./"), "");
    assert_eq!(normalize_path("."), "");
    assert_eq!(normalize_path("././a"), "a");
    assert_eq!(normalize_path(".//a"), "a");
    assert_eq!(normalize_path("./a/"), "a");
    assert_eq!(normalize_path("./a/./b/."), "a/./b");
    assert_eq!(normalize_path("./.."), "..");
    assert_eq!(normalize_path("./.hidden"), ".hidden");
    assert_eq!(normalize_path("a/./"), "a/./");
    assert_eq!(normalize_path(".\\a"), "./a");
    assert_eq!(normalize_path("./\\\\?\\x"), "x");
    assert_eq!(normalize_path("a/\\\\?\\b"), "a///?/b");
    assert_eq!(normalize_path("/α/β\\γ"), "/α/β/γ");
}

#[test]
fn test_normalize_path_is_idempotent_on_plain_paths() {
    let once = normalize_path("/home/user/project/src/main.c");
    assert_eq!(normalize_path(&once), once);
}

#[test]
fn test_get_forge_path_debug() {
    let config = dummy_config(true);
    let result = get_equivalent_forge_path("/work", "src/main.c", &config, false).unwrap();
    assert_eq!(result, "/work/forge/debug/main.o");
}

#[test]
fn test_get_forge_path_release() {
    let config = dummy_config(false);
    let result = get_equivalent_forge_path("/work", "src/utils.c", &config, false).unwrap();
    assert_eq!(result, "/work/forge/release/utils.o");
}

#[test]
fn test_get_forge_path_shared() {
    let config = dummy_config(true);
    let result = get_equivalent_forge_path("/work", "src/libmath.c", &config, true).unwrap();
    assert_eq!(result, "/work/forge/libs/obj/libmath.o");
}

#[test]
fn test_get_forge_path_without_file_name() {
    let config = dummy_config(true);
    let expected = Err("File stem not valid UTF-8".to_string());
    assert_eq!(get_equivalent_forge_path("/work", "/", &config, false), expected);
    assert_eq!(get_equivalent_forge_path("/work", "", &config, false), expected);
    assert_eq!(get_equivalent_forge_path("/work", "src/..", &config, true), expected);
    assert_eq!(
        get_equivalent_forge_path("/work", "src/", &config, false),
        Ok("/work/forge/debug/src.o".to_string())
    );
}

#[test]
fn test_get_forge_path_at_the_root() {
    let config = dummy_config(false);
    assert_eq!(
        get_equivalent_forge_path("/", "a.b.c", &config, false),
        Ok("/forge/release/a.b.o".to_string())
    );
}

#[test]
fn test_find_o_files_dir_follows_the_profile() {
    assert_eq!(find_o_files_dir(&dummy_config(true)), "forge/debug");
    assert_eq!(find_o_files_dir(&dummy_config(false)), "forge/release");
}

#[test]
fn test_is_absolute_path() {
    assert!(is_absolute_path("/"));
    assert!(is_absolute_path("/usr/include/stdio.h"));
    assert!(!is_absolute_path(""));
    assert!(!is_absolute_path("include/a.h"));
    assert!(!is_absolute_path("./a.h"));
    assert!(!is_absolute_path("C:/a.h"));
}

#[test]
fn test_join_path() {
    assert_eq!(join_path("/work", "forge"), "/work/forge");
    assert_eq!(join_path("/work/", "forge"), "/work/forge");
    assert_eq!(join_path("", "forge"), "forge");
    assert_eq!(join_path("/work", "/abs"), "/abs");
    assert_eq!(join_path("/work", ""), "/work/");
    assert_eq!(join_path("rel", "a/b"), "rel/a/b");
}

#[test]
fn test_file_stem() {
    assert_eq!(file_stem("src/main.c"), Some("main".to_string()));
    assert_eq!(file_stem("main"), Some("main".to_string()));
    assert_eq!(file_stem("/a/b/.hidden"), Some(".hidden".to_string()));
    assert_eq!(file_stem("archive.tar.gz"), Some("archive.tar".to_string()));
    assert_eq!(file_stem("dir.d/name"), Some("name".to_string()));
    assert_eq!(file_stem("name."), Some("name".to_string()));
    assert_eq!(file_stem("dir/"), Some("dir".to_string()));
    assert_eq!(file_stem("dir/main.c/./"), Some("main".to_string()));
    assert_eq!(file_stem("a/."), Some("a".to_string()));
    assert_eq!(file_stem(""), None);
    assert_eq!(file_stem("/"), None);
    assert_eq!(file_stem("."), None);
    assert_eq!(file_stem("./"), None);
    assert_eq!(file_stem("a/.."), None);
    assert_eq!(file_stem("a/../"), None);
}

#[test]
fn test_extension() {
    assert_eq!(extension("src/main.c"), Some("c".to_string()));
    assert_eq!(extension("archive.tar.gz"), Some("gz".to_string()));
    assert_eq!(extension("name."), Some("".to_string()));
    assert_eq!(extension("main"), None);
    assert_eq!(extension(".hidden"), None);
    assert_eq!(extension("dir.d/name"), None);
    assert_eq!(extension("dir/a.h/"), Some("h".to_string()));
    assert_eq!(extension(".."), None);
    assert!(has_extension("include/a.h", "h"));
    assert!(!has_extension("include/a.hpp", "h"));
    assert!(!has_extension("include/h", "h"));
}

#[test]
fn test_std_paths() {
    assert_eq!(std_toml_path("/work"), "/work/RustyForge.toml");
    assert_eq!(std_hash_cache_path("/work"), "/work/forge/.forge/hash_cache.json");
}

#[test]
fn test_library_candidates() {
    let libs = strings(&["m", "ssl"]);
    assert_eq!(
        library_candidates("/opt/lib", &libs),
        strings(&["/opt/lib/m.so", "/opt/lib/libm.so", "/opt/lib/ssl.so", "/opt/lib/libssl.so"])
    );
    assert_eq!(library_candidates("/opt/lib", &Vec::new()), Vec::<String>::new());
}

#[test]
fn test_find_r_paths() {
    let mut config = dummy_config(true);
    assert_eq!(find_r_paths(&config, &strings(&["/opt/lib/libm.so"])), Vec::<String>::new());
    config.forge.dependencies = Some(Dependencies {
        libraries: strings(&["m", "ssl"]),
        library_paths: strings(&["/opt/lib", "./local", "/none", "/opt/lib"]),
        include_dirs: Vec::new(),
        posix_libraries: Vec::new(),
    });
    let existing = strings(&["/opt/lib/libssl.so", "./local/m.so", "/elsewhere/libm.so"]);
    assert_eq!(find_r_paths(&config, &existing), strings(&["/opt/lib", "local"]));
    assert_eq!(find_r_paths(&config, &Vec::new()), Vec::<String>::new());
}

#[test]
fn test_find_r_paths_compares_with_the_written_directory() {
    let mut config = dummy_config(true);
    config.forge.dependencies = Some(Dependencies {
        libraries: strings(&["m"]),
        library_paths: strings(&["./local", "./local"]),
        include_dirs: Vec::new(),
        posix_libraries: Vec::new(),
    });
    let existing = strings(&["./local/libm.so"]);
    assert_eq!(find_r_paths(&config, &existing), strings(&["local", "local"]));
}

#[test]
fn test_add_to_build_toml() {
    let mut forge = dummy_config(true).forge;
    add_to_build_toml(&mut forge, BuildField::Src, "src/main.c".to_string());
    add_to_build_toml(&mut forge, BuildField::Src, "src/lib.c".to_string());
    add_to_build_toml(&mut forge, BuildField::Src, "src/main.c".to_string());
    add_to_build_toml(&mut forge, BuildField::IncludeDirs, "include".to_string());
    add_to_build_toml(&mut forge, BuildField::IncludeDirs, "include".to_string());
    assert_eq!(forge.build.src, strings(&["src/main.c", "src/lib.c"]));
    assert_eq!(forge.build.include_dirs, strings(&["include"]));
    assert_eq!(forge.build.output, "dummy");
    assert_eq!(forge.project.targets, strings(&["bin"]));
}
