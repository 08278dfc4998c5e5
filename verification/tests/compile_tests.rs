use rustyforge::arguments::{BuildOptions, Command, RunOptions};
use rustyforge::compile::{
    compile, compile_command, compile_unix_like, get_compiler_cmd, get_files_to_compile,
    pass_outcome, plan_units, resolve_unit, CompilationUnit, HeaderFile,
};
use rustyforge::config::{dummy_config, CompilerKind, Config, Dependencies};
use rustyforge::error::{first_failure, BuildError, ErrorKind};
use rustyforge::fs_utils::FileProbe;
use rustyforge::hashes::{HashCache, hash, FileRead};

fn header(path: &str, digest: &str) -> HeaderFile {
    HeaderFile { path: path.to_string(), digest: digest.to_string() }
}

fn unit(source: &str, digest: &str, headers: Vec<HeaderFile>) -> CompilationUnit {
    let stem = source.trim_end_matches(".c");
    CompilationUnit {
        source: source.to_string(),
        source_path: format!("/work/{}", source),
        object_path: format!("/work/forge/debug/{}.o", stem),
        shared: false,
        object_exists: true,
        digest: digest.to_string(),
        headers,
    }
}

fn build_config(debug: bool) -> Config {
    let mut config = dummy_config(debug);
    config.args.command =
        Command::Build(BuildOptions { debug, release: !debug, compiler: None });
    config
}

fn record(path: &str, hash: &str) -> HashCache {
    HashCache { path: path.to_string(), hash: hash.to_string() }
}

fn sources(plan: &[CompilationUnit]) -> Vec<String> {
    plan.iter().map(|u| u.source.clone()).collect()
}

fn digest_of(bytes: &[u8]) -> String {
    hash(&FileRead::Bytes(bytes.to_vec())).unwrap()
}

#[test]
fn test_first_build_then_unchanged_then_edit_one_source() {
    let config = build_config(true);
    let mut cache: Vec<HashCache> = Vec::new();
    let main_v1 = digest_of(b"int main() { return f(); }");
    let lib_v1 = digest_of(b"int f() { return 0; }");

    let mut first = vec![unit("main.c", &main_v1, Vec::new()), unit("lib.c", &lib_v1, Vec::new())];
    first[0].object_exists = false;
    first[1].object_exists = false;
    let plan = get_files_to_compile(&config, &cache, &first);
    assert_eq!(sources(&plan), vec!["main.c", "lib.c"]);
    assert_eq!(compile_unix_like(&plan, &Vec::new(), &mut cache), Ok(()));
    assert_eq!(cache.len(), 2);
    assert_eq!(cache, vec![record("/work/main.c", &main_v1), record("/work/lib.c", &lib_v1)]);

    let second = vec![unit("main.c", &main_v1, Vec::new()), unit("lib.c", &lib_v1, Vec::new())];
    let plan = get_files_to_compile(&config, &cache, &second);
    assert!(plan.is_empty());
    let before = cache.clone();
    assert_eq!(compile_unix_like(&plan, &Vec::new(), &mut cache), Ok(()));
    assert_eq!(cache, before);

    let lib_v2 = digest_of(b"int f() { return 1; }");
    let third = vec![unit("main.c", &main_v1, Vec::new()), unit("lib.c", &lib_v2, Vec::new())];
    let plan = get_files_to_compile(&config, &cache, &third);
    assert_eq!(sources(&plan), vec!["lib.c"]);
    assert_eq!(plan[0], third[1]);
    assert_eq!(compile_unix_like(&plan, &Vec::new(), &mut cache), Ok(()));
    assert_eq!(cache, vec![record("/work/main.c", &main_v1), record("/work/lib.c", &lib_v2)]);
    assert!(get_files_to_compile(&config, &cache, &third).is_empty());
}

#[test]
fn test_missing_source_is_reported() {
    let config = build_config(true);
    let error = resolve_unit("/work", "missing.c", &FileProbe::Missing, &config, false).unwrap_err();
    assert_eq!(error.kind, ErrorKind::SourceNotFound);
    assert_eq!(error.message, "File not found: missing.c");
}

#[test]
fn test_resolve_unit() {
    let debug = build_config(true);
    assert_eq!(
        resolve_unit("/work", "src/main.c", &FileProbe::Regular, &debug, false),
        Ok(("/work/src/main.c".to_string(), "/work/forge/debug/main.o".to_string()))
    );
    assert_eq!(
        resolve_unit("/work", "./src/main.c", &FileProbe::Regular, &debug, true),
        Ok(("/work/./src/main.c".to_string(), "/work/forge/libs/obj/main.o".to_string()))
    );
    let release = build_config(false);
    assert_eq!(
        resolve_unit("/work", "lib.c", &FileProbe::Regular, &release, false),
        Ok(("/work/lib.c".to_string(), "/work/forge/release/lib.o".to_string()))
    );
}

#[test]
fn test_resolve_unit_failures() {
    let config = build_config(true);
    let probe = FileProbe::Unresolvable("denied".to_string());
    let error = resolve_unit("/work", "a.c", &probe, &config, false).unwrap_err();
    assert_eq!(error.kind, ErrorKind::Io);
    assert_eq!(error.message, "File Error: denied");
    let error = resolve_unit("/work", "src/..", &FileProbe::Regular, &config, false).unwrap_err();
    assert_eq!(error.kind, ErrorKind::Io);
    assert_eq!(error.message, "Could not get equivalent forge path for file: src/..");
}

#[test]
fn test_plan_takes_a_unit_without_object() {
    let config = build_config(true);
    let cache = vec![record("/work/a.c", "d1"), record("/work/b.c", "d2")];
    let mut units = vec![unit("a.c", "d1", Vec::new()), unit("b.c", "d2", Vec::new())];
    assert!(get_files_to_compile(&config, &cache, &units).is_empty());
    units[1].object_exists = false;
    assert_eq!(sources(&get_files_to_compile(&config, &cache, &units)), vec!["b.c"]);
}

#[test]
fn test_plan_takes_a_unit_that_is_not_on_record() {
    let config = build_config(true);
    let cache = vec![record("/work/a.c", "d1")];
    let units = vec![unit("a.c", "d1", Vec::new()), unit("b.c", "d2", Vec::new())];
    assert_eq!(sources(&get_files_to_compile(&config, &cache, &units)), vec!["b.c"]);
    let all = get_files_to_compile(&config, &Vec::new(), &units);
    assert_eq!(sources(&all), vec!["a.c", "b.c"]);
}

#[test]
fn test_header_change_reaches_every_unit_that_includes_it() {
    let config = build_config(true);
    let cache = vec![
        record("/work/a.c", "a1"),
        record("/work/b.c", "b1"),
        record("/work/c.c", "c1"),
        record("/work/include/shared.h", "h1"),
        record("/work/include/own.h", "o1"),
    ];
    let units = |shared: &str| {
        vec![
            unit("a.c", "a1", vec![header("/work/include/shared.h", shared)]),
            unit(
                "b.c",
                "b1",
                vec![header("/work/include/own.h", "o1"), header("/work/include/shared.h", shared)],
            ),
            unit("c.c", "c1", vec![header("/work/include/own.h", "o1")]),
        ]
    };
    assert!(get_files_to_compile(&config, &cache, &units("h1")).is_empty());
    let plan = get_files_to_compile(&config, &cache, &units("h2"));
    assert_eq!(sources(&plan), vec!["a.c", "b.c"]);
}

#[test]
fn test_header_without_record_makes_its_unit_stale() {
    let config = build_config(true);
    let cache = vec![record("/work/a.c", "a1")];
    let units = vec![unit("a.c", "a1", vec![header("/work/new.h", "n1")])];
    assert_eq!(sources(&get_files_to_compile(&config, &cache, &units)), vec!["a.c"]);
}

#[test]
fn test_rebuild_compiles_every_unit() {
    let cache = vec![record("/work/a.c", "d1"), record("/work/b.c", "d2")];
    let units = vec![unit("a.c", "d1", Vec::new()), unit("b.c", "d2", Vec::new())];
    let rebuild = dummy_config(true);
    assert_eq!(get_files_to_compile(&rebuild, &cache, &units), units);
    let mut run_clean = dummy_config(true);
    run_clean.args.command = Command::Run(RunOptions {
        debug: true,
        release: false,
        clean: true,
        compiler: None,
        args: Vec::new(),
    });
    assert_eq!(get_files_to_compile(&run_clean, &cache, &units), units);
    let mut run = dummy_config(true);
    run.args.command = Command::Run(RunOptions {
        debug: true,
        release: false,
        clean: false,
        compiler: None,
        args: Vec::new(),
    });
    assert!(get_files_to_compile(&run, &cache, &units).is_empty());
}

#[test]
fn test_plan_of_no_units_is_empty() {
    let config = dummy_config(true);
    assert!(get_files_to_compile(&config, &Vec::new(), &Vec::new()).is_empty());
}

#[test]
fn test_is_stale_by_each_trigger() {
    let cache = vec![record("/work/a.c", "d1"), record("/work/a.h", "h1")];
    let fresh = unit("a.c", "d1", vec![header("/work/a.h", "h1")]);
    assert!(!fresh.is_stale(false, &cache));
    assert!(fresh.is_stale(true, &cache));
    let mut no_object = fresh.clone();
    no_object.object_exists = false;
    assert!(no_object.is_stale(false, &cache));
    let mut edited = fresh.clone();
    edited.digest = "d2".to_string();
    assert!(edited.is_stale(false, &cache));
    let mut header_edited = fresh.clone();
    header_edited.headers[0].digest = "h2".to_string();
    assert!(header_edited.is_stale(false, &cache));
    assert_eq!(fresh.duplicate(), fresh);
}

#[test]
fn test_successful_compile_commits_sources_then_headers() {
    let mut cache = vec![record("/work/old.c", "o1"), record("/work/b.h", "stale")];
    let plan = vec![
        unit("a.c", "a1", vec![header("/work/a.h", "ha"), header("/work/b.h", "hb")]),
        unit("b.c", "b1", vec![header("./rel\\b.h", "hr")]),
    ];
    assert_eq!(compile_unix_like(&plan, &Vec::new(), &mut cache), Ok(()));
    assert_eq!(
        cache,
        vec![
            record("/work/old.c", "o1"),
            record("/work/b.h", "hb"),
            record("/work/a.c", "a1"),
            record("/work/b.c", "b1"),
            record("/work/a.h", "ha"),
            record("rel/b.h", "hr"),
        ]
    );
}

#[test]
fn test_unit_that_compiled_is_on_record_though_another_failed() {
    let config = build_config(true);
    let mut cache: Vec<HashCache> = Vec::new();
    let plan = vec![
        unit("a.c", "a1", vec![header("/work/a.h", "ha")]),
        unit("b.c", "b1", vec![header("/work/b.h", "hb")]),
    ];
    let error = compile_unix_like(&plan, &vec!["b.c".to_string()], &mut cache).unwrap_err();
    assert_eq!(error.kind, ErrorKind::Compile);
    assert_eq!(error.message, "Error compiling file: b.c");
    assert_eq!(cache, vec![record("/work/a.c", "a1"), record("/work/a.h", "ha")]);
    let next = get_files_to_compile(&config, &cache, &plan);
    assert_eq!(sources(&next), vec!["b.c"]);
}

#[test]
fn test_header_of_a_failed_unit_is_held_back() {
    let config = build_config(true);
    let mut cache = vec![
        record("/work/a.c", "a1"),
        record("/work/b.c", "b1"),
        record("/work/shared.h", "old"),
    ];
    let plan = vec![
        unit("a.c", "a1", vec![header("/work/shared.h", "new"), header("/work/a.h", "ha")]),
        unit("b.c", "b1", vec![header("./work/../work/shared.h", "x"), header("/work/shared.h", "new")]),
    ];
    assert_eq!(sources(&get_files_to_compile(&config, &cache, &plan)), vec!["a.c", "b.c"]);
    assert!(compile_unix_like(&plan, &vec!["b.c".to_string()], &mut cache).is_err());
    assert_eq!(
        cache,
        vec![
            record("/work/a.c", "a1"),
            record("/work/b.c", "b1"),
            record("/work/shared.h", "old"),
            record("/work/a.h", "ha"),
        ]
    );
    assert_eq!(sources(&get_files_to_compile(&config, &cache, &plan)), vec!["a.c", "b.c"]);
    assert_eq!(compile_unix_like(&plan, &Vec::new(), &mut cache), Ok(()));
    assert!(get_files_to_compile(&config, &cache, &plan).is_empty());
}

#[test]
fn test_source_that_a_failed_unit_includes_is_held_back() {
    let mut cache: Vec<HashCache> = Vec::new();
    let plan = vec![
        unit("a.c", "a1", Vec::new()),
        unit("b.c", "b1", vec![header("/work/a.c", "a1")]),
        unit("c.c", "c1", Vec::new()),
    ];
    assert!(compile_unix_like(&plan, &vec!["b.c".to_string()], &mut cache).is_err());
    assert_eq!(cache, vec![record("/work/c.c", "c1")]);
}

#[test]
fn test_missing_source_does_not_stop_its_siblings() {
    let config = build_config(true);
    let missing = resolve_unit("/work", "missing.c", &FileProbe::Missing, &config, false)
        .map(|_| unit("missing.c", "", Vec::new()));
    let mut ok = unit("ok.c", "o1", Vec::new());
    ok.object_exists = false;
    let unreadable: Result<CompilationUnit, BuildError> =
        Err(BuildError { kind: ErrorKind::Io, message: "denied".to_string() });
    let observed = vec![missing, Ok(ok.clone()), unreadable];
    let mut cache: Vec<HashCache> = Vec::new();
    let (plan, unresolved) = plan_units(&config, &cache, &observed);
    assert_eq!(plan, vec![ok]);
    let unresolved = unresolved.unwrap();
    assert_eq!(unresolved.kind, ErrorKind::SourceNotFound);
    assert_eq!(unresolved.message, "File not found: missing.c");
    let concluded = compile_unix_like(&plan, &Vec::new(), &mut cache);
    assert_eq!(concluded, Ok(()));
    assert_eq!(cache, vec![record("/work/ok.c", "o1")]);
    let done = pass_outcome(Some(unresolved.clone()), concluded).unwrap_err();
    assert_eq!(done, unresolved);
}

#[test]
fn test_plan_units_without_failures() {
    let config = build_config(true);
    let cache = vec![record("/work/a.c", "a1")];
    let observed = vec![Ok(unit("a.c", "a1", Vec::new())), Ok(unit("b.c", "b1", Vec::new()))];
    let (plan, unresolved) = plan_units(&config, &cache, &observed);
    assert_eq!(sources(&plan), vec!["b.c"]);
    assert_eq!(unresolved, None);
    let (plan, unresolved) = plan_units(&config, &cache, &Vec::new());
    assert!(plan.is_empty());
    assert_eq!(unresolved, None);
}

#[test]
fn test_pass_outcome() {
    let unit_error = BuildError { kind: ErrorKind::Compile, message: "c".to_string() };
    let source_error = BuildError { kind: ErrorKind::SourceNotFound, message: "s".to_string() };
    assert_eq!(pass_outcome(None, Ok(())), Ok(()));
    assert_eq!(pass_outcome(None, Err(unit_error.clone())), Err(unit_error.clone()));
    assert_eq!(pass_outcome(Some(source_error.clone()), Ok(())), Err(source_error.clone()));
    assert_eq!(pass_outcome(Some(source_error.clone()), Err(unit_error)), Err(source_error));
}

#[test]
fn test_first_failure() {
    let e1 = BuildError { kind: ErrorKind::Link, message: "one".to_string() };
    let e2 = BuildError { kind: ErrorKind::Io, message: "two".to_string() };
    assert_eq!(first_failure::<()>(&Vec::new()), None);
    assert_eq!(first_failure(&vec![Ok(1), Ok(2)]), None);
    assert_eq!(first_failure(&vec![Ok(1), Err(e1.clone()), Err(e2.clone())]), Some(e1));
    assert_eq!(first_failure::<u8>(&vec![Err(e2.clone())]), Some(e2));
}

#[test]
fn test_nothing_is_committed_where_every_unit_failed() {
    let mut cache = vec![record("/work/a.c", "old")];
    let plan = vec![unit("a.c", "a1", Vec::new()), unit("b.c", "b1", Vec::new())];
    let failed = vec!["b.c".to_string(), "a.c".to_string()];
    let error = compile_unix_like(&plan, &failed, &mut cache).unwrap_err();
    assert_eq!(error.kind, ErrorKind::Compile);
    assert_eq!(error.message, "Error compiling file: b.c");
    assert_eq!(cache, vec![record("/work/a.c", "old")]);
    let config = build_config(true);
    assert_eq!(sources(&get_files_to_compile(&config, &cache, &plan)), vec!["a.c", "b.c"]);
}

#[test]
fn test_compile_passes() {
    let mut config = dummy_config(true);
    assert_eq!(compile(&config).unwrap(), vec![false]);
    config.forge.project.targets = vec!["shared".to_string()];
    assert_eq!(compile(&config).unwrap(), vec![true]);
    config.forge.project.targets = vec!["static".to_string(), "shared".to_string()];
    assert_eq!(compile(&config).unwrap(), vec![true, false]);
    config.forge.project.targets =
        vec!["bin".to_string(), "static".to_string(), "shared".to_string(), "bin".to_string()];
    assert_eq!(compile(&config).unwrap(), vec![true, false]);
    config.forge.project.targets = vec!["library".to_string()];
    assert_eq!(compile(&config).unwrap(), Vec::<bool>::new());
    config.forge.project.targets = Vec::new();
    assert_eq!(compile(&config).unwrap(), Vec::<bool>::new());
}

#[test]
fn test_compile_with_msvc() {
    let mut config = dummy_config(true);
    config.compiler = CompilerKind::MSVC;
    let error = compile(&config).unwrap_err();
    assert_eq!(error.kind, ErrorKind::UnsupportedToolchain);
    assert_eq!(error.message, "MSVC is not supported yet");
}

#[test]
fn test_get_compiler_cmd() {
    let mut config = dummy_config(true);
    let gcc = get_compiler_cmd(&config).unwrap();
    assert_eq!(gcc.program, "gcc");
    assert!(gcc.args.is_empty());
    config.compiler = CompilerKind::Clang;
    assert_eq!(get_compiler_cmd(&config).unwrap().program, "clang");
    config.compiler = CompilerKind::MSVC;
    let error = get_compiler_cmd(&config).unwrap_err();
    assert_eq!(error.kind, ErrorKind::UnsupportedToolchain);
    assert_eq!(error.message, "Compiler not supported: msvc");
}

#[test]
fn test_compile_command_debug() {
    let mut config = build_config(true);
    config.forge.build.include_dirs = vec!["include".to_string(), "vendor/inc".to_string()];
    config.forge.build.cflags = Some(vec![
        "-O2".to_string(),
        "-Wall".to_string(),
        "-funroll-loops".to_string(),
        "-std=c11".to_string(),
        "-DDEBUG".to_string(),
    ]);
    config.forge.dependencies = Some(Dependencies {
        libraries: vec!["m".to_string()],
        library_paths: vec!["/opt/lib".to_string()],
        include_dirs: vec!["/opt/include".to_string()],
        posix_libraries: Vec::new(),
    });
    let cmd = compile_command(&config, &unit("main.c", "d", Vec::new())).unwrap();
    assert_eq!(cmd.program, "gcc");
    assert_eq!(
        cmd.args,
        vec![
            "-g",
            "-O0",
            "-Wall",
            "-Wextra",
            "-DDEBUG",
            "-O2",
            "-std=c11",
            "-c",
            "/work/main.c",
            "-Iinclude",
            "-Ivendor/inc",
            "-I/opt/include",
            "-o",
            "/work/forge/debug/main.o",
        ]
    );
}

#[test]
fn test_compile_command_release_shared() {
    let mut config = build_config(false);
    config.compiler = CompilerKind::Clang;
    let mut shared = unit("lib.c", "d", Vec::new());
    shared.shared = true;
    shared.object_path = "/work/forge/libs/obj/lib.o".to_string();
    let cmd = compile_command(&config, &shared).unwrap();
    assert_eq!(cmd.program, "clang");
    assert_eq!(
        cmd.args,
        vec![
            "-O3",
            "-Wall",
            "-Wextra",
            "-DRELEASE",
            "-DNDEBUG",
            "-fPIC",
            "-c",
            "/work/lib.c",
            "-o",
            "/work/forge/libs/obj/lib.o",
        ]
    );
}

#[test]
fn test_compile_command_with_msvc() {
    let mut config = build_config(true);
    config.compiler = CompilerKind::MSVC;
    let error = compile_command(&config, &unit("main.c", "d", Vec::new())).unwrap_err();
    assert_eq!(error.kind, ErrorKind::UnsupportedToolchain);
    assert_eq!(error.message, "Compiler not supported: msvc");
}
