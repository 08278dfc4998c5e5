use rustyforge::arguments::{
    BuildOptions, CleanOptions, Command, DiscoverOptions, ForgeArgs, InitOptions, RunOptions,
};
use rustyforge::config::{
    determine_compiler_kind, dummy_config, match_compiler_kind, parse_compiler_kind,
    unknown_compiler, BuildProfile, CompilerKind, Config, Toolchains,
};
use rustyforge::error::ErrorKind;

fn args(command: Command) -> ForgeArgs {
    ForgeArgs { verbose: false, verbose_hard: false, command }
}

fn build(compiler: Option<&str>) -> BuildOptions {
    BuildOptions { debug: true, release: false, compiler: compiler.map(|c| c.to_string()) }
}

fn run(compiler: Option<&str>, debug: bool, clean: bool) -> RunOptions {
    RunOptions {
        debug,
        release: !debug,
        clean,
        compiler: compiler.map(|c| c.to_string()),
        args: Vec::new(),
    }
}

#[test]
fn test_dummy_config() {
    let config = dummy_config(true);
    assert_eq!(config.compiler, CompilerKind::GCC);
    assert!(!config.args.verbose);
    assert!(!config.args.verbose_hard);
    assert_eq!(
        config.args.command,
        Command::Rebuild(BuildOptions { debug: true, compiler: None, release: false })
    );
    assert_eq!(config.forge.build.compiler, Some("gcc".to_string()));
    assert_eq!(config.forge.build.output, "dummy");
    assert_eq!(config.forge.build.cflags, None);
    assert_eq!(config.forge.build.ldflags, None);
    assert!(config.forge.build.src.is_empty());
    assert!(config.forge.build.include_dirs.is_empty());
    assert_eq!(config.forge.project.name, "dummy");
    assert_eq!(config.forge.project.targets, vec!["bin".to_string()]);
    assert_eq!(config.forge.dependencies, None);
    let release = dummy_config(false);
    assert_eq!(
        release.args.command,
        Command::Rebuild(BuildOptions { debug: false, compiler: None, release: true })
    );
}

#[test]
fn test_compiler_names() {
    assert_eq!(CompilerKind::GCC.to_string(), "gcc");
    assert_eq!(CompilerKind::Clang.to_string(), "clang");
    assert_eq!(CompilerKind::MSVC.to_string(), "msvc");
}

#[test]
fn test_parse_compiler_kind() {
    assert_eq!(parse_compiler_kind("gcc"), Some(CompilerKind::GCC));
    assert_eq!(parse_compiler_kind("clang"), Some(CompilerKind::Clang));
    assert_eq!(parse_compiler_kind("mscv"), Some(CompilerKind::MSVC));
    assert_eq!(parse_compiler_kind("msvc"), None);
    assert_eq!(parse_compiler_kind("GCC"), None);
    assert_eq!(parse_compiler_kind(""), None);
    assert_eq!(parse_compiler_kind("gcc "), None);
}

#[test]
fn test_match_compiler_kind_falls_back_to_gcc() {
    assert_eq!(match_compiler_kind(&"gcc".to_string()), CompilerKind::GCC);
    assert_eq!(match_compiler_kind(&"clang".to_string()), CompilerKind::Clang);
    assert_eq!(match_compiler_kind(&"mscv".to_string()), CompilerKind::MSVC);
    assert_eq!(match_compiler_kind(&"tcc".to_string()), CompilerKind::GCC);
    assert_eq!(match_compiler_kind(&"".to_string()), CompilerKind::GCC);
}

#[test]
fn test_command_line_wins_over_project_file() {
    let mut forge = dummy_config(true).forge;
    forge.build.compiler = Some("gcc".to_string());
    let from_build = args(Command::Build(build(Some("clang"))));
    assert_eq!(determine_compiler_kind(&forge, &from_build), CompilerKind::Clang);
    let from_rebuild = args(Command::Rebuild(build(Some("mscv"))));
    assert_eq!(determine_compiler_kind(&forge, &from_rebuild), CompilerKind::MSVC);
    let from_run = args(Command::Run(run(Some("clang"), true, false)));
    assert_eq!(determine_compiler_kind(&forge, &from_run), CompilerKind::Clang);
    let unknown = args(Command::Build(build(Some("icc"))));
    forge.build.compiler = Some("clang".to_string());
    assert_eq!(determine_compiler_kind(&forge, &unknown), CompilerKind::GCC);
}

#[test]
fn test_project_file_decides_without_command_line() {
    let mut forge = dummy_config(true).forge;
    forge.build.compiler = Some("clang".to_string());
    assert_eq!(determine_compiler_kind(&forge, &args(Command::Build(build(None)))), CompilerKind::Clang);
    let init = args(Command::Init(InitOptions { compiler: Some("gcc".to_string()) }));
    assert_eq!(determine_compiler_kind(&forge, &init), CompilerKind::Clang);
    let clean = args(Command::Clean(CleanOptions { debug: true, release: false, libs: false }));
    assert_eq!(determine_compiler_kind(&forge, &clean), CompilerKind::Clang);
    forge.build.compiler = None;
    assert_eq!(determine_compiler_kind(&forge, &args(Command::Build(build(None)))), CompilerKind::GCC);
    forge.build.compiler = Some("unknown".to_string());
    assert_eq!(determine_compiler_kind(&forge, &args(Command::Build(build(None)))), CompilerKind::GCC);
}

#[test]
fn test_forces_rebuild() {
    assert!(Command::Rebuild(build(None)).forces_rebuild());
    assert!(Command::Run(run(None, true, true)).forces_rebuild());
    assert!(!Command::Run(run(None, true, false)).forces_rebuild());
    assert!(!Command::Build(build(None)).forces_rebuild());
    assert!(!Command::Clean(CleanOptions { debug: true, release: true, libs: true }).forces_rebuild());
    assert!(!Command::Discover(DiscoverOptions { auto: true, ignore: Vec::new() }).forces_rebuild());
}

#[test]
fn test_profiles() {
    assert_eq!(Command::Build(build(None)).profile(), Some(BuildProfile::Debug));
    assert_eq!(Command::Run(run(None, false, false)).profile(), Some(BuildProfile::Release));
    let neither = BuildOptions { debug: false, release: false, compiler: None };
    assert_eq!(Command::Rebuild(neither.clone()).profile(), Some(BuildProfile::Release));
    let clean = Command::Clean(CleanOptions { debug: true, release: false, libs: false });
    assert_eq!(clean.profile(), None);
    assert_eq!(clean.output_profile(), BuildProfile::Release);
    assert_eq!(Command::Build(build(None)).output_profile(), BuildProfile::Debug);
}

#[test]
fn test_config_read_keeps_an_available_compiler() {
    let forge = dummy_config(true).forge;
    let found = Toolchains { gcc: true, clang: true };
    let config = Config::read(args(Command::Build(build(Some("clang")))), forge.clone(), found).unwrap();
    assert_eq!(config.compiler, CompilerKind::Clang);
    assert_eq!(config.forge, forge);
    assert_eq!(config.args.command, Command::Build(build(Some("clang"))));
}

#[test]
fn test_config_read_falls_back_to_gcc() {
    let forge = dummy_config(true).forge;
    let found = Toolchains { gcc: true, clang: false };
    let clang = Config::read(args(Command::Build(build(Some("clang")))), forge.clone(), found).unwrap();
    assert_eq!(clang.compiler, CompilerKind::GCC);
    let msvc = Config::read(args(Command::Build(build(Some("mscv")))), forge, found).unwrap();
    assert_eq!(msvc.compiler, CompilerKind::GCC);
}

#[test]
fn test_config_read_without_any_compiler() {
    let forge = dummy_config(true).forge;
    let found = Toolchains { gcc: false, clang: false };
    let error = Config::read(args(Command::Build(build(None))), forge.clone(), found).unwrap_err();
    assert_eq!(error.kind, ErrorKind::UnsupportedToolchain);
    assert_eq!(error.message, "Fallback compiler not found!");
    let only_clang = Toolchains { gcc: false, clang: true };
    let error = Config::read(args(Command::Build(build(Some("mscv")))), forge, only_clang).unwrap_err();
    assert_eq!(error.kind, ErrorKind::UnsupportedToolchain);
}

#[test]
fn test_unknown_compiler() {
    let mut forge = dummy_config(true).forge;
    forge.build.compiler = Some("tcc".to_string());
    assert_eq!(unknown_compiler(&forge, &args(Command::Build(build(None)))), Some("tcc".to_string()));
    assert_eq!(unknown_compiler(&forge, &args(Command::Build(build(Some("clang"))))), None);
    assert_eq!(
        unknown_compiler(&forge, &args(Command::Run(run(Some("icc"), true, false)))),
        Some("icc".to_string())
    );
    let init = args(Command::Init(InitOptions { compiler: Some("icc".to_string()) }));
    assert_eq!(unknown_compiler(&forge, &init), Some("tcc".to_string()));
    forge.build.compiler = Some("gcc".to_string());
    assert_eq!(unknown_compiler(&forge, &init), None);
    forge.build.compiler = None;
    assert_eq!(unknown_compiler(&forge, &args(Command::Build(build(None)))), None);
    assert_eq!(
        unknown_compiler(&forge, &args(Command::Rebuild(build(Some("msvc"))))),
        Some("msvc".to_string())
    );
}
