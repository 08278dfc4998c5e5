use rustyforge::arguments::{
    set_command_defaults, BuildOptions, CleanOptions, Command, DiscoverOptions, InitOptions,
    RunOptions,
};

fn build(debug: bool, release: bool) -> BuildOptions {
    BuildOptions { debug, release, compiler: Some("clang".to_string()) }
}

fn run(debug: bool, release: bool) -> RunOptions {
    RunOptions {
        debug,
        release,
        clean: true,
        compiler: None,
        args: vec!["--level".to_string(), "3".to_string()],
    }
}

#[test]
fn test_build_defaults_to_debug() {
    let mut cmd = Command::Build(build(false, false));
    set_command_defaults(&mut cmd);
    assert_eq!(cmd, Command::Build(build(true, false)));
}

#[test]
fn test_build_keeps_a_chosen_profile() {
    let mut release = Command::Build(build(false, true));
    set_command_defaults(&mut release);
    assert_eq!(release, Command::Build(build(false, true)));
    let mut debug = Command::Build(build(true, false));
    set_command_defaults(&mut debug);
    assert_eq!(debug, Command::Build(build(true, false)));
}

#[test]
fn test_rebuild_defaults_to_debug() {
    let mut cmd = Command::Rebuild(build(false, false));
    set_command_defaults(&mut cmd);
    assert_eq!(cmd, Command::Rebuild(build(true, false)));
    let mut release = Command::Rebuild(build(false, true));
    set_command_defaults(&mut release);
    assert_eq!(release, Command::Rebuild(build(false, true)));
}

#[test]
fn test_run_defaults_to_debug_and_keeps_its_arguments() {
    let mut cmd = Command::Run(run(false, false));
    set_command_defaults(&mut cmd);
    assert_eq!(cmd, Command::Run(run(true, false)));
    let mut release = Command::Run(run(false, true));
    set_command_defaults(&mut release);
    assert_eq!(release, Command::Run(run(false, true)));
}

#[test]
fn test_clean_defaults_to_everything() {
    let mut cmd = Command::Clean(CleanOptions { debug: false, release: false, libs: false });
    set_command_defaults(&mut cmd);
    assert_eq!(cmd, Command::Clean(CleanOptions { debug: true, release: true, libs: true }));
}

#[test]
fn test_clean_keeps_a_selection() {
    for (debug, release, libs) in
        [(true, false, false), (false, true, false), (false, false, true), (true, true, false)]
    {
        let mut cmd = Command::Clean(CleanOptions { debug, release, libs });
        set_command_defaults(&mut cmd);
        assert_eq!(cmd, Command::Clean(CleanOptions { debug, release, libs }));
    }
}

#[test]
fn test_init_defaults_to_gcc() {
    let mut cmd = Command::Init(InitOptions { compiler: None });
    set_command_defaults(&mut cmd);
    assert_eq!(cmd, Command::Init(InitOptions { compiler: Some("gcc".to_string()) }));
    let mut chosen = Command::Init(InitOptions { compiler: Some("clang".to_string()) });
    set_command_defaults(&mut chosen);
    assert_eq!(chosen, Command::Init(InitOptions { compiler: Some("clang".to_string()) }));
}

#[test]
fn test_discover_has_no_defaults() {
    let options = DiscoverOptions { auto: false, ignore: vec!["*.tmp".to_string()] };
    let mut cmd = Command::Discover(options.clone());
    set_command_defaults(&mut cmd);
    assert_eq!(cmd, Command::Discover(options));
}

#[test]
fn test_defaults_are_idempotent() {
    let mut cmd = Command::Run(run(false, false));
    set_command_defaults(&mut cmd);
    let once = cmd.clone();
    set_command_defaults(&mut cmd);
    assert_eq!(cmd, once);
}
