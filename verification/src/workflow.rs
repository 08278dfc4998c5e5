//! What the commands do around compiling and linking: checking and setting
//! up a project, cleaning it, and running what was built.

use vstd::prelude::*;
use crate::arguments::{clean_defaults, CleanOptions, RunOptions};
use crate::config::{output_profile, Build, Config, Forge, Platform, Project};
use crate::error::{BuildError, ErrorKind};
use crate::fs_utils::{find_o_files_dir, join_path, joined_path, profile_dir};
use crate::hashes::HashCache;
use crate::linker::executable_name;
use crate::text::{clone_strings, concat2, concat3, contains_text, opt_text, texts};
use crate::utils::CommandLine;

verus! {

/// What a clean does on disk.
#[derive(Debug, Clone, PartialEq)]
pub struct CleanPlan {
    /// The directories to remove, where they exist.
    pub remove: Vec<String>,
    /// The file of the hash cache: it is removed and written anew, empty.
    pub cache_file: String,
    /// The directory to create again afterwards.
    pub create: Option<String>,
}

/// The directories that a clean with the options `o` removes from a project
/// at `cwd`.
pub open spec fn cleaned_dirs(cwd: Seq<char>, o: CleanOptions) -> Seq<Seq<char>> {
    (if o.debug {
        seq![joined_path(cwd, "forge/debug"@)]
    } else {
        Seq::empty()
    }) + (if o.release {
        seq![joined_path(cwd, "forge/release"@)]
    } else {
        Seq::empty()
    }) + (if o.libs {
        seq![joined_path(cwd, "forge/libs"@)]
    } else {
        Seq::empty()
    })
}

/// The directory that a clean with the options `o` creates again: the first
/// that it cleaned.
pub open spec fn recreated_dir(cwd: Seq<char>, o: CleanOptions) -> Option<Seq<char>> {
    if o.debug {
        Some(joined_path(cwd, "forge/debug"@))
    } else if o.release {
        Some(joined_path(cwd, "forge/release"@))
    } else if o.libs {
        Some(joined_path(cwd, "forge/libs"@))
    } else {
        None
    }
}

/// The directories that a build of a project at `cwd` writes to: those of
/// the libraries where the project declares a static or a shared library,
/// and the directory of the profile.
pub open spec fn build_dirs(cwd: Seq<char>, config: Config) -> Seq<Seq<char>> {
    let targets = texts(config.forge.project.targets@);
    (if targets.contains("static"@) || targets.contains("shared"@) {
        seq![joined_path(cwd, "forge/libs/out"@), joined_path(cwd, "forge/libs/obj"@)]
    } else {
        Seq::empty()
    }) + seq![joined_path(cwd, profile_dir(output_profile(config.args.command)))]
}

/// The directories that `init` creates in a project at `cwd`.
pub open spec fn init_dirs(cwd: Seq<char>) -> Seq<Seq<char>> {
    seq![
        joined_path(cwd, "forge"@),
        joined_path(cwd, "forge/.forge"@),
        joined_path(cwd, "src"@),
        joined_path(cwd, "include"@),
    ]
}

/// The files and directories that a project at `cwd` must have before
/// anything but `init` can run.
pub open spec fn required_paths(cwd: Seq<char>) -> Seq<Seq<char>> {
    seq![
        joined_path(cwd, "forge"@),
        joined_path(cwd, "forge/.forge"@),
        joined_path(cwd, "forge/.forge/hash_cache.json"@),
        joined_path(cwd, "RustyForge.toml"@),
    ]
}

/// The position of the first of `required` that `present` does not hold, or
/// the length of `required` where it holds them all.
pub open spec fn first_missing(required: Seq<Seq<char>>, present: Seq<Seq<char>>) -> int
    decreases required.len(),
{
    if required.len() == 0 {
        0
    } else if !present.contains(required[0]) {
        0
    } else {
        1 + first_missing(required.drop_first(), present)
    }
}

/// The message for a project that lacks `path`.
pub open spec fn missing_file(path: Seq<char>) -> Seq<char> {
    "Missing required file: "@ + path
        + "\n\nPlease run `rustyforge init` to initialize the forge directory."@
}

/// The directory of a project at `cwd` that holds the executable that `run`
/// starts.
pub open spec fn run_dir(cwd: Seq<char>, opt: RunOptions) -> Seq<char> {
    if opt.debug {
        joined_path(cwd, "forge/debug"@)
    } else if opt.release {
        joined_path(cwd, "forge/release"@)
    } else {
        joined_path(cwd, "forge"@)
    }
}

/// Plans a clean of a project at `cwd` and discards the hash cache, so that
/// the next build compiles everything. Where `opt` selects nothing, it is
/// set to select everything.
pub fn clean(cwd: &str, opt: &mut CleanOptions, entries: &mut Vec<HashCache>) -> (plan: CleanPlan)
    ensures
        *final(opt) == clean_defaults(*old(opt)),
        final(entries)@.len() == 0,
        texts(plan.remove@) == cleaned_dirs(cwd@, *final(opt)),
        plan.cache_file@ == joined_path(cwd@, "forge/.forge/hash_cache.json"@),
        opt_text(plan.create) == recreated_dir(cwd@, *final(opt)),
{
    if !opt.debug && !opt.release && !opt.libs {
        opt.debug = true;
        opt.release = true;
        opt.libs = true;
    }
    let mut remove: Vec<String> = Vec::new();
    if opt.debug {
        remove.push(join_path(cwd, "forge/debug"));
    }
    if opt.release {
        remove.push(join_path(cwd, "forge/release"));
    }
    if opt.libs {
        remove.push(join_path(cwd, "forge/libs"));
    }
    assert(texts(remove@) =~= cleaned_dirs(cwd@, *opt));
    entries.clear();
    let create = if opt.debug {
        Some(join_path(cwd, "forge/debug"))
    } else if opt.release {
        Some(join_path(cwd, "forge/release"))
    } else if opt.libs {
        Some(join_path(cwd, "forge/libs"))
    } else {
        None
    };
    CleanPlan { remove, cache_file: join_path(cwd, "forge/.forge/hash_cache.json"), create }
}

/// The command that runs the executable of a project at `cwd` with the
/// arguments the user gave.
pub fn execute_target(config: &Config, cwd: &str, opt: &RunOptions, platform: Platform) -> (cmd:
    CommandLine)
    ensures
        cmd.program@ == joined_path(
            run_dir(cwd@, *opt),
            executable_name(config.forge.build.output@, platform),
        ),
        texts(cmd.args@) == texts(opt.args@),
{
    let exe_name = if platform == Platform::Windows {
        concat2(config.forge.build.output.as_str(), ".exe")
    } else {
        config.forge.build.output.clone()
    };
    let dir = if opt.debug {
        join_path(cwd, "forge/debug")
    } else if opt.release {
        join_path(cwd, "forge/release")
    } else {
        join_path(cwd, "forge")
    };
    CommandLine { program: join_path(dir.as_str(), exe_name.as_str()), args: clone_strings(&opt.args) }
}

/// The directories to create before a project at `cwd` is built.
pub fn create_build_dir(cwd: &str, config: &Config) -> (dirs: Vec<String>)
    ensures
        texts(dirs@) == build_dirs(cwd@, *config),
{
    let targets = &config.forge.project.targets;
    let mut dirs: Vec<String> = Vec::new();
    if contains_text(targets, "static") || contains_text(targets, "shared") {
        dirs.push(join_path(cwd, "forge/libs/out"));
        dirs.push(join_path(cwd, "forge/libs/obj"));
    }
    let profile = find_o_files_dir(config);
    dirs.push(join_path(cwd, profile.as_str()));
    assert(texts(dirs@) =~= build_dirs(cwd@, *config));
    dirs
}

/// The directories to create when a project at `cwd` is set up.
pub fn init_forge_structure(cwd: &str) -> (dirs: Vec<String>)
    ensures
        texts(dirs@) == init_dirs(cwd@),
{
    let mut dirs: Vec<String> = Vec::new();
    dirs.push(join_path(cwd, "forge"));
    dirs.push(join_path(cwd, "forge/.forge"));
    dirs.push(join_path(cwd, "src"));
    dirs.push(join_path(cwd, "include"));
    assert(texts(dirs@) =~= init_dirs(cwd@));
    dirs
}

/// The files and directories that a project at `cwd` must have.
pub fn required_files(cwd: &str) -> (paths: Vec<String>)
    ensures
        texts(paths@) == required_paths(cwd@),
{
    let mut paths: Vec<String> = Vec::new();
    paths.push(join_path(cwd, "forge"));
    paths.push(join_path(cwd, "forge/.forge"));
    paths.push(join_path(cwd, "forge/.forge/hash_cache.json"));
    paths.push(join_path(cwd, "RustyForge.toml"));
    assert(texts(paths@) =~= required_paths(cwd@));
    paths
}

/// Checks that a project at `cwd` is set up. `present` lists those of
/// `required_files` that are on disk; the first that is not fails the check.
pub fn ensure_necessary_files(cwd: &str, present: &Vec<String>) -> (checked: Result<(), BuildError>)
    ensures
        ({
            let required = required_paths(cwd@);
            let at = first_missing(required, texts(present@));
            if at < required.len() {
                checked matches Err(e) && e.is(ErrorKind::Io, missing_file(required[at]))
            } else {
                checked is Ok
            }
        }),
{
    let required = required_files(cwd);
    let ghost all = texts(required@);
    let ghost there = texts(present@);
    let mut i: usize = 0;
    assert(all.skip(0) =~= all);
    while i < required.len()
        invariant
            i <= required.len(),
            all == texts(required@),
            all == required_paths(cwd@),
            there == texts(present@),
            first_missing(all, there) == i + first_missing(all.skip(i as int), there),
        decreases required.len() - i,
    {
        let path = required[i].as_str();
        proof {
            assert(all.skip(i as int)[0] == path@);
            assert(all.skip(i as int).drop_first() =~= all.skip(i + 1));
        }
        if !contains_text(present, path) {
            return Err(
                BuildError::new(
                    ErrorKind::Io,
                    concat3(
                        "Missing required file: ",
                        path,
                        "\n\nPlease run `rustyforge init` to initialize the forge directory.",
                    ),
                ),
            );
        }
        i += 1;
    }
    Ok(())
}

/// The project file that `init` writes for a project in the directory
/// called `dir_name`: an executable of that name, built with gcc, with no
/// sources yet.
pub fn init_default_toml(dir_name: &str) -> (forge: Forge)
    ensures
        forge.project.name@ == dir_name@,
        texts(forge.project.targets@) == seq!["bin"@],
        opt_text(forge.build.compiler) == Some("gcc"@),
        forge.build.src@.len() == 0,
        forge.build.include_dirs@.len() == 0,
        forge.build.output@ == dir_name@,
        forge.build.cflags is None,
        forge.build.ldflags is None,
        forge.dependencies is None,
{
    let mut targets: Vec<String> = Vec::new();
    targets.push(String::from_str("bin"));
    assert(texts(targets@) =~= seq!["bin"@]);
    Forge {
        project: Project { name: String::from_str(dir_name), targets },
        build: Build {
            compiler: Some(String::from_str("gcc")),
            src: Vec::new(),
            include_dirs: Vec::new(),
            output: String::from_str(dir_name),
            cflags: None,
            ldflags: None,
        },
        dependencies: None,
    }
}

} // verus!
