//! The link orchestrator.
//!
//! Each target kind that a project declares is linked on its own, from the
//! objects of its own directory: the executable and the static library from
//! the directory of the profile, the shared library from the directory of
//! the position-independent objects.

use vstd::prelude::*;
use crate::compile::{compiler_program, get_compiler_cmd};
use crate::config::{output_profile, BuildProfile, CompilerKind, Config, Platform, TargetKind};
use crate::error::{first_failure, is_first_failure, BuildError, ErrorKind};
use crate::fs_utils::{
    file_name_of, file_stem_of, find_o_files_dir, find_r_paths, forward_slashes, is_absolute,
    is_object_entry, join_path, joined_path, lemma_back_trim, listed_path, normalize_path,
    normalized, object_dir, object_path, profile_dir, run_paths, without_back, without_cur_dir,
    without_verbatim, DirEntry,
};
use crate::text::{concat2, concat3, last_index_of, lemma_last_index_of, str_eq, texts};
use crate::utils::{
    add_user_flags, format_lib_name, format_shared_lib_name, lib_name, prefixed, shared_lib_name,
    user_flags, CommandLine,
};

verus! {

/// What the link phase is to do: the target kinds to link, in order, and the
/// failure that ends it after them, if there is one.
#[derive(Debug, Clone, PartialEq)]
pub struct LinkPlan {
    pub steps: Vec<TargetKind>,
    pub error: Option<BuildError>,
}

/// The target kind that a name in the project file stands for.
pub open spec fn named_target(name: Seq<char>) -> Option<TargetKind> {
    if name == "bin"@ {
        Some(TargetKind::Binary)
    } else if name == "static"@ {
        Some(TargetKind::StaticLibrary)
    } else if name == "shared"@ {
        Some(TargetKind::SharedLibrary)
    } else {
        None
    }
}

/// The position of the first name that stands for no target kind, or the
/// number of names where each stands for one.
pub open spec fn first_unknown(targets: Seq<Seq<char>>) -> int
    decreases targets.len(),
{
    if targets.len() == 0 {
        0
    } else if named_target(targets[0]) is None {
        0
    } else {
        1 + first_unknown(targets.drop_first())
    }
}

/// The target kinds that are linked: those of the names before the first
/// unknown one.
pub open spec fn link_steps(targets: Seq<Seq<char>>) -> Seq<TargetKind> {
    targets.take(first_unknown(targets)).map_values(|t: Seq<char>| named_target(t).unwrap())
}

/// The message for a name that stands for no target kind.
pub open spec fn unknown_target(name: Seq<char>) -> Seq<char> {
    "Unknown target: "@ + name + " None of [bin, static, shared]"@
}

/// The directory, relative to the project, from which a target kind is
/// linked.
pub open spec fn link_dir(kind: TargetKind, profile: BuildProfile) -> Seq<char> {
    object_dir(profile, kind == TargetKind::SharedLibrary)
}

/// The file name of the executable.
pub open spec fn executable_name(output: Seq<char>, platform: Platform) -> Seq<char> {
    if platform == Platform::Windows {
        output + ".exe"@
    } else {
        output
    }
}

/// The arguments that the project's dependencies add to the link of the
/// executable: their search paths, the run paths where the platform has
/// them, and the libraries, the portable ones first.
pub open spec fn dependency_arguments(
    config: Config,
    platform: Platform,
    existing: Seq<Seq<char>>,
) -> Seq<Seq<char>> {
    match config.forge.dependencies {
        Some(deps) => prefixed("-L"@, texts(deps.library_paths@)) + (if platform
            == Platform::Windows {
            Seq::empty()
        } else {
            prefixed(
                "-Wl,-rpath="@,
                run_paths(texts(deps.library_paths@), texts(deps.libraries@), existing),
            )
        }) + prefixed("-l"@, texts(deps.libraries@)) + prefixed(
            "-l"@,
            texts(deps.posix_libraries@),
        ),
        None => Seq::empty(),
    }
}

/// The arguments of the linker for the executable: the objects, what the
/// dependencies add, the executable in the directory of the profile, and the
/// user's linker flags that are passed on.
pub open spec fn executable_arguments(
    config: Config,
    cwd: Seq<char>,
    platform: Platform,
    o_files: Seq<Seq<char>>,
    existing: Seq<Seq<char>>,
) -> Seq<Seq<char>> {
    o_files + dependency_arguments(config, platform, existing) + seq![
        "-o"@,
        joined_path(
            cwd,
            joined_path(
                profile_dir(output_profile(config.args.command)),
                executable_name(config.forge.build.output@, platform),
            ),
        ),
    ] + user_flags(config.forge.build.ldflags, true)
}

/// The arguments of the archiver: the mode, the archive, and the objects in
/// normal form.
pub open spec fn archive_arguments(config: Config, o_files: Seq<Seq<char>>) -> Seq<Seq<char>> {
    seq!["rcs"@, "forge/libs/out/"@ + lib_name(config.forge.build.output@)] + o_files.map_values(
        |f: Seq<char>| normalized(f),
    )
}

/// The arguments of the linker for the shared library: the mode, the flag
/// for position-independent code on Linux, the library, the objects, and on
/// Windows the request for the import library.
pub open spec fn shared_arguments(
    config: Config,
    platform: Platform,
    o_files: Seq<Seq<char>>,
) -> Seq<Seq<char>> {
    seq!["-shared"@] + (if platform == Platform::Linux {
        seq!["-fPIC"@]
    } else {
        Seq::empty()
    }) + seq![
        "-o"@,
        "forge/libs/out/"@ + shared_lib_name(config.forge.build.output@, platform),
    ] + o_files + (if platform == Platform::Windows {
        seq![
            "-Wl,--out-implib,forge/libs/out/lib"@ + config.forge.build.output@ + ".dll.a"@,
        ]
    } else {
        Seq::empty()
    })
}

/// Whether `plan` is the plan of the link phase of `config`. Every declared
/// target kind is a step, in the order of the project file, up to the first
/// name that stands for no target kind; that name is the failure the plan
/// ends with. A toolchain without a linker has no steps and fails at once.
pub open spec fn is_link_plan(config: Config, plan: LinkPlan) -> bool {
    if config.compiler == CompilerKind::MSVC {
        plan.steps@.len() == 0 && (plan.error matches Some(e) && e.is(
            ErrorKind::UnsupportedToolchain,
            "MSVC is not supported yet"@,
        ))
    } else {
        let targets = texts(config.forge.project.targets@);
        &&& plan.steps@ == link_steps(targets)
        &&& first_unknown(targets) == targets.len() ==> plan.error is None
        &&& first_unknown(targets) < targets.len() ==> (plan.error matches Some(e) && e.is(
            ErrorKind::Link,
            unknown_target(targets[first_unknown(targets)]),
        ))
    }
}

/// `first_unknown` finds an unknown name, and every name before it is
/// known.
pub proof fn lemma_first_unknown(targets: Seq<Seq<char>>)
    ensures
        0 <= first_unknown(targets) <= targets.len(),
        first_unknown(targets) < targets.len() ==> named_target(
            targets[first_unknown(targets)],
        ) is None,
        forall|i: int| 0 <= i < first_unknown(targets) ==> named_target(#[trigger] targets[i]) is Some,
    decreases targets.len(),
{
    if targets.len() > 0 && named_target(targets[0]) is Some {
        let rest = targets.drop_first();
        lemma_first_unknown(rest);
        let at = first_unknown(rest);
        assert forall|i: int| 0 <= i < at + 1 implies named_target(#[trigger] targets[i]) is Some by {
            if i > 0 {
                assert(rest[i - 1] == targets[i]);
            }
        }
        if at < rest.len() {
            assert(rest[at] == targets[at + 1]);
        }
    }
}

/// The target kind that `name` stands for, if any.
pub fn parse_target(name: &str) -> (kind: Option<TargetKind>)
    ensures
        kind == named_target(name@),
{
    if str_eq(name, "bin") {
        Some(TargetKind::Binary)
    } else if str_eq(name, "static") {
        Some(TargetKind::StaticLibrary)
    } else if str_eq(name, "shared") {
        Some(TargetKind::SharedLibrary)
    } else {
        None
    }
}

/// The directory, relative to the project, whose objects a target kind is
/// linked from.
pub fn link_objects_dir(config: &Config, kind: TargetKind) -> (dir: String)
    ensures
        dir@ == link_dir(kind, output_profile(config.args.command)),
{
    match kind {
        TargetKind::SharedLibrary => String::from_str("forge/libs/obj"),
        _ => find_o_files_dir(config),
    }
}

/// Plans the link phase: every declared target kind is linked, in the order
/// of the project file, and each on its own, so that one failing step does
/// not keep the next from being tried. A name that stands for no target kind
/// ends the phase with a failure, after the steps before it. A toolchain
/// without a linker fails the phase at once.
pub fn link(config: &Config) -> (plan: LinkPlan)
    ensures
        is_link_plan(*config, plan),
{
    let mut steps: Vec<TargetKind> = Vec::new();
    if config.compiler == CompilerKind::MSVC {
        return LinkPlan {
            steps,
            error: Some(
                BuildError::new(
                    ErrorKind::UnsupportedToolchain,
                    String::from_str("MSVC is not supported yet"),
                ),
            ),
        };
    }
    let targets = &config.forge.project.targets;
    let ghost names = texts(targets@);
    let ghost kind_of = |t: Seq<char>| named_target(t).unwrap();
    proof {
        lemma_first_unknown(names);
    }
    let mut i: usize = 0;
    assert(steps@ =~= names.take(0).map_values(kind_of));
    while i < targets.len()
        invariant
            i <= targets.len(),
            config.compiler != CompilerKind::MSVC,
            *targets == config.forge.project.targets,
            names == texts(targets@),
            kind_of == |t: Seq<char>| named_target(t).unwrap(),
            i <= first_unknown(names) <= names.len(),
            steps@ == names.take(i as int).map_values(kind_of),
        decreases targets.len() - i,
    {
        let target = targets[i].as_str();
        proof {
            lemma_first_unknown(names);
            assert(names[i as int] == target@);
        }
        match parse_target(target) {
            Some(kind) => {
                assert(i < first_unknown(names));
                steps.push(kind);
                i += 1;
                assert(steps@ =~= names.take(i as int).map_values(kind_of));
            },
            None => {
                assert(first_unknown(names) == i);
                let message = concat3("Unknown target: ", target, " None of [bin, static, shared]");
                return LinkPlan {
                    steps,
                    error: Some(BuildError::new(ErrorKind::Link, message)),
                };
            },
        }
    }
    LinkPlan { steps, error: None }
}

/// The plan of the link phase that follows a compile phase. A compile phase
/// that failed is followed by no link step at all: its failure is handed on
/// in place of a plan.
pub fn link_after_compile(compiled: &Result<(), BuildError>, config: &Config) -> (plan: Result<
    LinkPlan,
    BuildError,
>)
    ensures
        match *compiled {
            Err(e) => plan matches Err(handed) && handed.same_as(e),
            Ok(_) => plan matches Ok(p) && is_link_plan(*config, p),
        },
{
    match compiled {
        Err(e) => Err(e.duplicate()),
        Ok(_) => Ok(link(config)),
    }
}

/// What the link phase came to, from what each step of its plan came to: the
/// first failure of a step, where one failed; else the failure that the plan
/// itself ends with, where it has one. Every step was tried before this is
/// asked.
pub fn link_outcome(plan: &LinkPlan, results: &Vec<Result<(), BuildError>>) -> (done: Result<
    (),
    BuildError,
>)
    requires
        results@.len() == plan.steps@.len(),
    ensures
        match done {
            Err(e) => is_first_failure(results@, Some(e)) || (is_first_failure(results@, None)
                && (plan.error matches Some(last) && e.same_as(last))),
            Ok(_) => is_first_failure(results@, None) && plan.error is None,
        },
{
    match first_failure(results) {
        Some(e) => Err(e),
        None => match &plan.error {
            Some(last) => Err(last.duplicate()),
            None => Ok(()),
        },
    }
}

/// The failure of a link step whose toolchain has no linker.
fn no_linker() -> (e: BuildError)
    ensures
        e.is(
            ErrorKind::UnsupportedToolchain,
            "Failed to get compiler command: Compiler not supported: msvc"@,
        ),
{
    BuildError::new(
        ErrorKind::UnsupportedToolchain,
        String::from_str("Failed to get compiler command: Compiler not supported: msvc"),
    )
}

/// The command that links the shared library from the objects `o_files`.
pub fn link_shared_library(cfg: &Config, platform: Platform, o_files: &Vec<String>) -> (cmd: Result<
    CommandLine,
    BuildError,
>)
    ensures
        match compiler_program(cfg.compiler) {
            Some(program) => cmd matches Ok(c) && c.program@ == program && texts(c.args@)
                == shared_arguments(*cfg, platform, texts(o_files@)),
            None => cmd matches Err(e) && e.is(
                ErrorKind::UnsupportedToolchain,
                "Failed to get compiler command: Compiler not supported: msvc"@,
            ),
        },
{
    let mut formatted_name = cfg.forge.build.output.clone();
    format_shared_lib_name(&mut formatted_name, platform);
    let out = concat2("forge/libs/out/", formatted_name.as_str());
    let mut cmd = match get_compiler_cmd(cfg) {
        Ok(cmd) => cmd,
        Err(_) => {
            return Err(no_linker());
        },
    };
    assert(texts(cmd.args@) =~= Seq::<Seq<char>>::empty());
    cmd.arg("-shared");
    if platform == Platform::Linux {
        cmd.arg("-fPIC");
    }
    cmd.arg("-o");
    cmd.arg_string(out);
    cmd.args_from(o_files);
    if platform == Platform::Windows {
        cmd.arg_string(
            concat3("-Wl,--out-implib,forge/libs/out/lib", cfg.forge.build.output.as_str(), ".dll.a"),
        );
    }
    assert(texts(cmd.args@) =~= shared_arguments(*cfg, platform, texts(o_files@)));
    Ok(cmd)
}

/// The command that bundles the objects `o_files` into the static library.
pub fn archive_static_library(cfg: &Config, o_files: &Vec<String>) -> (cmd: CommandLine)
    ensures
        cmd.program@ == "ar"@,
        texts(cmd.args@) == archive_arguments(*cfg, texts(o_files@)),
{
    let mut name = cfg.forge.build.output.clone();
    format_lib_name(&mut name);
    let archive = concat2("forge/libs/out/", name.as_str());
    let mut cmd = CommandLine::new("ar");
    assert(texts(cmd.args@) =~= Seq::<Seq<char>>::empty());
    cmd.arg("rcs");
    cmd.arg_string(archive);
    let ghost head = seq!["rcs"@, "forge/libs/out/"@ + lib_name(cfg.forge.build.output@)];
    let ghost normal = |f: Seq<char>| normalized(f);
    let ghost all = texts(o_files@);
    let mut i: usize = 0;
    assert(texts(cmd.args@) =~= head + all.take(0).map_values(normal));
    while i < o_files.len()
        invariant
            i <= o_files.len(),
            normal == |f: Seq<char>| normalized(f),
            all == texts(o_files@),
            cmd.program@ == "ar"@,
            texts(cmd.args@) == head + all.take(i as int).map_values(normal),
        decreases o_files.len() - i,
    {
        cmd.arg_string(normalize_path(o_files[i].as_str()));
        i += 1;
        assert(texts(cmd.args@) =~= head + all.take(i as int).map_values(normal));
    }
    assert(all.take(o_files.len() as int) =~= all);
    cmd
}

/// The command that links the executable of a project at `cwd` from the
/// objects `o_files`. `existing` lists the shared objects found in the
/// library directories of the project; they decide the run paths.
pub fn link_executable(
    config: &Config,
    cwd: &str,
    platform: Platform,
    o_files: &Vec<String>,
    existing: &Vec<String>,
) -> (cmd: Result<CommandLine, BuildError>)
    ensures
        match compiler_program(config.compiler) {
            Some(program) => cmd matches Ok(c) && c.program@ == program && texts(c.args@)
                == executable_arguments(*config, cwd@, platform, texts(o_files@), texts(existing@)),
            None => cmd matches Err(e) && e.is(
                ErrorKind::UnsupportedToolchain,
                "Failed to get compiler command: Compiler not supported: msvc"@,
            ),
        },
{
    let target_executable = if platform == Platform::Windows {
        concat2(config.forge.build.output.as_str(), ".exe")
    } else {
        config.forge.build.output.clone()
    };
    let o_path = find_o_files_dir(config);
    let relative = join_path(o_path.as_str(), target_executable.as_str());
    let target_path = join_path(cwd, relative.as_str());
    let mut cmd = match get_compiler_cmd(config) {
        Ok(cmd) => cmd,
        Err(_) => {
            return Err(no_linker());
        },
    };
    assert(texts(cmd.args@) =~= Seq::<Seq<char>>::empty());
    cmd.args_from(o_files);
    match &config.forge.dependencies {
        Some(dependencies) => {
            cmd.args_prefixed("-L", &dependencies.library_paths);
            if platform != Platform::Windows {
                let r_paths = find_r_paths(config, existing);
                cmd.args_prefixed("-Wl,-rpath=", &r_paths);
            }
            cmd.args_prefixed("-l", &dependencies.libraries);
            cmd.args_prefixed("-l", &dependencies.posix_libraries);
        },
        None => {},
    }
    assert(texts(cmd.args@) =~= texts(o_files@) + dependency_arguments(
        *config,
        platform,
        texts(existing@),
    ));
    cmd.arg("-o");
    cmd.arg_string(target_path);
    add_user_flags(&mut cmd, &config.forge.build.ldflags, true);
    assert(texts(cmd.args@) =~= executable_arguments(
        *config,
        cwd@,
        platform,
        texts(o_files@),
        texts(existing@),
    ));
    Ok(cmd)
}

/// What a link step came to, from how the archiver or linker ended.
pub fn link_result(success: bool, stderr: &str) -> (done: Result<(), BuildError>)
    ensures
        success ==> done is Ok,
        !success ==> (done matches Err(e) && e.is(
            ErrorKind::Link,
            "Hammer to rusty, linker failed: "@ + stderr@,
        )),
{
    if success {
        Ok(())
    } else {
        Err(BuildError::new(ErrorKind::Link, concat2("Hammer to rusty, linker failed: ", stderr)))
    }
}

/// The stem of a file name holds no slash at its start and is not empty.
proof fn lemma_stem_is_plain(source: Seq<char>)
    requires
        file_stem_of(source) is Some,
    ensures
        file_stem_of(source).unwrap().len() > 0,
        file_stem_of(source).unwrap()[0] != '/',
{
    let named = without_back(source);
    let name = file_name_of(source);
    lemma_back_trim(source);
    lemma_last_index_of(named, '/');
    lemma_last_index_of(name, '.');
    let slash = last_index_of(named, '/');
    assert(name[0] == named[slash + 1]);
}

/// The objects of the shared library and the objects of the executable and
/// the static library never meet. An object that was compiled for the one
/// side is none of the files that a listing of the other side's directory
/// reports, whatever the source, the profiles and the entry are.
pub proof fn lemma_target_isolation(
    cwd: Seq<char>,
    source: Seq<char>,
    compiled_profile: BuildProfile,
    compiled_shared: bool,
    linked: TargetKind,
    linked_profile: BuildProfile,
    entry: DirEntry,
)
    requires
        is_absolute(cwd),
        !cwd.contains('\\'),
        file_stem_of(source) is Some,
        is_object_entry(entry),
        compiled_shared != (linked == TargetKind::SharedLibrary),
    ensures
        object_path(cwd, file_stem_of(source).unwrap(), compiled_profile, compiled_shared)
            != listed_path(cwd, link_dir(linked, linked_profile), entry.name@),
{
    reveal_strlit("forge/libs/obj");
    reveal_strlit("forge/debug");
    reveal_strlit("forge/release");
    reveal_strlit(".o");
    reveal_strlit("./");
    reveal_strlit("\\\\?\\");
    let stem = file_stem_of(source).unwrap();
    lemma_stem_is_plain(source);
    let compiled_dir = object_dir(compiled_profile, compiled_shared);
    let linked_dir = link_dir(linked, linked_profile);
    let sep: Seq<char> = if cwd.last() == '/' {
        Seq::empty()
    } else {
        seq!['/']
    };
    let at: int = (cwd.len() + sep.len() + 6) as int;
    let compiled_base = joined_path(cwd, compiled_dir);
    let linked_base = joined_path(cwd, linked_dir);
    assert(compiled_base =~= cwd + sep + compiled_dir);
    assert(linked_base =~= cwd + sep + linked_dir);
    let object = object_path(cwd, stem, compiled_profile, compiled_shared);
    assert((stem + ".o"@)[0] == stem[0]);
    assert(object =~= compiled_base + seq!['/'] + (stem + ".o"@));
    assert(object[at] == compiled_dir[6]);
    let name = entry.name@;
    assert(!is_absolute(name)) by {
        if name.len() > 0 && name[0] == '/' {
            assert(name.contains('/'));
        }
    }
    let raw = joined_path(linked_base, name);
    assert(raw =~= linked_base + seq!['/'] + name);
    assert(raw[0] == cwd[0]);
    assert(without_cur_dir(raw) == raw) by {
        if "./"@.is_prefix_of(raw) {
            assert("./"@[0] == raw.subrange(0, 2)[0]);
        }
    }
    assert(without_verbatim(raw) == raw) by {
        if "\\\\?\\"@.is_prefix_of(raw) {
            assert("\\\\?\\"@[0] == raw.subrange(0, 4)[0]);
        }
    }
    let listed = listed_path(cwd, linked_dir, name);
    assert(listed == forward_slashes(raw));
    assert(raw[at] == linked_dir[6]);
    assert(listed[at] == linked_dir[6]);
    assert(compiled_dir[6] != linked_dir[6]);
}

} // verus!
