//! The project description and the choice of toolchain.

use vstd::prelude::*;
use crate::arguments::{BuildOptions, Command, ForgeArgs};
use crate::error::{BuildError, ErrorKind};
use crate::text::{opt_text, str_eq};
use crate::utils::check_compiler;

verus! {

/// Everything one invocation works from. It does not change while the
/// invocation runs.
#[derive(Debug, Clone)]
pub struct Config {
    pub forge: Forge,
    pub args: ForgeArgs,
    pub compiler: CompilerKind,
}

/// The toolchains the project file can name.
#[derive(Debug, Copy, Clone, PartialEq, Eq, Structural)]
pub enum CompilerKind {
    GCC,
    Clang,
    MSVC,
}

/// The optimisation and debug configuration of a build.
#[derive(Debug, Copy, Clone, PartialEq, Eq, Structural)]
pub enum BuildProfile {
    Debug,
    Release,
}

/// The kinds of artifact a project can declare.
#[derive(Debug, Copy, Clone, PartialEq, Eq, Structural)]
pub enum TargetKind {
    Binary,
    StaticLibrary,
    SharedLibrary,
}

/// The operating systems whose naming conventions differ.
#[derive(Debug, Copy, Clone, PartialEq, Eq, Structural)]
pub enum Platform {
    Linux,
    MacOs,
    Windows,
}

/// Which toolchains answer on this machine.
#[derive(Debug, Copy, Clone, PartialEq, Eq, Structural)]
pub struct Toolchains {
    pub gcc: bool,
    pub clang: bool,
}

/// The project file.
#[derive(Debug, Clone, PartialEq)]
pub struct Forge {
    pub project: Project,
    pub build: Build,
    pub dependencies: Option<Dependencies>,
}

#[derive(Debug, Clone, PartialEq)]
pub struct Project {
    pub name: String,
    /// Target kinds by name: `bin`, `static`, `shared`.
    pub targets: Vec<String>,
}

#[derive(Debug, Clone, PartialEq)]
pub struct Build {
    pub compiler: Option<String>,
    /// The source files, in declaration order.
    pub src: Vec<String>,
    pub include_dirs: Vec<String>,
    /// The name the artifacts are derived from.
    pub output: String,
    pub cflags: Option<Vec<String>>,
    pub ldflags: Option<Vec<String>>,
}

/// The external libraries a project links against.
#[derive(Debug, Clone, PartialEq)]
pub struct Dependencies {
    pub libraries: Vec<String>,
    pub library_paths: Vec<String>,
    pub include_dirs: Vec<String>,
    pub posix_libraries: Vec<String>,
}

/// The name a toolchain is shown under.
pub open spec fn compiler_name(kind: CompilerKind) -> Seq<char> {
    match kind {
        CompilerKind::GCC => "gcc"@,
        CompilerKind::Clang => "clang"@,
        CompilerKind::MSVC => "msvc"@,
    }
}

/// The toolchain a name in the project file or on the command line selects,
/// if it selects one. The third toolchain is selected by the spelling `mscv`.
pub open spec fn named_compiler(name: Seq<char>) -> Option<CompilerKind> {
    if name == "gcc"@ {
        Some(CompilerKind::GCC)
    } else if name == "clang"@ {
        Some(CompilerKind::Clang)
    } else if name == "mscv"@ {
        Some(CompilerKind::MSVC)
    } else {
        None
    }
}

/// The toolchain a name selects, with gcc standing in for an unknown name.
pub open spec fn compiler_kind_of(name: Seq<char>) -> CompilerKind {
    match named_compiler(name) {
        Some(kind) => kind,
        None => CompilerKind::GCC,
    }
}

/// The compiler named on the command line: only build, rebuild and run
/// carry one.
pub open spec fn requested_compiler(command: Command) -> Option<Seq<char>> {
    match command {
        Command::Run(o) => opt_text(o.compiler),
        Command::Build(o) => opt_text(o.compiler),
        Command::Rebuild(o) => opt_text(o.compiler),
        _ => None,
    }
}

/// The toolchain an invocation asks for: the command line wins over the
/// project file, and gcc is the default.
pub open spec fn chosen_compiler(forge: Forge, args: ForgeArgs) -> CompilerKind {
    match requested_compiler(args.command) {
        Some(name) => compiler_kind_of(name),
        None => match forge.build.compiler {
            Some(name) => compiler_kind_of(name@),
            None => CompilerKind::GCC,
        },
    }
}

/// The compiler name that decides the toolchain of an invocation: the one on
/// the command line, else the one in the project file.
pub open spec fn compiler_choice(forge: Forge, args: ForgeArgs) -> Option<Seq<char>> {
    match requested_compiler(args.command) {
        Some(name) => Some(name),
        None => opt_text(forge.build.compiler),
    }
}

/// Whether a toolchain can be used on a machine where `found` answer. No
/// machine offers the third toolchain.
pub open spec fn available(kind: CompilerKind, found: Toolchains) -> bool {
    match kind {
        CompilerKind::GCC => found.gcc,
        CompilerKind::Clang => found.clang,
        CompilerKind::MSVC => false,
    }
}

/// The toolchain that is used when `kind` was asked for: `kind` itself where
/// it is available, else gcc where that is, else none.
pub open spec fn usable_compiler(kind: CompilerKind, found: Toolchains) -> Option<CompilerKind> {
    if available(kind, found) {
        Some(kind)
    } else if found.gcc {
        Some(CompilerKind::GCC)
    } else {
        None
    }
}

/// Whether a command rebuilds every unit whatever the cache says: an explicit
/// rebuild, or a run that cleans first.
pub open spec fn forces_rebuild(command: Command) -> bool {
    match command {
        Command::Rebuild(_) => true,
        Command::Run(o) => o.clean,
        _ => false,
    }
}

/// The profile a command builds with; commands that build nothing have none.
pub open spec fn profile_of(command: Command) -> Option<BuildProfile> {
    match command {
        Command::Run(o) => Some(if o.debug { BuildProfile::Debug } else { BuildProfile::Release }),
        Command::Build(o) => Some(if o.debug { BuildProfile::Debug } else { BuildProfile::Release }),
        Command::Rebuild(o) => Some(
            if o.debug {
                BuildProfile::Debug
            } else {
                BuildProfile::Release
            },
        ),
        _ => None,
    }
}

/// The profile whose directory holds the objects and the executable: the
/// command's own, and release for a command without one.
pub open spec fn output_profile(command: Command) -> BuildProfile {
    match profile_of(command) {
        Some(profile) => profile,
        None => BuildProfile::Release,
    }
}

impl CompilerKind {
    /// The name this toolchain is shown under.
    pub fn to_string(&self) -> (name: String)
        ensures
            name@ == compiler_name(*self),
    {
        match self {
            CompilerKind::GCC => String::from_str("gcc"),
            CompilerKind::Clang => String::from_str("clang"),
            CompilerKind::MSVC => String::from_str("msvc"),
        }
    }
}

impl Command {
    /// Whether this command rebuilds every unit.
    pub fn forces_rebuild(&self) -> (force: bool)
        ensures
            force == forces_rebuild(*self),
    {
        match self {
            Command::Rebuild(_) => true,
            Command::Run(o) => o.clean,
            _ => false,
        }
    }

    /// The profile this command builds with.
    pub fn profile(&self) -> (profile: Option<BuildProfile>)
        ensures
            profile == profile_of(*self),
    {
        match self {
            Command::Run(o) => Some(
                if o.debug {
                    BuildProfile::Debug
                } else {
                    BuildProfile::Release
                },
            ),
            Command::Build(o) => Some(
                if o.debug {
                    BuildProfile::Debug
                } else {
                    BuildProfile::Release
                },
            ),
            Command::Rebuild(o) => Some(
                if o.debug {
                    BuildProfile::Debug
                } else {
                    BuildProfile::Release
                },
            ),
            _ => None,
        }
    }

    /// The profile whose directory holds what this command produces.
    pub fn output_profile(&self) -> (profile: BuildProfile)
        ensures
            profile == output_profile(*self),
    {
        match self.profile() {
            Some(profile) => profile,
            None => BuildProfile::Release,
        }
    }
}

/// The toolchain that `name` selects, if any.
pub fn parse_compiler_kind(name: &str) -> (kind: Option<CompilerKind>)
    ensures
        kind == named_compiler(name@),
{
    if str_eq(name, "gcc") {
        Some(CompilerKind::GCC)
    } else if str_eq(name, "clang") {
        Some(CompilerKind::Clang)
    } else if str_eq(name, "mscv") {
        Some(CompilerKind::MSVC)
    } else {
        None
    }
}

/// The toolchain that `name` selects; an unknown name falls back to gcc.
pub fn match_compiler_kind(name: &String) -> (kind: CompilerKind)
    ensures
        kind == compiler_kind_of(name@),
{
    match parse_compiler_kind(name.as_str()) {
        Some(kind) => kind,
        None => CompilerKind::GCC,
    }
}

/// The toolchain an invocation asks for.
pub fn determine_compiler_kind(forge: &Forge, args: &ForgeArgs) -> (kind: CompilerKind)
    ensures
        kind == chosen_compiler(*forge, *args),
{
    let requested: &Option<String> = match &args.command {
        Command::Run(opt) => &opt.compiler,
        Command::Build(opt) => &opt.compiler,
        Command::Rebuild(opt) => &opt.compiler,
        _ => &None,
    };
    match requested {
        Some(name) => match_compiler_kind(name),
        None => match &forge.build.compiler {
            Some(name) => match_compiler_kind(name),
            None => CompilerKind::GCC,
        },
    }
}

/// The compiler name that an invocation asks for without the library
/// knowing it, so that gcc stands in for it; the user is to be told.
pub fn unknown_compiler(forge: &Forge, args: &ForgeArgs) -> (name: Option<String>)
    ensures
        match compiler_choice(*forge, *args) {
            Some(choice) => if named_compiler(choice) is None {
                opt_text(name) == Some(choice)
            } else {
                name is None
            },
            None => name is None,
        },
{
    let requested: &Option<String> = match &args.command {
        Command::Run(opt) => &opt.compiler,
        Command::Build(opt) => &opt.compiler,
        Command::Rebuild(opt) => &opt.compiler,
        _ => &None,
    };
    let choice: &Option<String> = match requested {
        Some(_) => requested,
        None => &forge.build.compiler,
    };
    match choice {
        Some(name) => {
            if parse_compiler_kind(name.as_str()).is_none() {
                Some(name.clone())
            } else {
                None
            }
        },
        None => None,
    }
}

impl Config {
    /// Puts an invocation together from the command line and the project
    /// file, and settles the toolchain: the one asked for where it is
    /// available, else gcc, else the invocation cannot go on.
    pub fn read(args: ForgeArgs, forge: Forge, found: Toolchains) -> (config: Result<
        Config,
        BuildError,
    >)
        ensures
            match usable_compiler(chosen_compiler(forge, args), found) {
                Some(kind) => config matches Ok(c) && c.forge == forge && c.args == args
                    && c.compiler == kind,
                None => config matches Err(e) && e.is(
                    ErrorKind::UnsupportedToolchain,
                    "Fallback compiler not found!"@,
                ),
            },
    {
        let kind = determine_compiler_kind(&forge, &args);
        let mut config = Config { forge, args, compiler: kind };
        if check_compiler(&mut config, found) {
            Ok(config)
        } else {
            Err(
                BuildError::new(
                    ErrorKind::UnsupportedToolchain,
                    String::from_str("Fallback compiler not found!"),
                ),
            )
        }
    }
}

/// A small debug or release configuration of a project named `dummy`, for
/// trying the library out: gcc, a rebuild, one `bin` target, no sources.
pub fn dummy_config(debug: bool) -> (config: Config)
    ensures
        config.compiler == CompilerKind::GCC,
        !config.args.verbose && !config.args.verbose_hard,
        config.args.command == Command::Rebuild(
            BuildOptions { debug, release: !debug, compiler: None },
        ),
        opt_text(config.forge.build.compiler) == Some("gcc"@),
        config.forge.build.output@ == "dummy"@,
        config.forge.build.cflags is None,
        config.forge.build.ldflags is None,
        config.forge.build.src@.len() == 0,
        config.forge.build.include_dirs@.len() == 0,
        config.forge.project.name@ == "dummy"@,
        config.forge.project.targets@.len() == 1,
        config.forge.project.targets@[0]@ == "bin"@,
        config.forge.dependencies is None,
{
    let mut targets: Vec<String> = Vec::new();
    targets.push(String::from_str("bin"));
    Config {
        compiler: CompilerKind::GCC,
        args: ForgeArgs {
            verbose: false,
            verbose_hard: false,
            command: Command::Rebuild(BuildOptions { debug, compiler: None, release: !debug }),
        },
        forge: Forge {
            build: Build {
                compiler: Some(String::from_str("gcc")),
                output: String::from_str("dummy"),
                cflags: None,
                ldflags: None,
                src: Vec::new(),
                include_dirs: Vec::new(),
            },
            project: Project { name: String::from_str("dummy"), targets },
            dependencies: None,
        },
    }
}

} // verus!
