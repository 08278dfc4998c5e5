//! The command given on the command line, as plain data, and its defaults.

use vstd::prelude::*;

verus! {

/// What the user asked for: the verbosity switches and one subcommand.
#[derive(Debug, Clone)]
pub struct ForgeArgs {
    /// Show each external command with paths relative to the project.
    pub verbose: bool,
    /// Show each external command with raw paths.
    pub verbose_hard: bool,
    pub command: Command,
}

/// The subcommands.
#[derive(Debug, PartialEq, Clone)]
pub enum Command {
    /// Compile and link the project.
    Build(BuildOptions),
    /// Remove build artifacts.
    Clean(CleanOptions),
    /// Build, then run the executable.
    Run(RunOptions),
    /// Build everything again, whatever the cache says.
    Rebuild(BuildOptions),
    /// Set up a new project.
    Init(InitOptions),
    /// Look for sources and include directories.
    Discover(DiscoverOptions),
}

#[derive(Debug, PartialEq, Clone)]
pub struct DiscoverOptions {
    /// Accept every file that is found without asking.
    pub auto: bool,
    /// Glob patterns of files to leave out.
    pub ignore: Vec<String>,
}

#[derive(Debug, PartialEq, Clone)]
pub struct RunOptions {
    pub debug: bool,
    pub release: bool,
    /// Clean before running, which forces a full rebuild.
    pub clean: bool,
    pub compiler: Option<String>,
    /// Arguments handed to the program that is run.
    pub args: Vec<String>,
}

#[derive(Debug, PartialEq, Clone)]
pub struct BuildOptions {
    pub debug: bool,
    pub release: bool,
    pub compiler: Option<String>,
}

#[derive(Debug, PartialEq, Clone)]
pub struct InitOptions {
    pub compiler: Option<String>,
}

#[derive(Debug, PartialEq, Clone)]
pub struct CleanOptions {
    pub debug: bool,
    pub release: bool,
    pub libs: bool,
}

/// Build options with the debug profile chosen where none was.
pub open spec fn build_defaults(o: BuildOptions) -> BuildOptions {
    if !o.debug && !o.release {
        BuildOptions { debug: true, release: o.release, compiler: o.compiler }
    } else {
        o
    }
}

/// Run options with the debug profile chosen where none was.
pub open spec fn run_defaults(o: RunOptions) -> RunOptions {
    if !o.debug && !o.release {
        RunOptions {
            debug: true,
            release: o.release,
            clean: o.clean,
            compiler: o.compiler,
            args: o.args,
        }
    } else {
        o
    }
}

/// Clean options that select everything where nothing was selected.
pub open spec fn clean_defaults(o: CleanOptions) -> CleanOptions {
    if !o.debug && !o.release && !o.libs {
        CleanOptions { debug: true, release: true, libs: true }
    } else {
        o
    }
}

/// The compiler that `init` falls back to.
pub open spec fn default_compiler_name() -> Seq<char> {
    "gcc"@
}

/// Whether `after` is `before` with its defaults filled in: build, rebuild
/// and run fall back to the debug profile, clean to cleaning everything,
/// init to the default compiler; discover has no defaults.
pub open spec fn defaults_applied(before: Command, after: Command) -> bool {
    match before {
        Command::Build(o) => after == Command::Build(build_defaults(o)),
        Command::Rebuild(o) => after == Command::Rebuild(build_defaults(o)),
        Command::Run(o) => after == Command::Run(run_defaults(o)),
        Command::Clean(o) => after == Command::Clean(clean_defaults(o)),
        Command::Init(o) => match o.compiler {
            Some(_) => after == before,
            None => after matches Command::Init(n) && n.compiler matches Some(name) && name@
                == default_compiler_name(),
        },
        Command::Discover(_) => after == before,
    }
}

/// Fills in what the user left out of a command.
pub fn set_command_defaults(cmd: &mut Command)
    ensures
        defaults_applied(*old(cmd), *final(cmd)),
{
    match cmd {
        Command::Build(opts) => {
            if !opts.debug && !opts.release {
                opts.debug = true;
            }
        },
        Command::Clean(opts) => {
            if !opts.debug && !opts.release && !opts.libs {
                opts.debug = true;
                opts.release = true;
                opts.libs = true;
            }
        },
        Command::Run(opts) => {
            if !opts.debug && !opts.release {
                opts.debug = true;
            }
        },
        Command::Rebuild(opts) => {
            if !opts.debug && !opts.release {
                opts.debug = true;
            }
        },
        Command::Init(opts) => {
            if opts.compiler.is_none() {
                opts.compiler = Some(String::from_str("gcc"));
            }
        },
        Command::Discover(_) => {},
    }
}

} // verus!
