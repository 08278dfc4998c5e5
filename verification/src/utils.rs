//! Flags, names and small decisions shared by the compile and link steps.

use vstd::prelude::*;
use crate::arguments::{BuildOptions, CleanOptions, Command};
use crate::config::{
    profile_of, usable_compiler, BuildProfile, CompilerKind, Config, Platform, Toolchains,
};
use crate::fs_utils::{after_components, is_absolute, strip_components, trim_back, without_back};
use crate::text::{
    chars_of, chars_start_with, concat2, concat3, same_chars, string_of_range, texts,
};

verus! {

/// An external command: the program and its arguments, in order.
#[derive(Debug, Clone, PartialEq)]
pub struct CommandLine {
    pub program: String,
    pub args: Vec<String>,
}

impl CommandLine {
    /// The command that runs `program` without arguments.
    pub fn new(program: &str) -> (cmd: CommandLine)
        ensures
            cmd.program@ == program@,
            cmd.args@.len() == 0,
    {
        CommandLine { program: String::from_str(program), args: Vec::new() }
    }

    /// Adds one argument at the end.
    pub fn arg(&mut self, value: &str)
        ensures
            final(self).program == old(self).program,
            texts(final(self).args@) == texts(old(self).args@).push(value@),
    {
        self.args.push(String::from_str(value));
        assert(texts(self.args@) =~= texts(old(self).args@).push(value@));
    }

    /// Adds one argument at the end, taking it over.
    pub fn arg_string(&mut self, value: String)
        ensures
            final(self).program == old(self).program,
            texts(final(self).args@) == texts(old(self).args@).push(value@),
    {
        self.args.push(value);
        assert(texts(self.args@) =~= texts(old(self).args@).push(value@));
    }

    /// Adds each of `values` as an argument, in order.
    pub fn args_from(&mut self, values: &Vec<String>)
        ensures
            final(self).program == old(self).program,
            texts(final(self).args@) == texts(old(self).args@) + texts(values@),
    {
        let mut i: usize = 0;
        assert(texts(self.args@) =~= texts(old(self).args@) + texts(values@).take(0));
        while i < values.len()
            invariant
                i <= values.len(),
                self.program == old(self).program,
                texts(self.args@) == texts(old(self).args@) + texts(values@).take(i as int),
            decreases values.len() - i,
        {
            self.arg(values[i].as_str());
            i += 1;
            assert(texts(self.args@) =~= texts(old(self).args@) + texts(values@).take(i as int));
        }
        assert(texts(values@).take(values.len() as int) =~= texts(values@));
    }

    /// Adds each of `values` as an argument, in order and with `prefix`
    /// before it.
    pub fn args_prefixed(&mut self, prefix: &str, values: &Vec<String>)
        ensures
            final(self).program == old(self).program,
            texts(final(self).args@) == texts(old(self).args@) + prefixed(prefix@, texts(values@)),
    {
        let mut i: usize = 0;
        assert(texts(self.args@) =~= texts(old(self).args@) + prefixed(
            prefix@,
            texts(values@).take(0),
        ));
        while i < values.len()
            invariant
                i <= values.len(),
                self.program == old(self).program,
                texts(self.args@) == texts(old(self).args@) + prefixed(
                    prefix@,
                    texts(values@).take(i as int),
                ),
            decreases values.len() - i,
        {
            self.arg_string(concat2(prefix, values[i].as_str()));
            i += 1;
            assert(texts(self.args@) =~= texts(old(self).args@) + prefixed(
                prefix@,
                texts(values@).take(i as int),
            ));
        }
        assert(texts(values@).take(values.len() as int) =~= texts(values@));
    }
}

/// The flags among `flags` that are passed on: to the linker where `linking`
/// is set, else to the compiler.
pub open spec fn passed_on(flags: Seq<Seq<char>>, linking: bool) -> Seq<Seq<char>> {
    flags.filter(
        |f: Seq<char>|
            if linking {
                valid_ldflag(f)
            } else {
                valid_cflag(f)
            },
    )
}

/// The user's flags that are passed on; a project without flags passes none.
pub open spec fn user_flags(flags: Option<Vec<String>>, linking: bool) -> Seq<Seq<char>> {
    match flags {
        Some(list) => passed_on(texts(list@), linking),
        None => Seq::empty(),
    }
}

/// Each of `values` with `prefix` before it.
pub open spec fn prefixed(prefix: Seq<char>, values: Seq<Seq<char>>) -> Seq<Seq<char>> {
    values.map_values(|v: Seq<char>| prefix + v)
}

/// The flags of a debug build: debug symbols, no optimisation, warnings, and
/// the macro `DEBUG`.
pub open spec fn debug_flags() -> Seq<Seq<char>> {
    seq!["-g"@, "-O0"@, "-Wall"@, "-Wextra"@, "-DDEBUG"@]
}

/// The flags of a release build: high optimisation, warnings, and the macros
/// `RELEASE` and `NDEBUG`.
pub open spec fn release_flags() -> Seq<Seq<char>> {
    seq!["-O3"@, "-Wall"@, "-Wextra"@, "-DRELEASE"@, "-DNDEBUG"@]
}

/// The flags that a profile contributes; no profile, no flags.
pub open spec fn profile_flags(profile: Option<BuildProfile>) -> Seq<Seq<char>> {
    match profile {
        Some(BuildProfile::Debug) => debug_flags(),
        Some(BuildProfile::Release) => release_flags(),
        None => Seq::empty(),
    }
}

/// Whether a flag is one that the profile sets: a user may not set it.
pub open spec fn managed_cflag(flag: Seq<char>) -> bool {
    flag == "-Wall"@ || flag == "-Wextra"@ || flag == "-DDEBUG"@ || flag == "-DNDEBUG"@ || flag
        == "-DRELEASE"@
}

/// Whether a flag is one of the compiler flags accepted as written.
pub open spec fn exact_cflag(flag: Seq<char>) -> bool {
    flag == "-O0"@ || flag == "-O1"@ || flag == "-O2"@ || flag == "-O3"@ || flag == "-Os"@ || flag
        == "-Ofast"@ || flag == "-g"@ || flag == "-ggdb"@ || flag == "-g3"@ || flag == "-Werror"@
        || flag == "-Wpedantic"@ || flag == "-Wshadow"@ || flag == "-Wconversion"@ || flag
        == "-Wformat"@ || flag == "-Wunused"@ || flag == "-Wsign-compare"@ || flag
        == "-Wfloat-equal"@ || flag == "-fPIC"@ || flag == "-pthread"@ || flag == "-pipe"@ || flag
        == "-c"@ || flag == "-S"@
}

/// Whether a flag begins like one of the compiler flags that carry a value.
pub open spec fn valued_cflag(flag: Seq<char>) -> bool {
    "-I"@.is_prefix_of(flag) || "-isystem"@.is_prefix_of(flag) || "-D"@.is_prefix_of(flag)
        || "-std="@.is_prefix_of(flag) || "-fvisibility="@.is_prefix_of(flag)
        || "-march="@.is_prefix_of(flag) || "-mtune="@.is_prefix_of(flag)
}

/// Whether a user's compiler flag is passed on: it is none of the flags the
/// profile sets, and it is a known flag.
pub open spec fn valid_cflag(flag: Seq<char>) -> bool {
    !managed_cflag(flag) && (exact_cflag(flag) || valued_cflag(flag))
}

/// Whether a user's linker flag is passed on: it begins like a known flag.
pub open spec fn valid_ldflag(flag: Seq<char>) -> bool {
    "-L"@.is_prefix_of(flag) || "-l"@.is_prefix_of(flag) || "-shared"@.is_prefix_of(flag)
        || "-static"@.is_prefix_of(flag) || "-pthread"@.is_prefix_of(flag) || "-Wl,"@.is_prefix_of(
        flag,
    ) || "-rdynamic"@.is_prefix_of(flag) || "-pie"@.is_prefix_of(flag) || "-fPIC"@.is_prefix_of(
        flag,
    )
}

/// `arg` as seen from the directory `cwd`. An absolute `arg` that begins
/// with the components of `cwd` is shown without them: from the first
/// component after them to its last one. Any other `arg` stays as it is;
/// so does every `arg` that is no absolute path, such as a flag. Where `cwd`
/// is empty, an absolute `arg` only loses the slashes and `.` components at
/// its end.
pub open spec fn without_cwd(arg: Seq<char>, cwd: Seq<char>) -> Seq<char> {
    if !is_absolute(arg) {
        arg
    } else if cwd.len() == 0 {
        arg.take(1) + without_back(arg.skip(1))
    } else if !is_absolute(cwd) {
        arg
    } else {
        match after_components(arg.skip(1), cwd.skip(1)) {
            Some(rest) => rest,
            None => arg,
        }
    }
}

/// The extension of a shared library.
pub open spec fn shared_lib_extension(platform: Platform) -> Seq<char> {
    match platform {
        Platform::Linux => ".so"@,
        Platform::MacOs => ".dylib"@,
        Platform::Windows => ".dll"@,
    }
}

/// The file name of the static library called `name`.
pub open spec fn lib_name(name: Seq<char>) -> Seq<char> {
    "lib"@ + name + ".a"@
}

/// The file name of the shared library called `name`.
pub open spec fn shared_lib_name(name: Seq<char>, platform: Platform) -> Seq<char> {
    "lib"@ + name + shared_lib_extension(platform)
}

/// Whether `chars` is the text `literal`.
fn is_text(chars: &Vec<char>, literal: &str) -> (same: bool)
    ensures
        same == (chars@ == literal@),
{
    let other = chars_of(literal);
    same_chars(chars, &other)
}

/// Whether `chars` begins with the text `literal`.
fn begins_with(chars: &Vec<char>, literal: &str) -> (found: bool)
    ensures
        found == literal@.is_prefix_of(chars@),
{
    let other = chars_of(literal);
    chars_start_with(chars, &other)
}

/// Settles the toolchain of `cfg` on a machine where `found` answer: the one
/// asked for stays where it is available, gcc replaces it where only gcc is,
/// and `false` comes back, with `cfg` unchanged, where neither is.
pub fn check_compiler(cfg: &mut Config, found: Toolchains) -> (usable: bool)
    ensures
        final(cfg).forge == old(cfg).forge,
        final(cfg).args == old(cfg).args,
        match usable_compiler(old(cfg).compiler, found) {
            Some(kind) => usable && final(cfg).compiler == kind,
            None => !usable && final(cfg).compiler == old(cfg).compiler,
        },
{
    let is_available = match cfg.compiler {
        CompilerKind::GCC => found.gcc,
        CompilerKind::Clang => found.clang,
        CompilerKind::MSVC => false,
    };
    if is_available {
        true
    } else if found.gcc {
        cfg.compiler = CompilerKind::GCC;
        true
    } else {
        false
    }
}

/// What a rebuild cleans first: the artifacts of its own profile, and never
/// the libraries.
pub fn derive_clean_options(build_opt: &BuildOptions) -> (clean: CleanOptions)
    ensures
        clean == (CleanOptions { debug: build_opt.debug, release: build_opt.release, libs: false }),
{
    CleanOptions { debug: build_opt.debug, release: build_opt.release, libs: false }
}

/// Whether a user's compiler flag is passed on to the compiler.
pub fn is_valid_cflag(flag: &str) -> (valid: bool)
    ensures
        valid == valid_cflag(flag@),
{
    let f = chars_of(flag);
    if is_text(&f, "-Wall") || is_text(&f, "-Wextra") || is_text(&f, "-DDEBUG") || is_text(
        &f,
        "-DNDEBUG",
    ) || is_text(&f, "-DRELEASE") {
        return false;
    }
    if is_text(&f, "-O0") || is_text(&f, "-O1") || is_text(&f, "-O2") || is_text(&f, "-O3")
        || is_text(&f, "-Os") || is_text(&f, "-Ofast") || is_text(&f, "-g") || is_text(&f, "-ggdb")
        || is_text(&f, "-g3") || is_text(&f, "-Werror") || is_text(&f, "-Wpedantic") || is_text(
        &f,
        "-Wshadow",
    ) || is_text(&f, "-Wconversion") || is_text(&f, "-Wformat") || is_text(&f, "-Wunused")
        || is_text(&f, "-Wsign-compare") || is_text(&f, "-Wfloat-equal") || is_text(&f, "-fPIC")
        || is_text(&f, "-pthread") || is_text(&f, "-pipe") || is_text(&f, "-c") || is_text(
        &f,
        "-S",
    ) {
        return true;
    }
    begins_with(&f, "-I") || begins_with(&f, "-isystem") || begins_with(&f, "-D") || begins_with(
        &f,
        "-std=",
    ) || begins_with(&f, "-fvisibility=") || begins_with(&f, "-march=") || begins_with(
        &f,
        "-mtune=",
    )
}

/// Whether a user's linker flag is passed on to the linker.
pub fn is_valid_ldflag(flag: &str) -> (valid: bool)
    ensures
        valid == valid_ldflag(flag@),
{
    let f = chars_of(flag);
    begins_with(&f, "-L") || begins_with(&f, "-l") || begins_with(&f, "-shared") || begins_with(
        &f,
        "-static",
    ) || begins_with(&f, "-pthread") || begins_with(&f, "-Wl,") || begins_with(&f, "-rdynamic")
        || begins_with(&f, "-pie") || begins_with(&f, "-fPIC")
}

/// `arg` as seen from the directory `cwd`.
pub fn strip_cwd(arg: &str, cwd: &str) -> (shown: String)
    ensures
        shown@ == without_cwd(arg@, cwd@),
{
    let a = chars_of(arg);
    let c = chars_of(cwd);
    if a.len() == 0 || a[0] != '/' {
        return String::from_str(arg);
    }
    if c.len() == 0 {
        let end = trim_back(&a, 1);
        let shown = string_of_range(&a, 0, end);
        proof {
            assert(a@.subrange(1, a.len() as int) =~= a@.skip(1));
            assert(a@.subrange(0, end as int) =~= a@.take(1) + a@.skip(1).take(end - 1));
        }
        return shown;
    }
    if c[0] != '/' {
        return String::from_str(arg);
    }
    match strip_components(&a, &c) {
        Some((from, to)) => string_of_range(&a, from, to),
        None => String::from_str(arg),
    }
}

/// Adds the flags of a debug build.
pub fn add_debug_cflags(cmd: &mut CommandLine)
    ensures
        final(cmd).program == old(cmd).program,
        texts(final(cmd).args@) == texts(old(cmd).args@) + debug_flags(),
{
    cmd.arg("-g");
    cmd.arg("-O0");
    cmd.arg("-Wall");
    cmd.arg("-Wextra");
    cmd.arg("-DDEBUG");
    assert(texts(cmd.args@) =~= texts(old(cmd).args@) + debug_flags());
}

/// Adds the flags of a release build.
pub fn add_release_cflags(cmd: &mut CommandLine)
    ensures
        final(cmd).program == old(cmd).program,
        texts(final(cmd).args@) == texts(old(cmd).args@) + release_flags(),
{
    cmd.arg("-O3");
    cmd.arg("-Wall");
    cmd.arg("-Wextra");
    cmd.arg("-DRELEASE");
    cmd.arg("-DNDEBUG");
    assert(texts(cmd.args@) =~= texts(old(cmd).args@) + release_flags());
}

/// Adds the flags of the profile that `command` builds with; a command that
/// builds nothing adds none.
pub fn add_build_flags(command: &Command, cmd: &mut CommandLine)
    ensures
        final(cmd).program == old(cmd).program,
        texts(final(cmd).args@) == texts(old(cmd).args@) + profile_flags(profile_of(*command)),
{
    match command.profile() {
        Some(BuildProfile::Debug) => add_debug_cflags(cmd),
        Some(BuildProfile::Release) => add_release_cflags(cmd),
        None => {
            assert(texts(cmd.args@) =~= texts(old(cmd).args@) + Seq::<Seq<char>>::empty());
        },
    }
}

/// Turns the name of a library into the file name of its static archive.
pub fn format_lib_name(name: &mut String)
    ensures
        final(name)@ == lib_name(old(name)@),
{
    let new_name = concat3("lib", name.as_str(), ".a");
    *name = new_name;
}

/// Turns the name of a library into the file name of its shared object.
pub fn format_shared_lib_name(name: &mut String, platform: Platform)
    ensures
        final(name)@ == shared_lib_name(old(name)@, platform),
{
    let new_name = match platform {
        Platform::Linux => concat3("lib", name.as_str(), ".so"),
        Platform::MacOs => concat3("lib", name.as_str(), ".dylib"),
        Platform::Windows => concat3("lib", name.as_str(), ".dll"),
    };
    *name = new_name;
}

/// Adds the user's flags that are passed on, to the linker where `linking`
/// is set, else to the compiler. A flag that is not passed on is dropped.
pub fn add_user_flags(cmd: &mut CommandLine, flags: &Option<Vec<String>>, linking: bool)
    ensures
        final(cmd).program == old(cmd).program,
        texts(final(cmd).args@) == texts(old(cmd).args@) + user_flags(*flags, linking),
{
    match flags {
        Some(list) => {
            let ghost valid = |f: Seq<char>|
                if linking {
                    valid_ldflag(f)
                } else {
                    valid_cflag(f)
                };
            let ghost all = texts(list@);
            let mut i: usize = 0;
            assert(all.take(0).filter(valid) =~= Seq::<Seq<char>>::empty());
            assert(texts(cmd.args@) =~= texts(old(cmd).args@) + all.take(0).filter(valid));
            while i < list.len()
                invariant
                    i <= list.len(),
                    valid == |f: Seq<char>|
                        if linking {
                            valid_ldflag(f)
                        } else {
                            valid_cflag(f)
                        },
                    all == texts(list@),
                    cmd.program == old(cmd).program,
                    texts(cmd.args@) == texts(old(cmd).args@) + all.take(i as int).filter(valid),
                decreases list.len() - i,
            {
                let flag = list[i].as_str();
                proof {
                    assert(all.take(i + 1) =~= all.take(i as int).push(flag@));
                    all.take(i as int).lemma_filter_push(flag@, valid);
                }
                let accepted = if linking {
                    is_valid_ldflag(flag)
                } else {
                    is_valid_cflag(flag)
                };
                if accepted {
                    cmd.arg(flag);
                }
                i += 1;
                assert(texts(cmd.args@) =~= texts(old(cmd).args@) + all.take(i as int).filter(
                    valid,
                ));
            }
            assert(all.take(list.len() as int) =~= all);
        },
        None => {
            assert(texts(cmd.args@) =~= texts(old(cmd).args@) + Seq::<Seq<char>>::empty());
        },
    }
}

} // verus!
