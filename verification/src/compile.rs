//! The build-set resolver and the compile step.
//!
//! The resolver decides which translation units are stale. It works on what
//! was observed of each unit: where its source and object lie, whether the
//! object is there, and the digests of the source and of the headers it
//! includes. The compile step builds the compiler's command line for a
//! stale unit and, once every stale unit compiled, puts the new digests on
//! record.

use vstd::prelude::*;
use crate::config::{forces_rebuild, output_profile, profile_of, CompilerKind, Config};
use crate::error::{first_failure, is_first_failure, BuildError, ErrorKind};
use crate::fs_utils::{
    file_stem_of, find_file, get_equivalent_forge_path, joined_path, normalize_path, normalized,
    object_path, FileError, FileProbe,
};
use crate::hashes::{
    cache_hash, changed, committed, file_changed, lemma_commit_keeps_unique, records,
    unique_paths, HashCache,
};
use crate::text::{concat2, contains_text, texts};
use crate::utils::{
    add_build_flags, add_user_flags, prefixed, profile_flags, user_flags, CommandLine,
};

verus! {

/// A header that a unit includes, as found on disk.
#[derive(Debug, Clone, PartialEq)]
pub struct HeaderFile {
    /// The header's absolute path.
    pub path: String,
    /// The digest of the header's bytes.
    pub digest: String,
}

impl View for HeaderFile {
    type V = (Seq<char>, Seq<char>);

    /// The header as a pair: the path, then the digest.
    open spec fn view(&self) -> (Seq<char>, Seq<char>) {
        (self.path@, self.digest@)
    }
}

/// One translation unit as observed in this invocation.
#[derive(Debug, Clone, PartialEq)]
pub struct CompilationUnit {
    /// The source as the project file names it.
    pub source: String,
    /// The source's absolute path, in normal form.
    pub source_path: String,
    /// The object file the unit compiles to.
    pub object_path: String,
    /// Whether the unit is compiled for the shared library.
    pub shared: bool,
    /// Whether the object file is on disk.
    pub object_exists: bool,
    /// The digest of the source's bytes.
    pub digest: String,
    /// The headers the unit includes.
    pub headers: Vec<HeaderFile>,
}

/// A translation unit, with its strings and lists as values.
pub struct UnitView {
    pub source: Seq<char>,
    pub source_path: Seq<char>,
    pub object_path: Seq<char>,
    pub shared: bool,
    pub object_exists: bool,
    pub digest: Seq<char>,
    pub headers: Seq<(Seq<char>, Seq<char>)>,
}

impl View for CompilationUnit {
    type V = UnitView;

    open spec fn view(&self) -> UnitView {
        UnitView {
            source: self.source@,
            source_path: self.source_path@,
            object_path: self.object_path@,
            shared: self.shared,
            object_exists: self.object_exists,
            digest: self.digest@,
            headers: header_views(self.headers@),
        }
    }
}

/// The views of a list of headers.
pub open spec fn header_views(headers: Seq<HeaderFile>) -> Seq<(Seq<char>, Seq<char>)> {
    headers.map_values(|h: HeaderFile| h@)
}

/// The views of a list of units.
pub open spec fn unit_views(units: Seq<CompilationUnit>) -> Seq<UnitView> {
    units.map_values(|u: CompilationUnit| u@)
}

/// The program that a toolchain's compiler is called by, where the
/// toolchain has one.
pub open spec fn compiler_program(kind: CompilerKind) -> Option<Seq<char>> {
    match kind {
        CompilerKind::GCC => Some("gcc"@),
        CompilerKind::Clang => Some("clang"@),
        CompilerKind::MSVC => None,
    }
}

/// Whether one of a unit's headers differs from what is on record for it.
pub open spec fn header_changed(
    cache: Seq<(Seq<char>, Seq<char>)>,
    headers: Seq<(Seq<char>, Seq<char>)>,
) -> bool {
    exists|i: int| 0 <= i < headers.len() && #[trigger] changed(cache, headers[i].0, headers[i].1)
}

/// Whether a unit must be compiled again: a full rebuild is asked for, its
/// object is missing, its source differs from what is on record, or one of
/// its headers does.
pub open spec fn needs_rebuild(
    force: bool,
    cache: Seq<(Seq<char>, Seq<char>)>,
    unit: UnitView,
) -> bool {
    force || !unit.object_exists || changed(cache, unit.source_path, unit.digest)
        || header_changed(cache, unit.headers)
}

/// The compile plan: the units that must be compiled again, in the order of
/// `units`.
pub open spec fn compile_plan(
    force: bool,
    cache: Seq<(Seq<char>, Seq<char>)>,
    units: Seq<UnitView>,
) -> Seq<UnitView> {
    units.filter(|u: UnitView| needs_rebuild(force, cache, u))
}

/// The sources of a list of units, each with its digest.
pub open spec fn unit_sources(units: Seq<UnitView>) -> Seq<(Seq<char>, Seq<char>)> {
    units.map_values(|u: UnitView| (u.source_path, u.digest))
}

/// The headers of a list of units, each with its digest: those of the first
/// unit, then those of the second, and so on.
pub open spec fn unit_headers(units: Seq<UnitView>) -> Seq<(Seq<char>, Seq<char>)> {
    units.map_values(|u: UnitView| u.headers).flatten()
}

/// The files whose digests a successful compile of `plan` puts on record:
/// the sources of its units, then their headers.
pub open spec fn plan_files(plan: Seq<UnitView>) -> Seq<(Seq<char>, Seq<char>)> {
    unit_sources(plan) + unit_headers(plan)
}

/// The store after the digest of each of `files` was put on record, one
/// after the other, each under the normal form of its path.
pub open spec fn commit_files(
    cache: Seq<(Seq<char>, Seq<char>)>,
    files: Seq<(Seq<char>, Seq<char>)>,
) -> Seq<(Seq<char>, Seq<char>)>
    decreases files.len(),
{
    if files.len() == 0 {
        cache
    } else {
        committed(
            commit_files(cache, files.drop_last()),
            normalized(files.last().0),
            files.last().1,
        )
    }
}

/// The units among the observations of a project's sources that could be
/// resolved, in the order of the sources.
pub open spec fn resolved_units(observed: Seq<Result<CompilationUnit, BuildError>>) -> Seq<
    UnitView,
>
    decreases observed.len(),
{
    if observed.len() == 0 {
        Seq::empty()
    } else {
        let before = resolved_units(observed.drop_last());
        match observed.last() {
            Ok(unit) => before.push(unit@),
            Err(_) => before,
        }
    }
}

/// Whether compiling a unit failed: its source is among the names in
/// `failed`.
pub open spec fn has_failed(unit: UnitView, failed: Seq<Seq<char>>) -> bool {
    failed.contains(unit.source)
}

/// The units of a plan whose compilation failed, or those whose compilation
/// succeeded, in the order of the plan.
pub open spec fn units_where(plan: Seq<UnitView>, failed: Seq<Seq<char>>, failing: bool) -> Seq<
    UnitView,
> {
    plan.filter(|u: UnitView| has_failed(u, failed) == failing)
}

/// The normal paths of the files that the failed units of a plan depend on:
/// their sources and their headers.
pub open spec fn held_paths(plan: Seq<UnitView>, failed: Seq<Seq<char>>) -> Seq<Seq<char>> {
    plan_files(units_where(plan, failed, true)).map_values(
        |f: (Seq<char>, Seq<char>)| normalized(f.0),
    )
}

/// The files whose digests go on record after a compile pass: the sources
/// and headers of the units that compiled, without any file that a failed
/// unit depends on. Such a file is held back because its new digest on
/// record would make the failed unit look up to date, while its object is
/// still the old one.
pub open spec fn committable(plan: Seq<UnitView>, failed: Seq<Seq<char>>) -> Seq<
    (Seq<char>, Seq<char>),
> {
    let held = held_paths(plan, failed);
    plan_files(units_where(plan, failed, false)).filter(
        |f: (Seq<char>, Seq<char>)| !held.contains(normalized(f.0)),
    )
}

/// Whether one of `files` has the normal path `path`.
pub open spec fn lists_file(files: Seq<(Seq<char>, Seq<char>)>, path: Seq<char>) -> bool {
    exists|i: int| 0 <= i < files.len() && #[trigger] normalized(files[i].0) == path
}

/// Whether a unit depends on the file with the normal path `path`: it is the
/// unit's source or one of its headers.
pub open spec fn depends_on(unit: UnitView, path: Seq<char>) -> bool {
    normalized(unit.source_path) == path || lists_file(unit.headers, path)
}

/// Whether each of `files` carries the digest that `digest_of` gives for its
/// normal path.
pub open spec fn files_agree(
    files: Seq<(Seq<char>, Seq<char>)>,
    digest_of: spec_fn(Seq<char>) -> Seq<char>,
) -> bool {
    forall|i: int| 0 <= i < files.len() ==> (#[trigger] files[i]).1 == digest_of(normalized(files[i].0))
}

/// Whether a unit was observed on a disk where each file has the digest
/// that `digest_of` gives for its normal path.
pub open spec fn observed_on(unit: UnitView, digest_of: spec_fn(Seq<char>) -> Seq<char>) -> bool {
    unit.digest == digest_of(normalized(unit.source_path)) && files_agree(unit.headers, digest_of)
}

/// A unit as it is observed once more on a disk where each file has the
/// digest that `digest_of` gives: the same paths, the digests of now.
pub open spec fn observed_again(
    unit: UnitView,
    digest_of: spec_fn(Seq<char>) -> Seq<char>,
) -> UnitView {
    UnitView {
        source: unit.source,
        source_path: unit.source_path,
        object_path: unit.object_path,
        shared: unit.shared,
        object_exists: unit.object_exists,
        digest: digest_of(normalized(unit.source_path)),
        headers: unit.headers.map_values(
            |h: (Seq<char>, Seq<char>)| (h.0, digest_of(normalized(h.0))),
        ),
    }
}

/// A unit once its object file is on disk.
pub open spec fn with_object(unit: UnitView) -> UnitView {
    UnitView {
        source: unit.source,
        source_path: unit.source_path,
        object_path: unit.object_path,
        shared: unit.shared,
        object_exists: true,
        digest: unit.digest,
        headers: unit.headers,
    }
}

/// The digests after the bytes of the file `path` changed so that its
/// digest is `digest`: every other file is as before.
pub open spec fn after_change(
    digest_of: spec_fn(Seq<char>) -> Seq<char>,
    path: Seq<char>,
    digest: Seq<char>,
) -> spec_fn(Seq<char>) -> Seq<char> {
    |p: Seq<char>|
        if p == path {
            digest
        } else {
            digest_of(p)
        }
}

/// The include directories of the project's dependencies.
pub open spec fn dependency_includes(config: Config) -> Seq<Seq<char>> {
    match config.forge.dependencies {
        Some(deps) => texts(deps.include_dirs@),
        None => Seq::empty(),
    }
}

/// The arguments of the compiler for one unit: the profile's flags, the
/// flag for position-independent code where the unit is for the shared
/// library, the user's flags that are passed on, the source, the include
/// directories of the project and of its dependencies, and the object.
pub open spec fn compile_arguments(config: Config, unit: UnitView) -> Seq<Seq<char>> {
    profile_flags(profile_of(config.args.command)) + (if unit.shared {
        seq!["-fPIC"@]
    } else {
        Seq::empty()
    }) + user_flags(config.forge.build.cflags, false) + seq!["-c"@, unit.source_path] + prefixed("-I"@, texts(config.forge.build.include_dirs@)) + prefixed(
        "-I"@,
        dependency_includes(config),
    ) + seq!["-o"@, unit.object_path]
}

/// The compile passes of a project: one for the shared library where the
/// project declares one, then one for everything else where it declares an
/// executable or a static library. Each pass is given by whether it is the
/// shared one.
pub open spec fn compile_passes(targets: Seq<Seq<char>>) -> Seq<bool> {
    (if targets.contains("shared"@) {
        seq![true]
    } else {
        Seq::empty()
    }) + (if targets.contains("static"@) || targets.contains("bin"@) {
        seq![false]
    } else {
        Seq::empty()
    })
}

/// The command that calls the compiler of the project's toolchain, without
/// arguments yet.
pub fn get_compiler_cmd(config: &Config) -> (cmd: Result<CommandLine, BuildError>)
    ensures
        match compiler_program(config.compiler) {
            Some(program) => cmd matches Ok(c) && c.program@ == program && c.args@.len() == 0,
            None => cmd matches Err(e) && e.is(
                ErrorKind::UnsupportedToolchain,
                "Compiler not supported: msvc"@,
            ),
        },
{
    match config.compiler {
        CompilerKind::GCC => Ok(CommandLine::new("gcc")),
        CompilerKind::Clang => Ok(CommandLine::new("clang")),
        CompilerKind::MSVC => Err(
            BuildError::new(
                ErrorKind::UnsupportedToolchain,
                String::from_str("Compiler not supported: msvc"),
            ),
        ),
    }
}

/// The compile passes that the project needs, in order.
pub fn compile(config: &Config) -> (passes: Result<Vec<bool>, BuildError>)
    ensures
        match config.compiler {
            CompilerKind::MSVC => passes matches Err(e) && e.is(
                ErrorKind::UnsupportedToolchain,
                "MSVC is not supported yet"@,
            ),
            _ => passes matches Ok(p) && p@ == compile_passes(texts(config.forge.project.targets@)),
        },
{
    if config.compiler == CompilerKind::MSVC {
        return Err(
            BuildError::new(
                ErrorKind::UnsupportedToolchain,
                String::from_str("MSVC is not supported yet"),
            ),
        );
    }
    let targets = &config.forge.project.targets;
    let mut passes: Vec<bool> = Vec::new();
    if contains_text(targets, "shared") {
        passes.push(true);
    }
    if contains_text(targets, "static") || contains_text(targets, "bin") {
        passes.push(false);
    }
    assert(passes@ =~= compile_passes(texts(config.forge.project.targets@)));
    Ok(passes)
}

/// Resolves one source that the project file declares, given what was found
/// at its place on disk: the path of the source in normal form, and the
/// object it compiles to in this pass. A source that is not there is a
/// failure of its own kind.
pub fn resolve_unit(cwd: &str, c_file: &str, probe: &FileProbe, config: &Config, shared: bool) -> (paths:
    Result<(String, String), BuildError>)
    ensures
        match *probe {
            FileProbe::Missing => paths matches Err(e) && e.is(
                ErrorKind::SourceNotFound,
                "File not found: "@ + c_file@,
            ),
            FileProbe::Unresolvable(reason) => paths matches Err(e) && e.is(
                ErrorKind::Io,
                "File Error: "@ + reason@,
            ),
            FileProbe::Regular => match file_stem_of(normalized(joined_path(cwd@, c_file@))) {
                Some(stem) => paths matches Ok(found) && found.0@ == normalized(
                    joined_path(cwd@, c_file@),
                ) && found.1@ == object_path(
                    cwd@,
                    stem,
                    output_profile(config.args.command),
                    shared,
                ),
                None => paths matches Err(e) && e.is(
                    ErrorKind::Io,
                    "Could not get equivalent forge path for file: "@ + c_file@,
                ),
            },
        },
{
    let c_file_path = match find_file(cwd, c_file, probe) {
        Ok(path) => path,
        Err(FileError::FileNotFound(message)) => {
            return Err(BuildError::new(ErrorKind::SourceNotFound, message));
        },
        Err(FileError::FileError(message)) => {
            return Err(BuildError::new(ErrorKind::Io, message));
        },
        Err(FileError::CwdError(message)) => {
            return Err(BuildError::new(ErrorKind::Io, message));
        },
    };
    match get_equivalent_forge_path(cwd, c_file_path.as_str(), config, shared) {
        Ok(o_file_path) => Ok((c_file_path, o_file_path)),
        Err(_) => Err(
            BuildError::new(
                ErrorKind::Io,
                concat2("Could not get equivalent forge path for file: ", c_file),
            ),
        ),
    }
}

/// A copy of a list of headers.
fn clone_headers(headers: &Vec<HeaderFile>) -> (copy: Vec<HeaderFile>)
    ensures
        header_views(copy@) == header_views(headers@),
{
    let mut copy: Vec<HeaderFile> = Vec::new();
    let mut i: usize = 0;
    while i < headers.len()
        invariant
            i <= headers.len(),
            header_views(copy@) == header_views(headers@.take(i as int)),
        decreases headers.len() - i,
    {
        let h = &headers[i];
        let ghost before = copy@;
        copy.push(HeaderFile { path: h.path.clone(), digest: h.digest.clone() });
        i += 1;
        assert(header_views(copy@) =~= header_views(before).push(h@));
        assert(header_views(headers@.take(i as int)) =~= header_views(
            headers@.take(i - 1),
        ).push(h@));
    }
    assert(headers@.take(headers.len() as int) =~= headers@);
    copy
}

impl CompilationUnit {
    /// A copy of this unit.
    pub fn duplicate(&self) -> (copy: CompilationUnit)
        ensures
            copy@ == self@,
    {
        CompilationUnit {
            source: self.source.clone(),
            source_path: self.source_path.clone(),
            object_path: self.object_path.clone(),
            shared: self.shared,
            object_exists: self.object_exists,
            digest: self.digest.clone(),
            headers: clone_headers(&self.headers),
        }
    }

    /// Whether this unit must be compiled again.
    pub fn is_stale(&self, force: bool, entries: &Vec<HashCache>) -> (stale: bool)
        ensures
            stale == needs_rebuild(force, records(entries@), self@),
    {
        if force || !self.object_exists {
            return true;
        }
        if file_changed(self.source_path.as_str(), self.digest.as_str(), entries) {
            return true;
        }
        let ghost cache = records(entries@);
        let ghost headers = self@.headers;
        let mut i: usize = 0;
        while i < self.headers.len()
            invariant
                i <= self.headers.len(),
                cache == records(entries@),
                headers == self@.headers,
                forall|j: int| 0 <= j < i ==> !#[trigger] changed(cache, headers[j].0, headers[j].1),
            decreases self.headers.len() - i,
        {
            let header = &self.headers[i];
            assert(headers[i as int] == header@);
            if file_changed(header.path.as_str(), header.digest.as_str(), entries) {
                assert(changed(cache, headers[i as int].0, headers[i as int].1));
                return true;
            }
            i += 1;
        }
        false
    }
}

/// The compile plan: the units among `units` that must be compiled again,
/// in the order of `units`. The command decides whether a full rebuild is
/// asked for.
pub fn get_files_to_compile(
    config: &Config,
    entries: &Vec<HashCache>,
    units: &Vec<CompilationUnit>,
) -> (plan: Vec<CompilationUnit>)
    ensures
        unit_views(plan@) == compile_plan(
            forces_rebuild(config.args.command),
            records(entries@),
            unit_views(units@),
        ),
{
    let force = config.args.command.forces_rebuild();
    let ghost cache = records(entries@);
    let ghost stale = |u: UnitView| needs_rebuild(force, cache, u);
    let ghost all = unit_views(units@);
    let mut to_compile: Vec<CompilationUnit> = Vec::new();
    let mut i: usize = 0;
    assert(all.take(0).filter(stale) =~= Seq::<UnitView>::empty());
    assert(unit_views(to_compile@) =~= all.take(0).filter(stale));
    while i < units.len()
        invariant
            i <= units.len(),
            cache == records(entries@),
            stale == |u: UnitView| needs_rebuild(force, cache, u),
            all == unit_views(units@),
            unit_views(to_compile@) == all.take(i as int).filter(stale),
        decreases units.len() - i,
    {
        let unit = &units[i];
        proof {
            assert(all.take(i + 1) =~= all.take(i as int).push(unit@));
            all.take(i as int).lemma_filter_push(unit@, stale);
        }
        if unit.is_stale(force, entries) {
            let ghost before = to_compile@;
            to_compile.push(unit.duplicate());
            assert(unit_views(to_compile@) =~= unit_views(before).push(unit@));
        }
        i += 1;
    }
    assert(all.take(units.len() as int) =~= all);
    to_compile
}

/// Plans a compile pass from what was observed of each declared source. A
/// source that could not be observed, because it is missing or its headers
/// could not be listed, does not keep the others from being planned: the
/// plan is made of the units that were resolved, and the first failure is
/// handed back beside it, for the pass to fail with once the plan was
/// compiled.
pub fn plan_units(
    config: &Config,
    entries: &Vec<HashCache>,
    observed: &Vec<Result<CompilationUnit, BuildError>>,
) -> (out: (Vec<CompilationUnit>, Option<BuildError>))
    ensures
        unit_views(out.0@) == compile_plan(
            forces_rebuild(config.args.command),
            records(entries@),
            resolved_units(observed@),
        ),
        is_first_failure(observed@, out.1),
{
    let mut units: Vec<CompilationUnit> = Vec::new();
    let mut i: usize = 0;
    assert(unit_views(units@) =~= resolved_units(observed@.take(0)));
    while i < observed.len()
        invariant
            i <= observed.len(),
            unit_views(units@) == resolved_units(observed@.take(i as int)),
        decreases observed.len() - i,
    {
        proof {
            assert(observed@.take(i + 1).drop_last() =~= observed@.take(i as int));
            assert(observed@.take(i + 1).last() == observed@[i as int]);
        }
        match &observed[i] {
            Ok(unit) => {
                let ghost before = units@;
                units.push(unit.duplicate());
                assert(unit_views(units@) =~= unit_views(before).push(unit@));
            },
            Err(_) => {},
        }
        i += 1;
    }
    assert(observed@.take(observed.len() as int) =~= observed@);
    let plan = get_files_to_compile(config, entries, &units);
    (plan, first_failure(observed))
}

/// What a compile pass came to: the failure of a source that could not be
/// observed, where there was one, and else what compiling the plan came to.
pub fn pass_outcome(unresolved: Option<BuildError>, concluded: Result<(), BuildError>) -> (done:
    Result<(), BuildError>)
    ensures
        match unresolved {
            Some(e) => done == Err::<(), BuildError>(e),
            None => done == concluded,
        },
{
    match unresolved {
        Some(e) => Err(e),
        None => concluded,
    }
}

/// The command that compiles one unit of the plan.
pub fn compile_command(config: &Config, unit: &CompilationUnit) -> (cmd: Result<
    CommandLine,
    BuildError,
>)
    ensures
        match compiler_program(config.compiler) {
            Some(program) => cmd matches Ok(c) && c.program@ == program && texts(c.args@)
                == compile_arguments(*config, unit@),
            None => cmd matches Err(e) && e.is(
                ErrorKind::UnsupportedToolchain,
                "Compiler not supported: msvc"@,
            ),
        },
{
    let mut cmd = get_compiler_cmd(config)?;
    assert(texts(cmd.args@) =~= Seq::<Seq<char>>::empty());
    add_build_flags(&config.args.command, &mut cmd);
    if unit.shared {
        cmd.arg("-fPIC");
    }
    let ghost head = profile_flags(profile_of(config.args.command)) + (if unit.shared {
        seq!["-fPIC"@]
    } else {
        Seq::empty()
    });
    assert(texts(cmd.args@) =~= head);
    add_user_flags(&mut cmd, &config.forge.build.cflags, false);
    cmd.arg("-c");
    cmd.arg(unit.source_path.as_str());
    cmd.args_prefixed("-I", &config.forge.build.include_dirs);
    match &config.forge.dependencies {
        Some(dependencies) => cmd.args_prefixed("-I", &dependencies.include_dirs),
        None => {
            assert(prefixed("-I"@, Seq::<Seq<char>>::empty()) =~= Seq::<Seq<char>>::empty());
        },
    }
    cmd.arg("-o");
    cmd.arg(unit.object_path.as_str());
    assert(texts(cmd.args@) =~= compile_arguments(*config, unit@));
    Ok(cmd)
}

/// Committing files never gives a path a second record.
pub proof fn lemma_commit_files_keep_unique(
    cache: Seq<(Seq<char>, Seq<char>)>,
    files: Seq<(Seq<char>, Seq<char>)>,
)
    requires
        unique_paths(cache),
    ensures
        unique_paths(commit_files(cache, files)),
    decreases files.len(),
{
    if files.len() > 0 {
        lemma_commit_files_keep_unique(cache, files.drop_last());
        lemma_commit_keeps_unique(
            commit_files(cache, files.drop_last()),
            normalized(files.last().0),
            files.last().1,
        );
    }
}

/// Adds copies of `headers` at the end of `files`.
fn append_headers(files: &mut Vec<HeaderFile>, headers: &Vec<HeaderFile>)
    ensures
        header_views(final(files)@) == header_views(old(files)@) + header_views(headers@),
{
    let ghost all = header_views(headers@);
    let mut i: usize = 0;
    assert(header_views(files@) =~= header_views(old(files)@) + all.take(0));
    while i < headers.len()
        invariant
            i <= headers.len(),
            all == header_views(headers@),
            header_views(files@) == header_views(old(files)@) + all.take(i as int),
        decreases headers.len() - i,
    {
        let h = &headers[i];
        let ghost before = files@;
        files.push(HeaderFile { path: h.path.clone(), digest: h.digest.clone() });
        i += 1;
        assert(header_views(files@) =~= header_views(before).push(h@));
        assert(all.take(i as int) =~= all.take(i - 1).push(h@));
    }
    assert(all.take(headers.len() as int) =~= all);
}

/// The sources, then the headers, of the units of `plan` that failed, or of
/// those that compiled.
fn collect_files(plan: &Vec<CompilationUnit>, failed: &Vec<String>, failing: bool) -> (files: Vec<
    HeaderFile,
>)
    ensures
        header_views(files@) == plan_files(
            units_where(unit_views(plan@), texts(failed@), failing),
        ),
{
    let ghost views = unit_views(plan@);
    let ghost names = texts(failed@);
    let ghost pick = |u: UnitView| has_failed(u, names) == failing;
    let mut files: Vec<HeaderFile> = Vec::new();
    let mut i: usize = 0;
    assert(views.take(0).filter(pick) =~= Seq::<UnitView>::empty());
    assert(header_views(files@) =~= unit_sources(views.take(0).filter(pick)));
    while i < plan.len()
        invariant
            i <= plan.len(),
            views == unit_views(plan@),
            names == texts(failed@),
            pick == |u: UnitView| has_failed(u, names) == failing,
            header_views(files@) == unit_sources(views.take(i as int).filter(pick)),
        decreases plan.len() - i,
    {
        let unit = &plan[i];
        let ghost chosen = views.take(i as int).filter(pick);
        proof {
            assert(views.take(i + 1) =~= views.take(i as int).push(unit@));
            views.take(i as int).lemma_filter_push(unit@, pick);
        }
        if contains_text(failed, unit.source.as_str()) == failing {
            let ghost before = files@;
            files.push(HeaderFile { path: unit.source_path.clone(), digest: unit.digest.clone() });
            proof {
                assert(header_views(files@) =~= header_views(before).push(
                    (unit@.source_path, unit@.digest),
                ));
                assert(unit_sources(chosen.push(unit@)) =~= unit_sources(chosen).push(
                    (unit@.source_path, unit@.digest),
                ));
            }
        }
        i += 1;
    }
    assert(views.take(plan.len() as int) =~= views);
    let ghost sources = unit_sources(views.filter(pick));
    let mut k: usize = 0;
    assert(unit_headers(views.take(0).filter(pick)) =~= Seq::<(Seq<char>, Seq<char>)>::empty());
    assert(header_views(files@) =~= sources + unit_headers(views.take(0).filter(pick)));
    while k < plan.len()
        invariant
            k <= plan.len(),
            views == unit_views(plan@),
            names == texts(failed@),
            pick == |u: UnitView| has_failed(u, names) == failing,
            sources == unit_sources(views.filter(pick)),
            header_views(files@) == sources + unit_headers(views.take(k as int).filter(pick)),
        decreases plan.len() - k,
    {
        let unit = &plan[k];
        let ghost chosen = views.take(k as int).filter(pick);
        proof {
            assert(views.take(k + 1) =~= views.take(k as int).push(unit@));
            views.take(k as int).lemma_filter_push(unit@, pick);
        }
        if contains_text(failed, unit.source.as_str()) == failing {
            append_headers(&mut files, &unit.headers);
            proof {
                let lists = chosen.map_values(|u: UnitView| u.headers);
                assert(chosen.push(unit@).map_values(|u: UnitView| u.headers) =~= lists.push(
                    unit@.headers,
                ));
                lists.lemma_flatten_push(unit@.headers);
                assert(header_views(files@) =~= sources + (unit_headers(chosen) + unit@.headers));
            }
        }
        k += 1;
    }
    assert(views.take(plan.len() as int) =~= views);
    files
}

/// Concludes a compile pass. `failed` names the units of `plan` whose
/// compilation failed; every other unit of the plan compiled. The digests of
/// the sources and headers of the units that compiled are put on record, so
/// that the next invocation skips them; a file that a failed unit depends
/// on is held back, so that the failed unit stays stale. Where a unit
/// failed, the pass fails with the first of `failed`. A store in which no
/// path has two records stays so.
pub fn compile_unix_like(
    plan: &Vec<CompilationUnit>,
    failed: &Vec<String>,
    entries: &mut Vec<HashCache>,
) -> (done: Result<(), BuildError>)
    ensures
        records(final(entries)@) == commit_files(
            records(old(entries)@),
            committable(unit_views(plan@), texts(failed@)),
        ),
        failed@.len() > 0 ==> (done matches Err(e) && e.is(
            ErrorKind::Compile,
            "Error compiling file: "@ + failed@[0]@,
        )),
        failed@.len() == 0 ==> done is Ok,
        unique_paths(records(old(entries)@)) ==> unique_paths(records(final(entries)@)),
{
    proof {
        if unique_paths(records(entries@)) {
            lemma_commit_files_keep_unique(
                records(entries@),
                committable(unit_views(plan@), texts(failed@)),
            );
        }
    }
    let compiled = collect_files(plan, failed, false);
    let held_back = collect_files(plan, failed, true);
    let ghost normal = |f: (Seq<char>, Seq<char>)| normalized(f.0);
    let mut held: Vec<String> = Vec::new();
    let mut h: usize = 0;
    assert(texts(held@) =~= header_views(held_back@).take(0).map_values(normal));
    while h < held_back.len()
        invariant
            h <= held_back.len(),
            normal == |f: (Seq<char>, Seq<char>)| normalized(f.0),
            texts(held@) == header_views(held_back@).take(h as int).map_values(normal),
        decreases held_back.len() - h,
    {
        let ghost before = held@;
        let path = normalize_path(held_back[h].path.as_str());
        held.push(path);
        h += 1;
        assert(texts(held@) =~= texts(before).push(path@));
        assert(header_views(held_back@).take(h as int).map_values(normal) =~= header_views(
            held_back@,
        ).take(h - 1).map_values(normal).push(path@));
    }
    assert(header_views(held_back@).take(held_back.len() as int) =~= header_views(held_back@));
    let ghost before = records(entries@);
    let ghost all = header_views(compiled@);
    let ghost paths = texts(held@);
    let ghost keep = |f: (Seq<char>, Seq<char>)| !paths.contains(normalized(f.0));
    assert(paths == held_paths(unit_views(plan@), texts(failed@)));
    let mut i: usize = 0;
    assert(all.take(0).filter(keep) =~= Seq::<(Seq<char>, Seq<char>)>::empty());
    while i < compiled.len()
        invariant
            i <= compiled.len(),
            all == header_views(compiled@),
            paths == texts(held@),
            keep == |f: (Seq<char>, Seq<char>)| !paths.contains(normalized(f.0)),
            records(entries@) == commit_files(before, all.take(i as int).filter(keep)),
        decreases compiled.len() - i,
    {
        let file = &compiled[i];
        let ghost chosen = all.take(i as int).filter(keep);
        proof {
            assert(all.take(i + 1) =~= all.take(i as int).push(file@));
            all.take(i as int).lemma_filter_push(file@, keep);
        }
        let path = normalize_path(file.path.as_str());
        if !contains_text(&held, path.as_str()) {
            cache_hash(file.path.as_str(), file.digest.clone(), entries);
            proof {
                assert(chosen.push(file@).drop_last() =~= chosen);
                assert(chosen.push(file@).last() == file@);
            }
        }
        i += 1;
    }
    assert(all.take(compiled.len() as int) =~= all);
    if failed.len() > 0 {
        Err(
            BuildError::new(
                ErrorKind::Compile,
                concat2("Error compiling file: ", failed[0].as_str()),
            ),
        )
    } else {
        Ok(())
    }
}

} // verus!
