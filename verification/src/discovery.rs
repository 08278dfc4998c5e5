//! Discovery of sources and include directories.

use vstd::prelude::*;
use globset::{Glob, GlobSet, GlobSetBuilder};
use crate::arguments::DiscoverOptions;
use crate::config::Forge;
use crate::fs_utils::{
    add_to_build_toml, extension_of, has_extension, normalize_path, normalized, parent_dir,
    parent_of, with_value, BuildField,
};
use crate::text::{contains_text, texts};
use crate::ui::{answer_of, event_answer, event_file_found, file_event, FileAnswer, FileEvent};

verus! {

/// A parsed glob pattern of the crate `globset`.
#[verifier::external_type_specification]
#[verifier::external_body]
pub struct ExGlob(globset::Glob);

/// A set of glob patterns in the making.
#[verifier::external_type_specification]
#[verifier::external_body]
pub struct ExGlobSetBuilder(globset::GlobSetBuilder);

/// A set of glob patterns, ready for matching.
#[verifier::external_type_specification]
#[verifier::external_body]
pub struct ExGlobSet(globset::GlobSet);

/// Why a glob pattern or a set of them was rejected.
#[verifier::external_type_specification]
#[verifier::external_body]
pub struct ExGlobError(globset::Error);

/// One entry that a walk through the project's directories came by.
#[derive(Debug, Clone, PartialEq)]
pub struct WalkEntry {
    /// The entry's path, from the root of the walk.
    pub path: String,
    /// Whether the entry is a regular file.
    pub is_file: bool,
}

/// Whether `Glob::new` of `globset` accepts `pattern`, that is, whether
/// `pattern` is a valid glob under the default options. The default options
/// are those of the platform the library is built for: a backslash escapes
/// the character after it only where it is no path separator.
pub uninterp spec fn glob_is_valid(pattern: Seq<char>) -> bool;

/// The pattern that a glob was parsed from.
pub uninterp spec fn glob_pattern(glob: Glob) -> Seq<char>;

/// The patterns that were added to a builder, in the order they were added.
pub uninterp spec fn builder_patterns(builder: GlobSetBuilder) -> Seq<Seq<char>>;

/// The patterns that a set was built from: those of the builder that
/// `GlobSetBuilder::build` made it of. The set keeps them compiled, not as
/// text.
pub uninterp spec fn set_patterns(set: GlobSet) -> Seq<Seq<char>>;

/// Whether `GlobSetBuilder::build` of `globset` builds a set from these
/// patterns, each parsed by `Glob::new` with the default options of the
/// platform the library is built for.
pub uninterp spec fn patterns_build(patterns: Seq<Seq<char>>) -> bool;

/// Whether `GlobSet::is_match` of `globset` finds that one of the patterns,
/// each parsed by `Glob::new` with the default options, matches `path`. The
/// answer is that of the platform the library is built for: where the
/// backslash is a path separator, `globset` reads the backslashes of `path`
/// as slashes.
pub uninterp spec fn any_pattern_matches(patterns: Seq<Seq<char>>, path: Seq<char>) -> bool;

/// The patterns among `ignore` that are valid globs.
pub open spec fn valid_patterns(ignore: Seq<Seq<char>>) -> Seq<Seq<char>> {
    ignore.filter(|p: Seq<char>| glob_is_valid(p))
}

/// Whether discovery leaves the file `name` out: the valid patterns among
/// `ignore` build a set, and one of them matches `name`.
pub open spec fn ignored(name: Seq<char>, ignore: Seq<Seq<char>>) -> bool {
    patterns_build(valid_patterns(ignore)) && any_pattern_matches(valid_patterns(ignore), name)
}

/// Whether an entry is a C source: a regular file with the extension `c`.
pub open spec fn is_c_file(entry: WalkEntry) -> bool {
    entry.is_file && extension_of(entry.path@) == Some("c"@)
}

/// Whether an entry is a header: a regular file with the extension `h`.
pub open spec fn is_h_file(entry: WalkEntry) -> bool {
    entry.is_file && extension_of(entry.path@) == Some("h"@)
}

/// The directories of the headers among `entries`, each once, in the order
/// in which the walk came by their first header.
pub open spec fn header_dirs(entries: Seq<WalkEntry>) -> Seq<Seq<char>>
    decreases entries.len(),
{
    if entries.len() == 0 {
        Seq::empty()
    } else {
        let before = header_dirs(entries.drop_last());
        if is_h_file(entries.last()) {
            match parent_of(entries.last().path@) {
                Some(dir) => with_value(before, dir),
                None => before,
            }
        } else {
            before
        }
    }
}

/// A list of the project file after discovery went through `found`, and the
/// answers that are left. Each file is taken in normal form. An ignored file
/// is left out; any other file is added without asking where `auto` is set,
/// and else where the next answer is a yes. A file that nobody answered for
/// is left out. No file is added twice.
pub open spec fn discovered(
    auto: bool,
    ignore: Seq<Seq<char>>,
    list: Seq<Seq<char>>,
    found: Seq<Seq<char>>,
    answers: Seq<Seq<char>>,
) -> (Seq<Seq<char>>, Seq<Seq<char>>)
    decreases found.len(),
{
    if found.len() == 0 {
        (list, answers)
    } else {
        let (before, left) = discovered(auto, ignore, list, found.drop_last(), answers);
        let name = normalized(found.last());
        match file_event(auto, ignore, name) {
            FileEvent::Ignored => (before, left),
            FileEvent::Added => (with_value(before, name), left),
            FileEvent::Ask => if left.len() == 0 {
                (before, left)
            } else if answer_of(left[0]) == FileAnswer::Yes {
                (with_value(before, name), left.drop_first())
            } else {
                (before, left.drop_first())
            },
        }
    }
}

/// The files, in normal form, that the user is asked about when discovery
/// goes through `found`: those that are not ignored, unless files are added
/// without asking.
pub open spec fn questions(auto: bool, ignore: Seq<Seq<char>>, found: Seq<Seq<char>>) -> Seq<
    Seq<char>,
> {
    found.map_values(|f: Seq<char>| normalized(f)).filter(
        |name: Seq<char>| file_event(auto, ignore, name) == FileEvent::Ask,
    )
}

/// `Glob::new` of `globset`: parses `pattern` with the default options.
/// Taken on trust: whether it succeeds depends on the pattern alone, and the
/// glob it gives keeps the pattern it was given.
#[verifier::external_body]
fn glob_new(pattern: &str) -> (glob: Result<Glob, globset::Error>)
    ensures
        glob is Ok == glob_is_valid(pattern@),
        glob matches Ok(g) ==> glob_pattern(g) == pattern@,
{
    Glob::new(pattern)
}

/// `GlobSetBuilder::new` of `globset`. Taken on trust: the new builder holds
/// no pattern.
#[verifier::external_body]
fn builder_new() -> (builder: GlobSetBuilder)
    ensures
        builder_patterns(builder) == Seq::<Seq<char>>::empty(),
{
    GlobSetBuilder::new()
}

/// `GlobSetBuilder::add` of `globset`. Taken on trust: the builder holds one
/// pattern more, that of `glob`, after those it held.
#[verifier::external_body]
fn builder_add(builder: &mut GlobSetBuilder, glob: Glob)
    ensures
        builder_patterns(*final(builder)) == builder_patterns(*old(builder)).push(
            glob_pattern(glob),
        ),
{
    builder.add(glob);
}

/// `GlobSetBuilder::build` of `globset`. Taken on trust: whether it succeeds
/// depends on the patterns added so far alone, a builder without patterns
/// always builds, and the set stands for exactly the builder's patterns.
#[verifier::external_body]
fn builder_build(builder: &GlobSetBuilder) -> (set: Result<GlobSet, globset::Error>)
    ensures
        set is Ok == patterns_build(builder_patterns(*builder)),
        builder_patterns(*builder).len() == 0 ==> set is Ok,
        set matches Ok(s) ==> set_patterns(s) == builder_patterns(*builder),
{
    builder.build()
}

/// `GlobSet::is_match` of `globset`: whether any glob of the set matches
/// `path`. Taken on trust: the answer depends on the set's patterns and on
/// the path alone, and a set without patterns matches nothing.
#[verifier::external_body]
fn set_is_match(set: &GlobSet, path: &str) -> (matched: bool)
    ensures
        matched == any_pattern_matches(set_patterns(*set), path@),
        set_patterns(*set).len() == 0 ==> !matched,
{
    set.is_match(path)
}

/// Whether discovery leaves the file `name` out because one of the patterns
/// of `ignore` matches it. A pattern that is no valid glob is skipped; a
/// list without a valid pattern ignores nothing.
pub fn should_be_ignored(name: &String, ignore: &[String]) -> (skip: bool)
    ensures
        skip == ignored(name@, texts(ignore@)),
        valid_patterns(texts(ignore@)).len() == 0 ==> !skip,
{
    let mut builder = builder_new();
    let ghost valid = |p: Seq<char>| glob_is_valid(p);
    let ghost all = texts(ignore@);
    let mut i: usize = 0;
    assert(all.take(0).filter(valid) =~= Seq::<Seq<char>>::empty());
    while i < ignore.len()
        invariant
            i <= ignore.len(),
            valid == |p: Seq<char>| glob_is_valid(p),
            all == texts(ignore@),
            builder_patterns(builder) == all.take(i as int).filter(valid),
        decreases ignore.len() - i,
    {
        let pattern = ignore[i].as_str();
        proof {
            assert(all.take(i + 1) =~= all.take(i as int).push(pattern@));
            all.take(i as int).lemma_filter_push(pattern@, valid);
        }
        match glob_new(pattern) {
            Ok(glob) => {
                builder_add(&mut builder, glob);
            },
            Err(_) => {},
        }
        i += 1;
    }
    assert(all.take(ignore.len() as int) =~= all);
    match builder_build(&builder) {
        Ok(globset) => set_is_match(&globset, name.as_str()),
        Err(_) => false,
    }
}

/// The C sources among the entries of a walk, in the order of the walk.
pub fn find_c_files(entries: &Vec<WalkEntry>) -> (c_files: Vec<String>)
    ensures
        texts(c_files@) == entries@.filter(|e: WalkEntry| is_c_file(e)).map_values(
            |e: WalkEntry| e.path@,
        ),
{
    let ghost keep = |e: WalkEntry| is_c_file(e);
    let ghost path = |e: WalkEntry| e.path@;
    let mut c_files: Vec<String> = Vec::new();
    let mut i: usize = 0;
    assert(entries@.take(0).filter(keep) =~= Seq::<WalkEntry>::empty());
    assert(texts(c_files@) =~= entries@.take(0).filter(keep).map_values(path));
    while i < entries.len()
        invariant
            i <= entries.len(),
            keep == |e: WalkEntry| is_c_file(e),
            path == |e: WalkEntry| e.path@,
            texts(c_files@) == entries@.take(i as int).filter(keep).map_values(path),
        decreases entries.len() - i,
    {
        let entry = &entries[i];
        let ghost before = entries@.take(i as int);
        proof {
            assert(entries@.take(i + 1) =~= before.push(*entry));
            before.lemma_filter_push(*entry, keep);
        }
        if entry.is_file && has_extension(entry.path.as_str(), "c") {
            let ghost old_files = c_files@;
            c_files.push(entry.path.clone());
            proof {
                before.filter(keep).lemma_push_map_commute(path, *entry);
                assert(texts(c_files@) =~= texts(old_files).push(path(*entry)));
            }
        }
        i += 1;
    }
    assert(entries@.take(entries.len() as int) =~= entries@);
    c_files
}

/// No directory occurs twice among the directories of the headers.
pub proof fn lemma_header_dirs_are_distinct(entries: Seq<WalkEntry>)
    ensures
        header_dirs(entries).no_duplicates(),
    decreases entries.len(),
{
    if entries.len() > 0 {
        lemma_header_dirs_are_distinct(entries.drop_last());
    }
}

/// The directories that hold a header, from the entries of a walk: each
/// once, in the order in which the walk came by their first header.
pub fn find_header_dirs(entries: &Vec<WalkEntry>) -> (dirs: Vec<String>)
    ensures
        texts(dirs@) == header_dirs(entries@),
        texts(dirs@).no_duplicates(),
{
    proof {
        lemma_header_dirs_are_distinct(entries@);
    }
    let mut dirs: Vec<String> = Vec::new();
    let mut i: usize = 0;
    assert(texts(dirs@) =~= header_dirs(entries@.take(0)));
    while i < entries.len()
        invariant
            i <= entries.len(),
            texts(dirs@) == header_dirs(entries@.take(i as int)),
        decreases entries.len() - i,
    {
        let entry = &entries[i];
        proof {
            assert(entries@.take(i + 1).drop_last() =~= entries@.take(i as int));
            assert(entries@.take(i + 1).last() == *entry);
        }
        if entry.is_file && has_extension(entry.path.as_str(), "h") {
            match parent_dir(entry.path.as_str()) {
                Some(parent) => {
                    if !contains_text(&dirs, parent.as_str()) {
                        let ghost before = dirs@;
                        dirs.push(parent);
                        assert(texts(dirs@) =~= texts(before).push(parent@));
                    }
                },
                None => {},
            }
        }
        i += 1;
    }
    assert(entries@.take(entries.len() as int) =~= entries@);
    dirs
}

/// Goes through the files `found` for one list of the project file, reading
/// the answers from position `next` on, and gives the position of the first
/// answer that is left.
fn discover_into(
    options: &DiscoverOptions,
    forge: &mut Forge,
    field: BuildField,
    found: &Vec<String>,
    answers: &Vec<String>,
    next: usize,
) -> (left: usize)
    requires
        next <= answers.len(),
    ensures
        next <= left <= answers.len(),
        final(forge).project == old(forge).project,
        final(forge).dependencies == old(forge).dependencies,
        final(forge).build.compiler == old(forge).build.compiler,
        final(forge).build.output == old(forge).build.output,
        final(forge).build.cflags == old(forge).build.cflags,
        final(forge).build.ldflags == old(forge).build.ldflags,
        match field {
            BuildField::Src => final(forge).build.include_dirs == old(forge).build.include_dirs && (
            texts(final(forge).build.src@), texts(answers@).skip(left as int)) == discovered(
                options.auto,
                texts(options.ignore@),
                texts(old(forge).build.src@),
                texts(found@),
                texts(answers@).skip(next as int),
            ),
            BuildField::IncludeDirs => final(forge).build.src == old(forge).build.src && (
            texts(final(forge).build.include_dirs@), texts(answers@).skip(left as int))
                == discovered(
                options.auto,
                texts(options.ignore@),
                texts(old(forge).build.include_dirs@),
                texts(found@),
                texts(answers@).skip(next as int),
            ),
        },
{
    let ghost auto = options.auto;
    let ghost ignore = texts(options.ignore@);
    let ghost all = texts(found@);
    let ghost given = texts(answers@);
    let ghost start = match field {
        BuildField::Src => texts(forge.build.src@),
        BuildField::IncludeDirs => texts(forge.build.include_dirs@),
    };
    let mut left: usize = next;
    let mut i: usize = 0;
    while i < found.len()
        invariant
            i <= found.len(),
            next <= left <= answers.len(),
            auto == options.auto,
            ignore == texts(options.ignore@),
            all == texts(found@),
            given == texts(answers@),
            forge.project == old(forge).project,
            forge.dependencies == old(forge).dependencies,
            forge.build.compiler == old(forge).build.compiler,
            forge.build.output == old(forge).build.output,
            forge.build.cflags == old(forge).build.cflags,
            forge.build.ldflags == old(forge).build.ldflags,
            match field {
                BuildField::Src => forge.build.include_dirs == old(forge).build.include_dirs && (
                texts(forge.build.src@), given.skip(left as int)) == discovered(
                    auto,
                    ignore,
                    start,
                    all.take(i as int),
                    given.skip(next as int),
                ),
                BuildField::IncludeDirs => forge.build.src == old(forge).build.src && (
                texts(forge.build.include_dirs@), given.skip(left as int)) == discovered(
                    auto,
                    ignore,
                    start,
                    all.take(i as int),
                    given.skip(next as int),
                ),
            },
        decreases found.len() - i,
    {
        let name = normalize_path(found[i].as_str());
        proof {
            assert(all.take(i + 1).drop_last() =~= all.take(i as int));
            assert(all.take(i + 1).last() == found@[i as int]@);
        }
        let add = match event_file_found(options, &name) {
            FileEvent::Ignored => false,
            FileEvent::Added => true,
            FileEvent::Ask => {
                if left < answers.len() {
                    let answer = event_answer(answers[left].as_str());
                    proof {
                        assert(given.skip(left as int)[0] == answers@[left as int]@);
                        assert(given.skip(left as int).drop_first() =~= given.skip(left + 1));
                    }
                    left += 1;
                    answer == FileAnswer::Yes
                } else {
                    false
                }
            },
        };
        if add {
            add_to_build_toml(forge, field, name);
        }
        i += 1;
    }
    assert(all.take(found.len() as int) =~= all);
    left
}

/// Adds what a walk found to the project file: the C sources `c_files` to
/// the sources, then the directories `header_dirs` to the include
/// directories. `answers` holds, in order, what the user typed for each file
/// of `questions`.
pub fn discover(
    options: &DiscoverOptions,
    forge: &mut Forge,
    c_files: &Vec<String>,
    header_dirs: &Vec<String>,
    answers: &Vec<String>,
)
    ensures
        final(forge).project == old(forge).project,
        final(forge).dependencies == old(forge).dependencies,
        final(forge).build.compiler == old(forge).build.compiler,
        final(forge).build.output == old(forge).build.output,
        final(forge).build.cflags == old(forge).build.cflags,
        final(forge).build.ldflags == old(forge).build.ldflags,
        ({
            let sources = discovered(
                options.auto,
                texts(options.ignore@),
                texts(old(forge).build.src@),
                texts(c_files@),
                texts(answers@),
            );
            let dirs = discovered(
                options.auto,
                texts(options.ignore@),
                texts(old(forge).build.include_dirs@),
                texts(header_dirs@),
                sources.1,
            );
            texts(final(forge).build.src@) == sources.0 && texts(final(forge).build.include_dirs@)
                == dirs.0
        }),
{
    assert(texts(answers@).skip(0) =~= texts(answers@));
    let left = discover_into(options, forge, BuildField::Src, c_files, answers, 0);
    discover_into(options, forge, BuildField::IncludeDirs, header_dirs, answers, left);
}

/// The files, in normal form, that the user is to be asked about before
/// `discover` runs: first those among `c_files`, then those among
/// `header_dirs`.
pub fn discover_questions(
    options: &DiscoverOptions,
    c_files: &Vec<String>,
    header_dirs: &Vec<String>,
) -> (names: Vec<String>)
    ensures
        texts(names@) == questions(options.auto, texts(options.ignore@), texts(c_files@))
            + questions(options.auto, texts(options.ignore@), texts(header_dirs@)),
{
    let mut names: Vec<String> = Vec::new();
    assert(texts(names@) =~= Seq::<Seq<char>>::empty());
    ask_about(options, c_files, &mut names);
    ask_about(options, header_dirs, &mut names);
    names
}

/// Adds to `names` the files among `found` that the user is to be asked
/// about.
fn ask_about(options: &DiscoverOptions, found: &Vec<String>, names: &mut Vec<String>)
    ensures
        texts(final(names)@) == texts(old(names)@) + questions(
            options.auto,
            texts(options.ignore@),
            texts(found@),
        ),
{
    let ghost normal = |f: Seq<char>| normalized(f);
    let ghost asked = |name: Seq<char>|
        file_event(options.auto, texts(options.ignore@), name) == FileEvent::Ask;
    let ghost all = texts(found@).map_values(normal);
    let mut i: usize = 0;
    assert(all.take(0).filter(asked) =~= Seq::<Seq<char>>::empty());
    assert(texts(names@) =~= texts(old(names)@) + all.take(0).filter(asked));
    while i < found.len()
        invariant
            i <= found.len(),
            normal == |f: Seq<char>| normalized(f),
            asked == |name: Seq<char>|
                file_event(options.auto, texts(options.ignore@), name) == FileEvent::Ask,
            all == texts(found@).map_values(normal),
            texts(names@) == texts(old(names)@) + all.take(i as int).filter(asked),
        decreases found.len() - i,
    {
        let name = normalize_path(found[i].as_str());
        proof {
            assert(all.take(i + 1) =~= all.take(i as int).push(name@));
            all.take(i as int).lemma_filter_push(name@, asked);
        }
        if event_file_found(options, &name) == FileEvent::Ask {
            let ghost before = names@;
            names.push(name);
            assert(texts(names@) =~= texts(before).push(name@));
        }
        i += 1;
    }
    assert(all.take(found.len() as int) =~= all);
}

} // verus!
