//! What the resolver and the compile step guarantee across invocations.
//!
//! The statements speak of a disk as a function from the normal path of a
//! file to the digest of its bytes, and of units as they are observed on
//! such a disk.

use vstd::prelude::*;
use crate::compile::{
    after_change, commit_files, committable, compile_plan, depends_on, files_agree, has_failed,
    header_changed, held_paths, lists_file, needs_rebuild, observed_again, observed_on,
    plan_files, unit_headers, unit_sources, units_where, with_object, UnitView,
};
use crate::fs_utils::normalized;
use crate::hashes::{
    cached, changed, lemma_lookup_after_commit, lemma_lookup_other_after_commit,
};

verus! {

/// A filter that every element passes keeps the whole sequence.
proof fn lemma_filter_keeps_all<A>(s: Seq<A>, pred: spec_fn(A) -> bool)
    requires
        forall|i: int| 0 <= i < s.len() ==> pred(#[trigger] s[i]),
    ensures
        s.filter(pred) == s,
    decreases s.len(),
{
    reveal(Seq::filter);
    if s.len() > 0 {
        let rest = s.drop_last();
        assert forall|i: int| 0 <= i < rest.len() implies pred(#[trigger] rest[i]) by {
            assert(rest[i] == s[i]);
        }
        lemma_filter_keeps_all(rest, pred);
        assert(rest.push(s.last()) =~= s);
    }
}

/// A filter that no element passes keeps nothing.
proof fn lemma_filter_keeps_none<A>(s: Seq<A>, pred: spec_fn(A) -> bool)
    requires
        forall|i: int| 0 <= i < s.len() ==> !pred(#[trigger] s[i]),
    ensures
        s.filter(pred) == Seq::<A>::empty(),
    decreases s.len(),
{
    reveal(Seq::filter);
    if s.len() > 0 {
        let rest = s.drop_last();
        assert forall|i: int| 0 <= i < rest.len() implies !pred(#[trigger] rest[i]) by {
            assert(rest[i] == s[i]);
        }
        lemma_filter_keeps_none(rest, pred);
    }
}

/// Two filters that agree on every element keep the same.
proof fn lemma_filter_agree<A>(s: Seq<A>, first: spec_fn(A) -> bool, second: spec_fn(A) -> bool)
    requires
        forall|i: int| 0 <= i < s.len() ==> first(#[trigger] s[i]) == second(s[i]),
    ensures
        s.filter(first) == s.filter(second),
    decreases s.len(),
{
    reveal(Seq::filter);
    if s.len() > 0 {
        let rest = s.drop_last();
        assert forall|i: int| 0 <= i < rest.len() implies first(#[trigger] rest[i]) == second(
            rest[i],
        ) by {
            assert(rest[i] == s[i]);
        }
        lemma_filter_agree(rest, first, second);
    }
}

/// What is on record after a list of files was committed: for a path that
/// the list holds, the digest the disk gives for it; for any other path,
/// what was on record before.
pub proof fn lemma_lookup_after_commit_files(
    cache: Seq<(Seq<char>, Seq<char>)>,
    files: Seq<(Seq<char>, Seq<char>)>,
    digest_of: spec_fn(Seq<char>) -> Seq<char>,
    path: Seq<char>,
)
    requires
        files_agree(files, digest_of),
    ensures
        cached(commit_files(cache, files), path) == if lists_file(files, path) {
            Some(digest_of(path))
        } else {
            cached(cache, path)
        },
    decreases files.len(),
{
    if files.len() > 0 {
        let rest = files.drop_last();
        let last = files.last();
        assert forall|i: int| 0 <= i < rest.len() implies (#[trigger] rest[i]).1 == digest_of(
            normalized(rest[i].0),
        ) by {
            assert(rest[i] == files[i]);
        }
        lemma_lookup_after_commit_files(cache, rest, digest_of, path);
        let before = commit_files(cache, rest);
        if normalized(last.0) == path {
            lemma_lookup_after_commit(before, path, last.1);
            assert(normalized(files[files.len() - 1].0) == path);
        } else {
            lemma_lookup_other_after_commit(before, normalized(last.0), last.1, path);
            if lists_file(rest, path) {
                let i = choose|i: int| 0 <= i < rest.len() && #[trigger] normalized(rest[i].0) == path;
                assert(normalized(files[i].0) == path);
            }
            if lists_file(files, path) {
                let i = choose|i: int|
                    0 <= i < files.len() && #[trigger] normalized(files[i].0) == path;
                assert(normalized(rest[i].0) == path);
            }
        }
    }
}

/// A commit of files leaves every other file's record untouched: what is on
/// record for a path that is none of the committed ones is what was on
/// record before.
pub proof fn lemma_commit_leaves_others(
    cache: Seq<(Seq<char>, Seq<char>)>,
    files: Seq<(Seq<char>, Seq<char>)>,
    path: Seq<char>,
)
    requires
        !lists_file(files, path),
    ensures
        cached(commit_files(cache, files), path) == cached(cache, path),
    decreases files.len(),
{
    if files.len() > 0 {
        let rest = files.drop_last();
        let last = files.last();
        assert(normalized(files[files.len() - 1].0) != path);
        if lists_file(rest, path) {
            let i = choose|i: int| 0 <= i < rest.len() && #[trigger] normalized(rest[i].0) == path;
            assert(normalized(files[i].0) == path);
        }
        lemma_commit_leaves_others(cache, rest, path);
        lemma_lookup_other_after_commit(commit_files(cache, rest), normalized(last.0), last.1, path);
    }
}

/// The headers of a list of units hold every header of each of its units.
proof fn lemma_unit_headers_hold(units: Seq<UnitView>, at: int, path: Seq<char>)
    requires
        0 <= at < units.len(),
        lists_file(units[at].headers, path),
    ensures
        lists_file(unit_headers(units), path),
    decreases units.len(),
{
    let lists = units.map_values(|u: UnitView| u.headers);
    let rest = units.drop_last();
    let rest_lists = rest.map_values(|u: UnitView| u.headers);
    assert(lists =~= rest_lists.push(units.last().headers));
    rest_lists.lemma_flatten_push(units.last().headers);
    let all = unit_headers(units);
    assert(all =~= unit_headers(rest) + units.last().headers);
    if at == units.len() - 1 {
        let j = choose|j: int|
            0 <= j < units[at].headers.len() && #[trigger] normalized(units[at].headers[j].0)
                == path;
        assert(normalized(all[unit_headers(rest).len() + j].0) == path);
    } else {
        assert(rest[at] == units[at]);
        lemma_unit_headers_hold(rest, at, path);
        let j = choose|j: int|
            0 <= j < unit_headers(rest).len() && #[trigger] normalized(unit_headers(rest)[j].0)
                == path;
        assert(normalized(all[j].0) == path);
    }
}

/// The files of units observed on one disk carry the digests of that disk.
proof fn lemma_plan_files_agree(units: Seq<UnitView>, digest_of: spec_fn(Seq<char>) -> Seq<char>)
    requires
        forall|i: int| 0 <= i < units.len() ==> observed_on(#[trigger] units[i], digest_of),
    ensures
        files_agree(plan_files(units), digest_of),
    decreases units.len(),
{
    if units.len() == 0 {
        assert(unit_headers(units) =~= Seq::<(Seq<char>, Seq<char>)>::empty());
    } else {
        let rest = units.drop_last();
        let last = units.last();
        assert forall|i: int| 0 <= i < rest.len() implies observed_on(
            #[trigger] rest[i],
            digest_of,
        ) by {
            assert(rest[i] == units[i]);
        }
        lemma_plan_files_agree(rest, digest_of);
        let rest_lists = rest.map_values(|u: UnitView| u.headers);
        assert(units.map_values(|u: UnitView| u.headers) =~= rest_lists.push(last.headers));
        rest_lists.lemma_flatten_push(last.headers);
        assert(unit_headers(units) =~= unit_headers(rest) + last.headers);
        assert(unit_sources(units) =~= unit_sources(rest).push((last.source_path, last.digest)));
        let files = plan_files(units);
        let rest_files = plan_files(rest);
        assert forall|i: int| 0 <= i < files.len() implies (#[trigger] files[i]).1 == digest_of(
            normalized(files[i].0),
        ) by {
            let n = unit_sources(rest).len() as int;
            let m = unit_headers(rest).len() as int;
            if i < n {
                assert(files[i] == rest_files[i]);
            } else if i == n {
                assert(observed_on(units[units.len() - 1], digest_of));
            } else if i < n + 1 + m {
                assert(files[i] == rest_files[i - 1]);
            } else {
                assert(observed_on(units[units.len() - 1], digest_of));
                assert(files[i] == last.headers[i - n - 1 - m]);
            }
        }
    }
}

/// A full rebuild compiles every unit, whatever is on record.
pub proof fn lemma_force_rebuild(cache: Seq<(Seq<char>, Seq<char>)>, units: Seq<UnitView>)
    ensures
        compile_plan(true, cache, units) == units,
{
    lemma_filter_keeps_all(units, |u: UnitView| needs_rebuild(true, cache, u));
}

/// Without a hash cache every unit is compiled: deleting the cache is as
/// good as asking for a full rebuild.
pub proof fn lemma_empty_cache_rebuilds_all(force: bool, units: Seq<UnitView>)
    ensures
        compile_plan(force, Seq::empty(), units) == units,
{
    lemma_filter_keeps_all(units, |u: UnitView| needs_rebuild(force, Seq::empty(), u));
}

/// Whether no two units compile to the same object file.
pub open spec fn objects_apart(units: Seq<UnitView>) -> bool {
    forall|i: int, j: int|
        0 <= i < j < units.len() ==> (#[trigger] units[i]).object_path != (
        #[trigger] units[j]).object_path
}

/// A plan never holds two units that write the same object file, where the
/// units it was made from do not: the units of a plan can be compiled side
/// by side.
pub proof fn lemma_plan_keeps_objects_apart(
    force: bool,
    cache: Seq<(Seq<char>, Seq<char>)>,
    units: Seq<UnitView>,
)
    requires
        objects_apart(units),
    ensures
        objects_apart(compile_plan(force, cache, units)),
    decreases units.len(),
{
    reveal(Seq::filter);
    let stale = |u: UnitView| needs_rebuild(force, cache, u);
    if units.len() > 0 {
        let rest = units.drop_last();
        assert forall|i: int, j: int| 0 <= i < j < rest.len() implies (#[trigger] rest[i]).object_path
            != (#[trigger] rest[j]).object_path by {
            assert(rest[i] == units[i] && rest[j] == units[j]);
        }
        lemma_plan_keeps_objects_apart(force, cache, rest);
        let before = rest.filter(stale);
        if stale(units.last()) {
            let plan = before.push(units.last());
            assert forall|i: int, j: int| 0 <= i < j < plan.len() implies (
            #[trigger] plan[i]).object_path != (#[trigger] plan[j]).object_path by {
                if j == before.len() {
                    assert(before.contains(before[i]));
                    rest.lemma_filter_contains_rev(stale, before[i]);
                    let k = choose|k: int| 0 <= k < rest.len() && rest[k] == before[i];
                    assert(units[k] == before[i]);
                    assert(units[k].object_path != units[units.len() - 1].object_path);
                } else {
                    assert(plan[i] == before[i] && plan[j] == before[j]);
                }
            }
        }
    }
}

/// Building twice in a row compiles nothing the second time. After the plan
/// of a first invocation was compiled without a failure and its digests
/// were put on record, the plan of a second invocation that asks for no full
/// rebuild and finds every object in place and every file unchanged is
/// empty.
pub proof fn lemma_second_build_is_empty(
    force: bool,
    cache: Seq<(Seq<char>, Seq<char>)>,
    units: Seq<UnitView>,
    digest_of: spec_fn(Seq<char>) -> Seq<char>,
)
    requires
        forall|i: int| 0 <= i < units.len() ==> observed_on(#[trigger] units[i], digest_of),
    ensures
        compile_plan(
            false,
            commit_files(cache, committable(compile_plan(force, cache, units), Seq::empty())),
            units.map_values(|u: UnitView| with_object(u)),
        ) == Seq::<UnitView>::empty(),
{
    let stale = |u: UnitView| needs_rebuild(force, cache, u);
    let plan = units.filter(stale);
    lemma_committable_without_failures(plan);
    let files = plan_files(plan);
    let after = commit_files(cache, files);
    let again = units.map_values(|u: UnitView| with_object(u));
    assert forall|i: int| 0 <= i < plan.len() implies observed_on(#[trigger] plan[i], digest_of) by {
        assert(plan.contains(plan[i]));
        units.lemma_filter_contains_rev(stale, plan[i]);
        let k = choose|k: int| 0 <= k < units.len() && units[k] == plan[i];
        assert(observed_on(units[k], digest_of));
    }
    lemma_plan_files_agree(plan, digest_of);
    assert forall|i: int| 0 <= i < again.len() implies !needs_rebuild(
        false,
        after,
        #[trigger] again[i],
    ) by {
        let unit = units[i];
        assert(observed_on(unit, digest_of));
        assert forall|path: Seq<char>| depends_on(unit, path) implies cached(after, path) == Some(
            digest_of(path),
        ) by {
            lemma_lookup_after_commit_files(cache, files, digest_of, path);
            if stale(unit) {
                units.lemma_filter_contains(stale, i);
                let k = choose|k: int| 0 <= k < plan.len() && plan[k] == unit;
                if normalized(unit.source_path) == path {
                    assert(normalized(files[k].0) == path);
                } else {
                    lemma_unit_headers_hold(plan, k, path);
                    let j = choose|j: int|
                        0 <= j < unit_headers(plan).len() && #[trigger] normalized(
                            unit_headers(plan)[j].0,
                        ) == path;
                    assert(normalized(files[unit_sources(plan).len() + j].0) == path);
                }
            } else {
                if normalized(unit.source_path) == path {
                    assert(!changed(cache, unit.source_path, unit.digest));
                } else {
                    let j = choose|j: int|
                        0 <= j < unit.headers.len() && #[trigger] normalized(unit.headers[j].0)
                            == path;
                    assert(!changed(cache, unit.headers[j].0, unit.headers[j].1));
                }
            }
        }
        assert(depends_on(unit, normalized(unit.source_path)));
        assert(!changed(after, unit.source_path, unit.digest));
        assert forall|j: int| 0 <= j < unit.headers.len() implies !#[trigger] changed(
            after,
            unit.headers[j].0,
            unit.headers[j].1,
        ) by {
            assert(normalized(unit.headers[j].0) == normalized(unit.headers[j].0));
            assert(depends_on(unit, normalized(unit.headers[j].0)));
        }
        assert(!header_changed(after, again[i].headers));
    }
    lemma_filter_keeps_none(again, |u: UnitView| needs_rebuild(false, after, u));
}

/// Whether a unit that was up to date is stale after the bytes of one file
/// changed: exactly when it depends on that file.
pub proof fn lemma_stale_after_change(
    cache: Seq<(Seq<char>, Seq<char>)>,
    unit: UnitView,
    digest_of: spec_fn(Seq<char>) -> Seq<char>,
    path: Seq<char>,
    digest: Seq<char>,
)
    requires
        observed_on(unit, digest_of),
        !needs_rebuild(false, cache, unit),
        digest != digest_of(path),
    ensures
        needs_rebuild(
            false,
            cache,
            observed_again(unit, after_change(digest_of, path, digest)),
        ) == depends_on(unit, path),
{
    let now = after_change(digest_of, path, digest);
    let seen = observed_again(unit, now);
    assert(!changed(cache, unit.source_path, unit.digest));
    assert forall|j: int| 0 <= j < unit.headers.len() implies (#[trigger] changed(
        cache,
        seen.headers[j].0,
        seen.headers[j].1,
    ) == (normalized(unit.headers[j].0) == path)) by {
        assert(!changed(cache, unit.headers[j].0, unit.headers[j].1));
        assert(unit.headers[j].1 == digest_of(normalized(unit.headers[j].0)));
    }
    if lists_file(unit.headers, path) {
        let j = choose|j: int|
            0 <= j < unit.headers.len() && #[trigger] normalized(unit.headers[j].0) == path;
        assert(changed(cache, seen.headers[j].0, seen.headers[j].1));
    }
    if header_changed(cache, seen.headers) {
        let j = choose|j: int|
            0 <= j < seen.headers.len() && #[trigger] changed(
                cache,
                seen.headers[j].0,
                seen.headers[j].1,
            );
        assert(normalized(unit.headers[j].0) == path);
    }
}

/// A change of one file's bytes is compiled into exactly the units that
/// depend on the file. Where every unit was up to date, and then the bytes
/// of the file `path` change and nothing else does, the next plan holds the
/// units that have `path` as their source or among their headers, and no
/// other unit.
pub proof fn lemma_change_propagation(
    cache: Seq<(Seq<char>, Seq<char>)>,
    units: Seq<UnitView>,
    digest_of: spec_fn(Seq<char>) -> Seq<char>,
    path: Seq<char>,
    digest: Seq<char>,
)
    requires
        forall|i: int| 0 <= i < units.len() ==> observed_on(#[trigger] units[i], digest_of),
        compile_plan(false, cache, units) == Seq::<UnitView>::empty(),
        digest != digest_of(path),
    ensures
        ({
            let now = after_change(digest_of, path, digest);
            let seen = units.map_values(|u: UnitView| observed_again(u, now));
            compile_plan(false, cache, seen) == seen.filter(|u: UnitView| depends_on(u, path))
        }),
{
    let now = after_change(digest_of, path, digest);
    let seen = units.map_values(|u: UnitView| observed_again(u, now));
    let stale = |u: UnitView| needs_rebuild(false, cache, u);
    assert forall|i: int| 0 <= i < seen.len() implies stale(#[trigger] seen[i]) == depends_on(
        seen[i],
        path,
    ) by {
        assert(observed_on(units[i], digest_of));
        if stale(units[i]) {
            units.lemma_filter_contains(stale, i);
        }
        lemma_stale_after_change(cache, units[i], digest_of, path, digest);
        lemma_depends_on_paths(units[i], now, path);
    }
    lemma_filter_agree(seen, stale, |u: UnitView| depends_on(u, path));
}

/// A filter that exactly one element passes keeps that element alone.
proof fn lemma_filter_keeps_one<A>(s: Seq<A>, pred: spec_fn(A) -> bool, at: int)
    requires
        0 <= at < s.len(),
        forall|i: int| 0 <= i < s.len() ==> pred(#[trigger] s[i]) == (i == at),
    ensures
        s.filter(pred) == seq![s[at]],
    decreases s.len(),
{
    reveal(Seq::filter);
    let rest = s.drop_last();
    if at == s.len() - 1 {
        assert forall|i: int| 0 <= i < rest.len() implies !pred(#[trigger] rest[i]) by {
            assert(rest[i] == s[i]);
        }
        lemma_filter_keeps_none(rest, pred);
        assert(Seq::<A>::empty().push(s.last()) =~= seq![s[at]]);
    } else {
        assert forall|i: int| 0 <= i < rest.len() implies pred(#[trigger] rest[i]) == (i
            == at) by {
            assert(rest[i] == s[i]);
        }
        lemma_filter_keeps_one(rest, pred, at);
        assert(rest[at] == s[at]);
    }
}

/// A change of one source is compiled into its own unit and into nothing
/// else. Where every unit was up to date, and then the bytes of the source
/// of one unit change, while no other unit has that file as its source or
/// among its headers, the next plan holds that unit alone.
pub proof fn lemma_source_change_propagation(
    cache: Seq<(Seq<char>, Seq<char>)>,
    units: Seq<UnitView>,
    digest_of: spec_fn(Seq<char>) -> Seq<char>,
    at: int,
    digest: Seq<char>,
)
    requires
        forall|i: int| 0 <= i < units.len() ==> observed_on(#[trigger] units[i], digest_of),
        compile_plan(false, cache, units) == Seq::<UnitView>::empty(),
        0 <= at < units.len(),
        digest != digest_of(normalized(units[at].source_path)),
        forall|i: int|
            0 <= i < units.len() && i != at ==> !depends_on(
                #[trigger] units[i],
                normalized(units[at].source_path),
            ),
    ensures
        ({
            let now = after_change(digest_of, normalized(units[at].source_path), digest);
            let seen = units.map_values(|u: UnitView| observed_again(u, now));
            compile_plan(false, cache, seen) == seq![seen[at]]
        }),
{
    let path = normalized(units[at].source_path);
    let now = after_change(digest_of, path, digest);
    let seen = units.map_values(|u: UnitView| observed_again(u, now));
    lemma_change_propagation(cache, units, digest_of, path, digest);
    let depends = |u: UnitView| depends_on(u, path);
    assert forall|i: int| 0 <= i < seen.len() implies depends(#[trigger] seen[i]) == (i == at) by {
        lemma_depends_on_paths(units[i], now, path);
    }
    lemma_filter_keeps_one(seen, depends, at);
}

/// Observing a unit again does not change which files it depends on.
proof fn lemma_depends_on_paths(
    unit: UnitView,
    digest_of: spec_fn(Seq<char>) -> Seq<char>,
    path: Seq<char>,
)
    ensures
        depends_on(observed_again(unit, digest_of), path) == depends_on(unit, path),
{
    let seen = observed_again(unit, digest_of);
    if lists_file(unit.headers, path) {
        let j = choose|j: int|
            0 <= j < unit.headers.len() && #[trigger] normalized(unit.headers[j].0) == path;
        assert(normalized(seen.headers[j].0) == path);
    }
    if lists_file(seen.headers, path) {
        let j = choose|j: int|
            0 <= j < seen.headers.len() && #[trigger] normalized(seen.headers[j].0) == path;
        assert(normalized(unit.headers[j].0) == path);
    }
}

/// A change of a header is compiled into every unit that includes it, also
/// where the unit's own source is unchanged. Where every unit was up to
/// date, and then the bytes of the header `header` change, each unit that
/// has `header` among its headers is in the next plan.
pub proof fn lemma_header_propagation(
    cache: Seq<(Seq<char>, Seq<char>)>,
    units: Seq<UnitView>,
    digest_of: spec_fn(Seq<char>) -> Seq<char>,
    header: Seq<char>,
    digest: Seq<char>,
    at: int,
)
    requires
        forall|i: int| 0 <= i < units.len() ==> observed_on(#[trigger] units[i], digest_of),
        compile_plan(false, cache, units) == Seq::<UnitView>::empty(),
        digest != digest_of(header),
        0 <= at < units.len(),
        lists_file(units[at].headers, header),
    ensures
        ({
            let now = after_change(digest_of, header, digest);
            let seen = units.map_values(|u: UnitView| observed_again(u, now));
            compile_plan(false, cache, seen).contains(seen[at])
        }),
{
    let now = after_change(digest_of, header, digest);
    let seen = units.map_values(|u: UnitView| observed_again(u, now));
    let stale = |u: UnitView| needs_rebuild(false, cache, u);
    assert(observed_on(units[at], digest_of));
    if stale(units[at]) {
        units.lemma_filter_contains(stale, at);
    }
    lemma_stale_after_change(cache, units[at], digest_of, header, digest);
    seen.lemma_filter_contains(stale, at);
}

/// Where no unit failed, every file of the plan goes on record.
pub proof fn lemma_committable_without_failures(plan: Seq<UnitView>)
    ensures
        committable(plan, Seq::empty()) == plan_files(plan),
{
    let none = Seq::<Seq<char>>::empty();
    lemma_filter_keeps_all(plan, |u: UnitView| has_failed(u, none) == false);
    lemma_filter_keeps_none(plan, |u: UnitView| has_failed(u, none) == true);
    let failed_units = units_where(plan, none, true);
    assert(unit_headers(failed_units) =~= Seq::<(Seq<char>, Seq<char>)>::empty());
    assert(plan_files(failed_units) =~= Seq::<(Seq<char>, Seq<char>)>::empty());
    let held = held_paths(plan, none);
    assert(held =~= Seq::<Seq<char>>::empty());
    lemma_filter_keeps_all(
        plan_files(plan),
        |f: (Seq<char>, Seq<char>)| !held.contains(normalized(f.0)),
    );
}

/// The headers of a list of units come from its units.
proof fn lemma_unit_headers_from(units: Seq<UnitView>, path: Seq<char>)
    requires
        lists_file(unit_headers(units), path),
    ensures
        exists|k: int| 0 <= k < units.len() && lists_file((#[trigger] units[k]).headers, path),
    decreases units.len(),
{
    if units.len() == 0 {
        assert(unit_headers(units) =~= Seq::<(Seq<char>, Seq<char>)>::empty());
    } else {
        let rest = units.drop_last();
        let last = units.last();
        let rest_lists = rest.map_values(|u: UnitView| u.headers);
        assert(units.map_values(|u: UnitView| u.headers) =~= rest_lists.push(last.headers));
        rest_lists.lemma_flatten_push(last.headers);
        let all = unit_headers(units);
        assert(all =~= unit_headers(rest) + last.headers);
        let m = choose|m: int| 0 <= m < all.len() && #[trigger] normalized(all[m].0) == path;
        let n = unit_headers(rest).len() as int;
        if m < n {
            assert(normalized(unit_headers(rest)[m].0) == path);
            lemma_unit_headers_from(rest, path);
            let k = choose|k: int|
                0 <= k < rest.len() && lists_file((#[trigger] rest[k]).headers, path);
            assert(units[k] == rest[k]);
        } else {
            assert(normalized(last.headers[m - n].0) == path);
            assert(lists_file(units[units.len() - 1].headers, path));
        }
    }
}

/// The files of a list of units hold every file that one of them depends
/// on, and no other.
proof fn lemma_plan_files_of_units(units: Seq<UnitView>, path: Seq<char>)
    ensures
        lists_file(plan_files(units), path) <==> exists|k: int|
            0 <= k < units.len() && depends_on(#[trigger] units[k], path),
{
    let files = plan_files(units);
    let n = unit_sources(units).len() as int;
    if lists_file(files, path) {
        let m = choose|m: int| 0 <= m < files.len() && #[trigger] normalized(files[m].0) == path;
        if m < n {
            assert(depends_on(units[m], path));
        } else {
            assert(normalized(unit_headers(units)[m - n].0) == path);
            lemma_unit_headers_from(units, path);
            let k = choose|k: int|
                0 <= k < units.len() && lists_file((#[trigger] units[k]).headers, path);
            assert(depends_on(units[k], path));
        }
    }
    if exists|k: int| 0 <= k < units.len() && depends_on(#[trigger] units[k], path) {
        let k = choose|k: int| 0 <= k < units.len() && depends_on(#[trigger] units[k], path);
        if normalized(units[k].source_path) == path {
            assert(normalized(files[k].0) == path);
        } else {
            lemma_unit_headers_hold(units, k, path);
            let j = choose|j: int|
                0 <= j < unit_headers(units).len() && #[trigger] normalized(
                    unit_headers(units)[j].0,
                ) == path;
            assert(normalized(files[n + j].0) == path);
        }
    }
}

/// A path is held back exactly when a failed unit of the plan depends on
/// it.
pub proof fn lemma_held_paths(plan: Seq<UnitView>, failed: Seq<Seq<char>>, path: Seq<char>)
    ensures
        held_paths(plan, failed).contains(path) <==> exists|i: int|
            0 <= i < plan.len() && has_failed(#[trigger] plan[i], failed) && depends_on(
                plan[i],
                path,
            ),
{
    let failing = |u: UnitView| has_failed(u, failed) == true;
    let units = plan.filter(failing);
    let files = plan_files(units);
    let held = held_paths(plan, failed);
    lemma_plan_files_of_units(units, path);
    if held.contains(path) {
        let m = choose|m: int| 0 <= m < held.len() && held[m] == path;
        assert(normalized(files[m].0) == path);
        let k = choose|k: int| 0 <= k < units.len() && depends_on(#[trigger] units[k], path);
        plan.lemma_filter_pred(failing, k);
        assert(units.contains(units[k]));
        plan.lemma_filter_contains_rev(failing, units[k]);
        let i = choose|i: int| 0 <= i < plan.len() && plan[i] == units[k];
        assert(has_failed(plan[i], failed) && depends_on(plan[i], path));
    }
    if exists|i: int|
        0 <= i < plan.len() && has_failed(#[trigger] plan[i], failed) && depends_on(plan[i], path) {
        let i = choose|i: int|
            0 <= i < plan.len() && has_failed(#[trigger] plan[i], failed) && depends_on(
                plan[i],
                path,
            );
        plan.lemma_filter_contains(failing, i);
        let k = choose|k: int| 0 <= k < units.len() && units[k] == plan[i];
        assert(depends_on(units[k], path));
        let m = choose|m: int| 0 <= m < files.len() && #[trigger] normalized(files[m].0) == path;
        assert(held[m] == path);
    }
}

/// A unit whose compilation failed stays stale. After a compile pass, what
/// is on record for each file that a failed unit depends on is what was on
/// record before; so the unit is in the plan of the next invocation if its
/// source or one of its headers put it into this one.
pub proof fn lemma_failed_unit_stays_stale(
    cache: Seq<(Seq<char>, Seq<char>)>,
    plan: Seq<UnitView>,
    failed: Seq<Seq<char>>,
    at: int,
)
    requires
        0 <= at < plan.len(),
        has_failed(plan[at], failed),
    ensures
        forall|path: Seq<char>| #[trigger]
            depends_on(plan[at], path) ==> cached(
                commit_files(cache, committable(plan, failed)),
                path,
            ) == cached(cache, path),
        needs_rebuild(false, cache, plan[at]) ==> needs_rebuild(
            false,
            commit_files(cache, committable(plan, failed)),
            plan[at],
        ),
{
    let unit = plan[at];
    let files = committable(plan, failed);
    let after = commit_files(cache, files);
    let held = held_paths(plan, failed);
    let keep = |f: (Seq<char>, Seq<char>)| !held.contains(normalized(f.0));
    let compiled = plan_files(units_where(plan, failed, false));
    assert forall|path: Seq<char>| #[trigger] depends_on(unit, path) implies cached(after, path)
        == cached(cache, path) by {
        lemma_held_paths(plan, failed, path);
        assert(has_failed(plan[at], failed) && depends_on(plan[at], path));
        if lists_file(files, path) {
            let i = choose|i: int| 0 <= i < files.len() && #[trigger] normalized(files[i].0) == path;
            compiled.lemma_filter_pred(keep, i);
        }
        lemma_commit_leaves_others(cache, files, path);
    }
    if needs_rebuild(false, cache, unit) {
        if !unit.object_exists {
        } else if changed(cache, unit.source_path, unit.digest) {
            assert(depends_on(unit, normalized(unit.source_path)));
        } else {
            let j = choose|j: int|
                0 <= j < unit.headers.len() && #[trigger] changed(
                    cache,
                    unit.headers[j].0,
                    unit.headers[j].1,
                );
            assert(normalized(unit.headers[j].0) == normalized(unit.headers[j].0));
            assert(depends_on(unit, normalized(unit.headers[j].0)));
            assert(changed(after, unit.headers[j].0, unit.headers[j].1));
        }
    }
}

/// A unit that compiled is up to date afterwards, though another unit of
/// the plan failed, as long as it shares no file with a failed unit: with
/// its object in place it is not in the plan of the next invocation.
pub proof fn lemma_compiled_unit_is_up_to_date(
    cache: Seq<(Seq<char>, Seq<char>)>,
    plan: Seq<UnitView>,
    failed: Seq<Seq<char>>,
    digest_of: spec_fn(Seq<char>) -> Seq<char>,
    at: int,
)
    requires
        forall|i: int| 0 <= i < plan.len() ==> observed_on(#[trigger] plan[i], digest_of),
        0 <= at < plan.len(),
        !has_failed(plan[at], failed),
        forall|i: int, path: Seq<char>|
            0 <= i < plan.len() && has_failed(plan[i], failed) && #[trigger] depends_on(
                plan[i],
                path,
            ) ==> !depends_on(plan[at], path),
    ensures
        !needs_rebuild(
            false,
            commit_files(cache, committable(plan, failed)),
            with_object(plan[at]),
        ),
{
    let unit = plan[at];
    let files = committable(plan, failed);
    let after = commit_files(cache, files);
    let held = held_paths(plan, failed);
    let keep = |f: (Seq<char>, Seq<char>)| !held.contains(normalized(f.0));
    let succeeded = |u: UnitView| has_failed(u, failed) == false;
    let units = plan.filter(succeeded);
    let compiled = plan_files(units);
    assert forall|i: int| 0 <= i < units.len() implies observed_on(#[trigger] units[i], digest_of) by {
        assert(units.contains(units[i]));
        plan.lemma_filter_contains_rev(succeeded, units[i]);
        let k = choose|k: int| 0 <= k < plan.len() && plan[k] == units[i];
        assert(observed_on(plan[k], digest_of));
    }
    lemma_plan_files_agree(units, digest_of);
    assert forall|i: int| 0 <= i < files.len() implies (#[trigger] files[i]).1 == digest_of(
        normalized(files[i].0),
    ) by {
        assert(files.contains(files[i]));
        compiled.lemma_filter_contains_rev(keep, files[i]);
        let m = choose|m: int| 0 <= m < compiled.len() && compiled[m] == files[i];
        assert(compiled[m].1 == digest_of(normalized(compiled[m].0)));
    }
    assert(observed_on(unit, digest_of));
    assert forall|path: Seq<char>| depends_on(unit, path) implies cached(after, path) == Some(
        digest_of(path),
    ) by {
        lemma_held_paths(plan, failed, path);
        assert(!held.contains(path)) by {
            if held.contains(path) {
                let i = choose|i: int|
                    0 <= i < plan.len() && has_failed(#[trigger] plan[i], failed) && depends_on(
                        plan[i],
                        path,
                    );
                assert(!depends_on(plan[at], path));
            }
        }
        plan.lemma_filter_contains(succeeded, at);
        let k = choose|k: int| 0 <= k < units.len() && units[k] == unit;
        lemma_plan_files_of_units(units, path);
        assert(depends_on(units[k], path));
        let m = choose|m: int|
            0 <= m < compiled.len() && #[trigger] normalized(compiled[m].0) == path;
        assert(keep(compiled[m]));
        compiled.lemma_filter_contains(keep, m);
        let n = choose|n: int| 0 <= n < files.len() && files[n] == compiled[m];
        assert(normalized(files[n].0) == path);
        lemma_lookup_after_commit_files(cache, files, digest_of, path);
    }
    assert(depends_on(unit, normalized(unit.source_path)));
    assert(!changed(after, unit.source_path, unit.digest));
    assert forall|j: int| 0 <= j < unit.headers.len() implies !#[trigger] changed(
        after,
        unit.headers[j].0,
        unit.headers[j].1,
    ) by {
        assert(normalized(unit.headers[j].0) == normalized(unit.headers[j].0));
        assert(depends_on(unit, normalized(unit.headers[j].0)));
    }
    assert(!header_changed(after, with_object(unit).headers));
}

} // verus!
