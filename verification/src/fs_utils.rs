//! Paths as text, and the fixed layout of a project's directories.
//!
//! A path is a string in forward-slash form. Joining, splitting and
//! normalising are defined on its characters, component by component, as
//! paths are read where the slash is the only separator: a component is what
//! stands between two slashes, a `.` component names nothing, the file name
//! of a path is its last component that names something, and a path is
//! absolute when it begins with a slash.

use vstd::prelude::*;
use crate::config::{output_profile, BuildProfile, Config, Forge};
use crate::text::{
    chars_of, concat2, concat3, contains_text, last_index_of, lemma_last_index_of, opt_text,
    str_contains_char, str_eq, string_of_range, texts,
};

verus! {

/// What looking for a file on disk found.
#[derive(Debug, Clone, PartialEq)]
pub enum FileProbe {
    /// Nothing is there, or what is there is no regular file.
    Missing,
    /// A regular file is there, but resolving its path failed with this
    /// message.
    Unresolvable(String),
    /// A regular file is there.
    Regular,
}

/// Why a file could not be located.
#[derive(Debug, PartialEq)]
pub enum FileError {
    FileNotFound(String),
    FileError(String),
    CwdError(String),
}

/// One entry of a directory listing.
#[derive(Debug, Clone, PartialEq)]
pub struct DirEntry {
    /// The entry's name inside the directory.
    pub name: String,
    /// Whether the entry is a regular file.
    pub is_file: bool,
}

/// The lists of the project file that discovery adds to.
#[derive(Debug, Clone, Copy, PartialEq, Eq, Structural)]
pub enum BuildField {
    Src,
    IncludeDirs,
}

/// Whether the component of `path` that begins at `at` is `.`: a dot that
/// the end of the path or a slash follows.
pub open spec fn is_dot_at(path: Seq<char>, at: int) -> bool {
    path[at] == '.' && (at + 1 == path.len() || path[at + 1] == '/')
}

/// The number of characters at the start of `path` that are slashes or `.`
/// components: what stands before the first component that names something.
pub open spec fn front_trim(path: Seq<char>) -> nat
    decreases path.len(),
{
    if path.len() == 0 {
        0
    } else if path[0] == '/' || is_dot_at(path, 0) {
        1 + front_trim(path.skip(1))
    } else {
        0
    }
}

/// The number of characters at the end of `path` that are slashes or `.`
/// components: what stands after the last component that names something.
pub open spec fn back_trim(path: Seq<char>) -> nat
    decreases path.len(),
{
    if path.len() == 0 {
        0
    } else if path.last() == '/' || (path.last() == '.' && (path.len() == 1 || path[path.len()
        - 2] == '/')) {
        1 + back_trim(path.drop_last())
    } else {
        0
    }
}

/// `path` without the slashes and `.` components at its end.
pub open spec fn without_back(path: Seq<char>) -> Seq<char> {
    path.take(path.len() - back_trim(path))
}

/// `path` without the slashes and `.` components at its start and at its
/// end.
pub open spec fn without_edges(path: Seq<char>) -> Seq<char> {
    without_back(path.skip(front_trim(path) as int))
}

/// Whether the first component of `path` is `.`.
pub open spec fn starts_with_cur_dir(path: Seq<char>) -> bool {
    path.len() > 0 && is_dot_at(path, 0)
}

/// `path` without a leading `.` component. What follows that component is
/// taken from its first to its last component that names something; a path
/// that begins otherwise stays as it is.
pub open spec fn without_cur_dir(path: Seq<char>) -> Seq<char> {
    if starts_with_cur_dir(path) {
        without_edges(path.skip(1))
    } else {
        path
    }
}

/// `path` without a leading `\\?\`, the prefix of a verbatim path.
pub open spec fn without_verbatim(path: Seq<char>) -> Seq<char> {
    if "\\\\?\\"@.is_prefix_of(path) {
        path.skip(4)
    } else {
        path
    }
}

/// `c`, or a slash where `c` is a backslash.
pub open spec fn forward_slash(c: char) -> char {
    if c == '\\' {
        '/'
    } else {
        c
    }
}

/// `path` with every backslash turned into a slash.
pub open spec fn forward_slashes(path: Seq<char>) -> Seq<char> {
    path.map_values(|c: char| forward_slash(c))
}

/// The normal form of a path: a leading `.` component is dropped, then a
/// leading `\\?\`, and every backslash becomes a slash.
pub open spec fn normalized(path: Seq<char>) -> Seq<char> {
    forward_slashes(without_verbatim(without_cur_dir(path)))
}

/// Whether `path` begins at the root.
pub open spec fn is_absolute(path: Seq<char>) -> bool {
    path.len() > 0 && path[0] == '/'
}

/// `name` seen from the directory `base`: an absolute `name` stands for
/// itself; otherwise it follows `base`, with one slash between the two
/// unless `base` is empty or ends with one.
pub open spec fn joined_path(base: Seq<char>, name: Seq<char>) -> Seq<char> {
    if is_absolute(name) {
        name
    } else if base.len() == 0 || base.last() == '/' {
        base + name
    } else {
        base + seq!['/'] + name
    }
}

/// The last component of `path`: what follows the last slash, once the
/// slashes and `.` components at the end of `path` are set aside.
pub open spec fn file_name_of(path: Seq<char>) -> Seq<char> {
    let named = without_back(path);
    named.skip(last_index_of(named, '/') + 1)
}

/// Where a file name parts into stem and extension: at its last dot, unless
/// it has none or its only dot comes first; then at its end.
pub open spec fn split_point(name: Seq<char>) -> int {
    let dot = last_index_of(name, '.');
    if dot <= 0 {
        name.len() as int
    } else {
        dot
    }
}

/// Whether `path` has a file name: its last component is neither empty nor
/// `..`.
pub open spec fn has_file_name(path: Seq<char>) -> bool {
    file_name_of(path).len() > 0 && file_name_of(path) != ".."@
}

/// The file name of `path` without its extension, where `path` has a file
/// name.
pub open spec fn file_stem_of(path: Seq<char>) -> Option<Seq<char>> {
    let name = file_name_of(path);
    if has_file_name(path) {
        Some(name.take(split_point(name)))
    } else {
        None
    }
}

/// The extension of the file name of `path`: what follows its last dot,
/// unless the name has no dot, its only dot comes first, or `path` has no
/// file name.
pub open spec fn extension_of(path: Seq<char>) -> Option<Seq<char>> {
    let name = file_name_of(path);
    if has_file_name(path) && split_point(name) < name.len() {
        Some(name.skip(split_point(name) + 1))
    } else {
        None
    }
}

/// The number of characters at the start of `path` that no trimming takes
/// away: the slash of an absolute path, or the dot of a path that begins
/// with a `.` component.
pub open spec fn anchor_len(path: Seq<char>) -> int {
    if is_absolute(path) || starts_with_cur_dir(path) {
        1
    } else {
        0
    }
}

/// The directory that `path` lies in: `path` without its last component and
/// what separates the two. The root, the empty path and a path of slashes
/// and dots alone lie in no directory, but that `.` lies in the directory
/// without a name.
pub open spec fn parent_of(path: Seq<char>) -> Option<Seq<char>> {
    let anchor = anchor_len(path);
    let named = without_back(path.skip(anchor));
    if named.len() == 0 {
        if starts_with_cur_dir(path) {
            Some(Seq::empty())
        } else {
            None
        }
    } else {
        let before = named.take(last_index_of(named, '/') + 1);
        Some(path.take(anchor) + without_back(before))
    }
}

/// The length of the first component of `path`: the number of characters
/// before its first slash.
pub open spec fn component_len(path: Seq<char>) -> nat
    decreases path.len(),
{
    if path.len() == 0 || path[0] == '/' {
        0
    } else {
        1 + component_len(path.skip(1))
    }
}

/// What is left of `path` after the components of `base`, where `path`
/// begins with them. The two are compared component by component, so that
/// slashes and `.` components between the components count for nothing;
/// what is left runs from the first to the last component that names
/// something.
pub open spec fn after_components(path: Seq<char>, base: Seq<char>) -> Option<Seq<char>>
    decreases base.len(),
{
    let rest = path.skip(front_trim(path) as int);
    let left = base.skip(front_trim(base) as int);
    let n = component_len(left) as int;
    if left.len() == 0 {
        Some(without_back(rest))
    } else if rest.len() == 0 {
        None
    } else if component_len(rest) == n && rest.take(n) == left.take(n) {
        proof {
            lemma_front_trim(base);
            lemma_component_len(left);
        }
        after_components(rest.skip(n), left.skip(n))
    } else {
        None
    }
}

/// `front_trim` stops inside the path, before a character that begins a
/// component.
pub proof fn lemma_front_trim(path: Seq<char>)
    ensures
        front_trim(path) <= path.len(),
        front_trim(path) < path.len() ==> path[front_trim(path) as int] != '/',
    decreases path.len(),
{
    if path.len() > 0 && (path[0] == '/' || is_dot_at(path, 0)) {
        let rest = path.skip(1);
        lemma_front_trim(rest);
        if front_trim(rest) < rest.len() {
            assert(rest[front_trim(rest) as int] == path[front_trim(path) as int]);
        }
    }
}

/// A component ends inside the path, and is not empty where the path begins
/// with another character than a slash.
pub proof fn lemma_component_len(path: Seq<char>)
    ensures
        component_len(path) <= path.len(),
        path.len() > 0 && path[0] != '/' ==> component_len(path) > 0,
    decreases path.len(),
{
    if path.len() > 0 && path[0] != '/' {
        lemma_component_len(path.skip(1));
    }
}

/// `back_trim` never reaches past the start of the path.
pub proof fn lemma_back_trim(path: Seq<char>)
    ensures
        back_trim(path) <= path.len(),
    decreases path.len(),
{
    if path.len() > 0 {
        lemma_back_trim(path.drop_last());
    }
}

/// Whether the characters of `s` from `offset` on begin with `prefix`.
fn starts_with_at(s: &Vec<char>, offset: usize, prefix: &Vec<char>) -> (found: bool)
    requires
        offset <= s.len(),
    ensures
        found == prefix@.is_prefix_of(s@.skip(offset as int)),
{
    if prefix.len() > s.len() - offset {
        return false;
    }
    let mut i: usize = 0;
    while i < prefix.len()
        invariant
            offset <= s.len(),
            prefix.len() <= s.len() - offset,
            i <= prefix.len(),
            forall|j: int| 0 <= j < i ==> s@[offset + j] == prefix@[j],
        decreases prefix.len() - i,
    {
        if s[offset + i] != prefix[i] {
            assert(s@.skip(offset as int).subrange(0, prefix@.len() as int)[i as int]
                != prefix@[i as int]);
            return false;
        }
        i += 1;
    }
    assert(prefix@ =~= s@.skip(offset as int).subrange(0, prefix@.len() as int));
    true
}

/// The position of the first character of `chars`, from `from` on, that is
/// neither a slash nor a `.` component.
fn skip_front(chars: &Vec<char>, from: usize) -> (to: usize)
    requires
        from <= chars.len(),
    ensures
        from <= to <= chars.len(),
        to - from == front_trim(chars@.skip(from as int)),
        to < chars.len() ==> chars@[to as int] != '/',
{
    let mut i: usize = from;
    while i < chars.len() && (chars[i] == '/' || (chars[i] == '.' && (i + 1 == chars.len()
        || chars[i + 1] == '/')))
        invariant
            from <= i <= chars.len(),
            front_trim(chars@.skip(from as int)) == (i - from) + front_trim(chars@.skip(i as int)),
        decreases chars.len() - i,
    {
        proof {
            let rest = chars@.skip(i as int);
            assert(rest[0] == chars@[i as int]);
            if i + 1 < chars.len() {
                assert(rest[1] == chars@[i + 1]);
            }
            assert(rest.skip(1) =~= chars@.skip(i + 1));
        }
        i += 1;
    }
    proof {
        let rest = chars@.skip(i as int);
        if i < chars.len() {
            assert(rest[0] == chars@[i as int]);
            if i + 1 < chars.len() {
                assert(rest[1] == chars@[i + 1]);
            }
        }
    }
    i
}

/// The position after the last character of `chars[from..end]` that is
/// neither a slash nor a `.` component.
fn skip_back(chars: &Vec<char>, from: usize, end: usize) -> (to: usize)
    requires
        from <= end <= chars.len(),
    ensures
        from <= to <= end,
        end - to == back_trim(chars@.subrange(from as int, end as int)),
{
    let mut e: usize = end;
    while e > from && (chars[e - 1] == '/' || (chars[e - 1] == '.' && (e - 1 == from || chars[e
        - 2] == '/')))
        invariant
            from <= e <= end <= chars.len(),
            back_trim(chars@.subrange(from as int, end as int)) == (end - e) + back_trim(
                chars@.subrange(from as int, e as int),
            ),
        decreases e,
    {
        proof {
            let part = chars@.subrange(from as int, e as int);
            assert(part.last() == chars@[e - 1]);
            if e - 1 > from {
                assert(part[part.len() - 2] == chars@[e - 2]);
            }
            assert(part.drop_last() =~= chars@.subrange(from as int, e - 1));
        }
        e -= 1;
    }
    proof {
        let part = chars@.subrange(from as int, e as int);
        if e > from {
            assert(part.last() == chars@[e - 1]);
            if e - 1 > from {
                assert(part[part.len() - 2] == chars@[e - 2]);
            }
        }
    }
    e
}

/// The position after the component of `chars` that begins at `from`.
fn component_end(chars: &Vec<char>, from: usize) -> (to: usize)
    requires
        from <= chars.len(),
    ensures
        from <= to <= chars.len(),
        to - from == component_len(chars@.skip(from as int)),
{
    let mut i: usize = from;
    while i < chars.len() && chars[i] != '/'
        invariant
            from <= i <= chars.len(),
            component_len(chars@.skip(from as int)) == (i - from) + component_len(
                chars@.skip(i as int),
            ),
        decreases chars.len() - i,
    {
        proof {
            assert(chars@.skip(i as int)[0] == chars@[i as int]);
            assert(chars@.skip(i as int).skip(1) =~= chars@.skip(i + 1));
        }
        i += 1;
    }
    proof {
        if i < chars.len() {
            assert(chars@.skip(i as int)[0] == chars@[i as int]);
        }
    }
    i
}

/// Whether `a[at..at + len]` and `b[from..from + len]` hold the same text.
fn same_range(a: &Vec<char>, at: usize, b: &Vec<char>, from: usize, len: usize) -> (same: bool)
    requires
        at + len <= a.len(),
        from + len <= b.len(),
    ensures
        same == (a@.subrange(at as int, at + len) == b@.subrange(from as int, from + len)),
{
    let mut i: usize = 0;
    while i < len
        invariant
            i <= len,
            at + len <= a.len(),
            from + len <= b.len(),
            forall|j: int|
                0 <= j < i ==> (#[trigger] a@.subrange(at as int, at + len)[j]) == b@.subrange(
                    from as int,
                    from + len,
                )[j],
        decreases len - i,
    {
        if a[at + i] != b[from + i] {
            assert(a@.subrange(at as int, at + len)[i as int] != b@.subrange(
                from as int,
                from + len,
            )[i as int]);
            return false;
        }
        i += 1;
    }
    assert(a@.subrange(at as int, at + len) =~= b@.subrange(from as int, from + len));
    true
}

/// The part of the absolute path `path` that follows the components of the
/// absolute path `base`, as positions in `path`, where `path` begins with
/// those components.
pub(crate) fn strip_components(path: &Vec<char>, base: &Vec<char>) -> (left: Option<(usize, usize)>)
    requires
        path.len() >= 1,
        base.len() >= 1,
    ensures
        match left {
            Some(range) => range.0 <= range.1 <= path.len() && after_components(
                path@.skip(1),
                base@.skip(1),
            ) == Some(path@.subrange(range.0 as int, range.1 as int)),
            None => after_components(path@.skip(1), base@.skip(1)) is None,
        },
{
    let ghost goal = after_components(path@.skip(1), base@.skip(1));
    let mut i: usize = 1;
    let mut j: usize = 1;
    loop
        invariant
            1 <= i <= path.len(),
            1 <= j <= base.len(),
            after_components(path@.skip(i as int), base@.skip(j as int)) == goal,
            goal == after_components(path@.skip(1), base@.skip(1)),
        decreases base.len() - j,
    {
        let ghost here = path@.skip(i as int);
        let ghost there = base@.skip(j as int);
        let a = skip_front(path, i);
        let b = skip_front(base, j);
        proof {
            assert(here.skip(front_trim(here) as int) =~= path@.skip(a as int));
            assert(there.skip(front_trim(there) as int) =~= base@.skip(b as int));
        }
        if b == base.len() {
            let end = skip_back(path, a, path.len());
            proof {
                assert(path@.subrange(a as int, path.len() as int) =~= path@.skip(a as int));
                assert(path@.skip(a as int).take(end - a) =~= path@.subrange(a as int, end as int));
            }
            return Some((a, end));
        }
        if a == path.len() {
            return None;
        }
        let a_end = component_end(path, a);
        let b_end = component_end(base, b);
        proof {
            let rest = path@.skip(a as int);
            let left = base@.skip(b as int);
            assert(left[0] == base@[b as int]);
            lemma_component_len(left);
            assert(rest.take(a_end - a) =~= path@.subrange(a as int, a_end as int));
            assert(left.take(b_end - b) =~= base@.subrange(b as int, b_end as int));
            assert(rest.skip(a_end - a) =~= path@.skip(a_end as int));
            assert(left.skip(b_end - b) =~= base@.skip(b_end as int));
        }
        if a_end - a != b_end - b {
            return None;
        }
        if !same_range(path, a, base, b, b_end - b) {
            return None;
        }
        i = a_end;
        j = b_end;
    }
}

/// The position after the last character of `chars`, from `from` on, that
/// is neither a slash nor a `.` component.
pub(crate) fn trim_back(chars: &Vec<char>, from: usize) -> (to: usize)
    requires
        from <= chars.len(),
    ensures
        from <= to <= chars.len(),
        chars.len() - to == back_trim(chars@.subrange(from as int, chars.len() as int)),
{
    skip_back(chars, from, chars.len())
}

/// A copy of `chars[from..to]`.
fn copy_range(chars: &Vec<char>, from: usize, to: usize) -> (copy: Vec<char>)
    requires
        from <= to <= chars.len(),
    ensures
        copy@ == chars@.subrange(from as int, to as int),
{
    let mut copy: Vec<char> = Vec::new();
    let mut i: usize = from;
    while i < to
        invariant
            from <= i <= to <= chars.len(),
            copy@ == chars@.subrange(from as int, i as int),
        decreases to - i,
    {
        copy.push(chars[i]);
        i += 1;
        assert(copy@ =~= chars@.subrange(from as int, i as int));
    }
    copy
}

/// The characters of `path` without a leading `.` component.
fn strip_cur_dir(path: &str) -> (kept: Vec<char>)
    ensures
        kept@ == without_cur_dir(path@),
{
    let all = chars_of(path);
    let n: usize = all.len();
    if n > 0 && all[0] == '.' && (n == 1 || all[1] == '/') {
        let lo = skip_front(&all, 1);
        let hi = skip_back(&all, lo, n);
        proof {
            let rest = all@.skip(1);
            assert(rest.skip(front_trim(rest) as int) =~= all@.subrange(lo as int, n as int));
            assert(all@.subrange(lo as int, n as int).take(hi - lo) =~= all@.subrange(
                lo as int,
                hi as int,
            ));
        }
        copy_range(&all, lo, hi)
    } else {
        all
    }
}

/// The normal form of `path`.
pub fn normalize_path(path: &str) -> (normal: String)
    ensures
        normal@ == normalized(path@),
{
    let chars = strip_cur_dir(path);
    let verbatim = chars_of("\\\\?\\");
    proof {
        reveal_strlit("\\\\?\\");
    }
    let mut start: usize = 0;
    assert(chars@.skip(0) =~= chars@);
    if starts_with_at(&chars, 0, &verbatim) {
        start = 4;
    }
    let ghost kept = without_verbatim(without_cur_dir(path@));
    assert(chars@.skip(start as int) == kept);
    let mut normal = String::new();
    let mut i: usize = start;
    while i < chars.len()
        invariant
            start <= i <= chars.len(),
            chars@.skip(start as int) == kept,
            normal@ == forward_slashes(kept.take(i - start)),
        decreases chars.len() - i,
    {
        let c = chars[i];
        assert(kept[i - start] == c);
        if c == '\\' {
            normal.push('/');
        } else {
            normal.push(c);
        }
        i += 1;
        assert(normal@ =~= forward_slashes(kept.take(i - start)));
    }
    assert(kept.take(i - start) =~= kept);
    normal
}

/// Whether `path` begins at the root.
pub fn is_absolute_path(path: &str) -> (absolute: bool)
    ensures
        absolute == is_absolute(path@),
{
    let chars = chars_of(path);
    chars.len() > 0 && chars[0] == '/'
}

/// `name` seen from the directory `base`.
pub fn join_path(base: &str, name: &str) -> (path: String)
    ensures
        path@ == joined_path(base@, name@),
{
    if is_absolute_path(name) {
        return String::from_str(name);
    }
    let base_chars = chars_of(base);
    if base_chars.len() == 0 || base_chars[base_chars.len() - 1] == '/' {
        concat2(base, name)
    } else {
        proof {
            reveal_strlit("/");
            assert("/"@ =~= seq!['/']);
        }
        concat3(base, "/", name)
    }
}

/// The position of the last `c` at or after `from` in `s`, if there is one.
fn rfind(s: &Vec<char>, from: usize, c: char) -> (found: Option<usize>)
    requires
        from <= s.len(),
    ensures
        match found {
            Some(i) => from <= i < s.len() && i - from == last_index_of(s@.skip(from as int), c),
            None => last_index_of(s@.skip(from as int), c) == -1,
        },
{
    let ghost tail = s@.skip(from as int);
    let mut i: usize = s.len();
    while i > from
        invariant
            from <= i <= s.len(),
            tail == s@.skip(from as int),
            forall|j: int| i <= j < s.len() ==> s@[j] != c,
        decreases i,
    {
        i -= 1;
        if s[i] == c {
            proof {
                lemma_last_index_of(tail, c);
                let k = last_index_of(tail, c);
                assert(tail[i - from] == c);
                if k > i - from {
                    assert(tail[k] == s@[from + k]);
                }
            }
            return Some(i);
        }
    }
    proof {
        lemma_last_index_of(tail, c);
        let k = last_index_of(tail, c);
        if k >= 0 {
            assert(tail[k] == s@[from + k]);
        }
    }
    None
}

/// The directory that `path` lies in, if it lies in one.
pub fn parent_dir(path: &str) -> (dir: Option<String>)
    ensures
        opt_text(dir) == parent_of(path@),
{
    let chars = chars_of(path);
    let n: usize = chars.len();
    let cur = n > 0 && chars[0] == '.' && (n == 1 || chars[1] == '/');
    let anchor: usize = if n > 0 && (chars[0] == '/' || cur) {
        1
    } else {
        0
    };
    let end = skip_back(&chars, anchor, n);
    let ghost body = path@.skip(anchor as int);
    proof {
        assert(chars@.subrange(anchor as int, n as int) =~= body);
        assert(chars@.subrange(anchor as int, end as int) =~= without_back(body));
    }
    if end == anchor {
        return if cur {
            Some(String::new())
        } else {
            None
        };
    }
    let named = copy_range(&chars, anchor, end);
    assert(named@.skip(0) =~= named@);
    let cut: usize = match rfind(&named, 0, '/') {
        Some(slash) => slash + 1,
        None => 0,
    };
    let stop = skip_back(&chars, anchor, anchor + cut);
    let dir = string_of_range(&chars, 0, stop);
    proof {
        let before = named@.take(cut as int);
        assert(chars@.subrange(anchor as int, anchor + cut) =~= before);
        assert(chars@.subrange(anchor as int, stop as int) =~= without_back(before));
        assert(chars@.subrange(0, stop as int) =~= path@.take(anchor as int) + without_back(
            before,
        ));
    }
    Some(dir)
}

/// The file name of `path` and the place where it parts into stem and
/// extension, where `path` has a file name.
fn split_file_name(path: &str) -> (parts: Option<(Vec<char>, usize)>)
    ensures
        parts is Some == has_file_name(path@),
        parts matches Some(found) ==> found.0@ == file_name_of(path@) && found.1 == split_point(
            found.0@,
        ) && 0 < found.1 <= found.0@.len(),
{
    let chars = chars_of(path);
    let end = skip_back(&chars, 0, chars.len());
    let named = copy_range(&chars, 0, end);
    proof {
        assert(chars@.subrange(0, chars.len() as int) =~= chars@);
        assert(chars@.subrange(0, end as int) =~= without_back(path@));
    }
    let start: usize = match rfind(&named, 0, '/') {
        Some(slash) => slash + 1,
        None => 0,
    };
    assert(named@.skip(0) =~= named@);
    let name = copy_range(&named, start, named.len());
    assert(name@ =~= file_name_of(path@));
    proof {
        reveal_strlit("..");
    }
    if name.len() == 0 {
        return None;
    }
    if name.len() == 2 && name[0] == '.' && name[1] == '.' {
        assert(name@ =~= ".."@);
        return None;
    }
    assert(name@ != ".."@) by {
        if name@ == ".."@ {
            assert(name@[0] == '.');
            assert(name@[1] == '.');
        }
    }
    assert(name@.skip(0) =~= name@);
    let dot: usize = match rfind(&name, 0, '.') {
        Some(found) => if found == 0 {
            name.len()
        } else {
            found
        },
        None => name.len(),
    };
    Some((name, dot))
}

/// The file name of `path` without its extension, if `path` has a file
/// name.
pub fn file_stem(path: &str) -> (stem: Option<String>)
    ensures
        opt_text(stem) == file_stem_of(path@),
{
    match split_file_name(path) {
        Some((name, dot)) => {
            let stem = string_of_range(&name, 0, dot);
            assert(name@.subrange(0, dot as int) =~= name@.take(dot as int));
            Some(stem)
        },
        None => None,
    }
}

/// The extension of the file name of `path`, if it has one.
pub fn extension(path: &str) -> (ext: Option<String>)
    ensures
        opt_text(ext) == extension_of(path@),
{
    match split_file_name(path) {
        Some((name, dot)) => {
            if dot == name.len() {
                None
            } else {
                let ext = string_of_range(&name, dot + 1, name.len());
                assert(name@.subrange(dot + 1, name.len() as int) =~= name@.skip(dot + 1));
                Some(ext)
            }
        },
        None => None,
    }
}

/// Whether the file name of `path` has the extension `ext`.
pub fn has_extension(path: &str, ext: &str) -> (has: bool)
    ensures
        has == (extension_of(path@) == Some(ext@)),
{
    match extension(path) {
        Some(found) => str_eq(found.as_str(), ext),
        None => false,
    }
}

/// The directory, relative to the project, that holds the objects and the
/// executable of a profile.
pub open spec fn profile_dir(profile: BuildProfile) -> Seq<char> {
    match profile {
        BuildProfile::Debug => "forge/debug"@,
        BuildProfile::Release => "forge/release"@,
    }
}

/// The directory, relative to the project, that holds the objects compiled
/// for the shared library. They are position independent and are kept apart
/// from all others.
pub open spec fn shared_object_dir() -> Seq<char> {
    "forge/libs/obj"@
}

/// The directory, relative to the project, that receives the objects of a
/// compile pass and that the matching link step reads.
pub open spec fn object_dir(profile: BuildProfile, shared: bool) -> Seq<char> {
    if shared {
        shared_object_dir()
    } else {
        profile_dir(profile)
    }
}

/// The object file of the unit whose source has the stem `stem`, in a
/// project at `cwd`.
pub open spec fn object_path(
    cwd: Seq<char>,
    stem: Seq<char>,
    profile: BuildProfile,
    shared: bool,
) -> Seq<char> {
    joined_path(joined_path(cwd, object_dir(profile, shared)), stem + ".o"@)
}

/// The path under which a listing of the directory `dir` of a project at
/// `cwd` reports its entry `name`.
pub open spec fn listed_path(cwd: Seq<char>, dir: Seq<char>, name: Seq<char>) -> Seq<char> {
    normalized(joined_path(joined_path(cwd, dir), name))
}

/// Whether a directory entry is an object file: a regular file whose name
/// has the extension `o`.
pub open spec fn is_object_entry(entry: DirEntry) -> bool {
    entry.is_file && !entry.name@.contains('/') && extension_of(entry.name@) == Some("o"@)
}

/// Whether a library directory holds one of the libraries as a shared
/// object, under the library's plain name or with `lib` before it.
pub open spec fn library_found(
    dir: Seq<char>,
    libs: Seq<Seq<char>>,
    existing: Seq<Seq<char>>,
) -> bool {
    exists|i: int|
        0 <= i < libs.len() && (existing.contains(#[trigger] joined_path(dir, libs[i] + ".so"@))
            || existing.contains(joined_path(dir, "lib"@ + libs[i] + ".so"@)))
}

/// The run paths for a list of library directories: each directory that
/// holds one of the libraries, in normal form and in the order of the list.
/// A directory is left out where the list of run paths already holds it as
/// it is written.
pub open spec fn run_paths(
    dirs: Seq<Seq<char>>,
    libs: Seq<Seq<char>>,
    existing: Seq<Seq<char>>,
) -> Seq<Seq<char>>
    decreases dirs.len(),
{
    if dirs.len() == 0 {
        Seq::empty()
    } else {
        let before = run_paths(dirs.drop_last(), libs, existing);
        let dir = dirs.last();
        if library_found(dir, libs, existing) && !before.contains(dir) {
            before.push(normalized(dir))
        } else {
            before
        }
    }
}

/// The two files whose presence makes `dir` a run path for the library
/// `lib`.
pub open spec fn library_files(dir: Seq<char>, lib: Seq<char>) -> Seq<Seq<char>> {
    seq![joined_path(dir, lib + ".so"@), joined_path(dir, "lib"@ + lib + ".so"@)]
}

/// `list` with `value` at its end, unless `list` holds it already.
pub open spec fn with_value(list: Seq<Seq<char>>, value: Seq<char>) -> Seq<Seq<char>> {
    if list.contains(value) {
        list
    } else {
        list.push(value)
    }
}

/// The directory, relative to the project, whose objects the executable and
/// the static library are made of.
pub fn find_o_files_dir(config: &Config) -> (dir: String)
    ensures
        dir@ == profile_dir(output_profile(config.args.command)),
{
    match config.args.command.output_profile() {
        BuildProfile::Debug => String::from_str("forge/debug"),
        BuildProfile::Release => String::from_str("forge/release"),
    }
}

/// The object file that the source `input_path` compiles to, in a project at
/// `cwd`. A source without a file name has none.
pub fn get_equivalent_forge_path(cwd: &str, input_path: &str, config: &Config, shared: bool) -> (path:
    Result<String, String>)
    ensures
        match file_stem_of(input_path@) {
            Some(stem) => path matches Ok(p) && p@ == object_path(
                cwd@,
                stem,
                output_profile(config.args.command),
                shared,
            ),
            None => path matches Err(m) && m@ == "File stem not valid UTF-8"@,
        },
{
    match file_stem(input_path) {
        Some(stem) => {
            let dir = if shared {
                String::from_str("forge/libs/obj")
            } else {
                find_o_files_dir(config)
            };
            let name = concat2(stem.as_str(), ".o");
            let base = join_path(cwd, dir.as_str());
            Ok(join_path(base.as_str(), name.as_str()))
        },
        None => Err(String::from_str("File stem not valid UTF-8")),
    }
}

/// Locates the file `filename` of a project at `cwd`, given what was found
/// at `joined_path(cwd, filename)`.
pub fn find_file(cwd: &str, filename: &str, probe: &FileProbe) -> (found: Result<String, FileError>)
    ensures
        match *probe {
            FileProbe::Regular => found matches Ok(p) && p@ == normalized(
                joined_path(cwd@, filename@),
            ),
            FileProbe::Unresolvable(reason) => found matches Err(FileError::FileError(m)) && m@
                == "File Error: "@ + reason@,
            FileProbe::Missing => found matches Err(FileError::FileNotFound(m)) && m@
                == "File not found: "@ + filename@,
        },
{
    match probe {
        FileProbe::Regular => {
            let full = join_path(cwd, filename);
            Ok(normalize_path(full.as_str()))
        },
        FileProbe::Unresolvable(reason) => Err(
            FileError::FileError(concat2("File Error: ", reason.as_str())),
        ),
        FileProbe::Missing => Err(FileError::FileNotFound(concat2("File not found: ", filename))),
    }
}

/// Where the project file of a project at `cwd` lies.
pub fn std_toml_path(cwd: &str) -> (path: String)
    ensures
        path@ == joined_path(cwd@, "RustyForge.toml"@),
{
    join_path(cwd, "RustyForge.toml")
}

/// Where the hash cache of a project at `cwd` lies.
pub fn std_hash_cache_path(cwd: &str) -> (path: String)
    ensures
        path@ == joined_path(cwd@, "forge/.forge/hash_cache.json"@),
{
    join_path(cwd, "forge/.forge/hash_cache.json")
}

/// The object files among the entries of the directory `rel_path` of a
/// project at `cwd`, each under the path the listing reports it, in the
/// order of the listing.
pub fn find_o_files(cwd: &str, rel_path: &str, entries: &Vec<DirEntry>) -> (o_files: Vec<String>)
    ensures
        texts(o_files@) == entries@.filter(|e: DirEntry| is_object_entry(e)).map_values(
            |e: DirEntry| listed_path(cwd@, rel_path@, e.name@),
        ),
{
    let dir = join_path(cwd, rel_path);
    let mut o_files: Vec<String> = Vec::new();
    let ghost keep = |e: DirEntry| is_object_entry(e);
    let ghost place = |e: DirEntry| listed_path(cwd@, rel_path@, e.name@);
    let mut i: usize = 0;
    assert(entries@.take(0).filter(keep) =~= Seq::<DirEntry>::empty());
    assert(texts(o_files@) =~= entries@.take(0).filter(keep).map_values(place));
    while i < entries.len()
        invariant
            i <= entries.len(),
            dir@ == joined_path(cwd@, rel_path@),
            keep == |e: DirEntry| is_object_entry(e),
            place == |e: DirEntry| listed_path(cwd@, rel_path@, e.name@),
            texts(o_files@) == entries@.take(i as int).filter(keep).map_values(place),
        decreases entries.len() - i,
    {
        let entry = &entries[i];
        let ghost before = entries@.take(i as int);
        proof {
            assert(entries@.take(i + 1) =~= before.push(*entry));
            before.lemma_filter_push(*entry, keep);
        }
        if entry.is_file && !str_contains_char(entry.name.as_str(), '/') && has_extension(
            entry.name.as_str(),
            "o",
        ) {
            let full = join_path(dir.as_str(), entry.name.as_str());
            let ghost old_files = o_files@;
            o_files.push(normalize_path(full.as_str()));
            proof {
                before.filter(keep).lemma_push_map_commute(place, *entry);
                assert(texts(o_files@) =~= texts(old_files).push(place(*entry)));
            }
        }
        i += 1;
    }
    assert(entries@.take(entries.len() as int) =~= entries@);
    o_files
}

/// The files to look for when deciding whether `dir` is a run path: two for
/// each library, in the order of `libs`.
pub fn library_candidates(dir: &str, libs: &Vec<String>) -> (files: Vec<String>)
    ensures
        texts(files@) == texts(libs@).map_values(|lib: Seq<char>| library_files(dir@, lib)).flatten(),
{
    let mut files: Vec<String> = Vec::new();
    let ghost pair = |lib: Seq<char>| library_files(dir@, lib);
    let mut i: usize = 0;
    assert(texts(libs@).take(0).map_values(pair) =~= Seq::<Seq<Seq<char>>>::empty());
    assert(texts(files@) =~= texts(libs@).take(0).map_values(pair).flatten());
    while i < libs.len()
        invariant
            i <= libs.len(),
            pair == |lib: Seq<char>| library_files(dir@, lib),
            texts(files@) == texts(libs@).take(i as int).map_values(pair).flatten(),
        decreases libs.len() - i,
    {
        let lib = libs[i].as_str();
        let plain = concat2(lib, ".so");
        let prefixed = concat3("lib", lib, ".so");
        let ghost old_files = files@;
        let ghost before = texts(libs@).take(i as int);
        files.push(join_path(dir, plain.as_str()));
        files.push(join_path(dir, prefixed.as_str()));
        proof {
            assert(texts(libs@).take(i + 1) =~= before.push(lib@));
            before.lemma_push_map_commute(pair, lib@);
            before.map_values(pair).lemma_flatten_push(pair(lib@));
            assert(texts(files@) =~= texts(old_files) + library_files(dir@, lib@));
        }
        i += 1;
    }
    assert(texts(libs@).take(libs.len() as int) =~= texts(libs@));
    files
}

/// Whether one of the two files that make `dir` a run path for `lib` is
/// among `existing`.
fn library_present(dir: &str, lib: &str, existing: &Vec<String>) -> (present: bool)
    ensures
        present == (texts(existing@).contains(joined_path(dir@, lib@ + ".so"@)) || texts(
            existing@,
        ).contains(joined_path(dir@, "lib"@ + lib@ + ".so"@))),
{
    let plain = concat2(lib, ".so");
    let full_path = join_path(dir, plain.as_str());
    if contains_text(existing, full_path.as_str()) {
        return true;
    }
    let prefixed = concat3("lib", lib, ".so");
    let alt_full_path = join_path(dir, prefixed.as_str());
    contains_text(existing, alt_full_path.as_str())
}

/// The run paths of the executable: the library directories of the project
/// that hold one of its libraries as a shared object. `existing` lists the
/// files of `library_candidates` that are on disk.
pub fn find_r_paths(config: &Config, existing: &Vec<String>) -> (paths: Vec<String>)
    ensures
        texts(paths@) == match config.forge.dependencies {
            Some(deps) => run_paths(
                texts(deps.library_paths@),
                texts(deps.libraries@),
                texts(existing@),
            ),
            None => Seq::empty(),
        },
{
    let mut paths: Vec<String> = Vec::new();
    match &config.forge.dependencies {
        Some(deps) => {
            let ghost dirs = texts(deps.library_paths@);
            let ghost libs = texts(deps.libraries@);
            let ghost there = texts(existing@);
            let mut i: usize = 0;
            assert(texts(paths@) =~= run_paths(dirs.take(0), libs, there));
            while i < deps.library_paths.len()
                invariant
                    i <= deps.library_paths.len(),
                    dirs == texts(deps.library_paths@),
                    libs == texts(deps.libraries@),
                    there == texts(existing@),
                    texts(paths@) == run_paths(dirs.take(i as int), libs, there),
                decreases deps.library_paths.len() - i,
            {
                let path = deps.library_paths[i].as_str();
                let listed = contains_text(&paths, path);
                let mut found = false;
                let mut j: usize = 0;
                while j < deps.libraries.len() && !found
                    invariant
                        j <= deps.libraries.len(),
                        libs == texts(deps.libraries@),
                        there == texts(existing@),
                        found ==> library_found(path@, libs, there),
                        !found ==> forall|k: int|
                            0 <= k < j ==> !(there.contains(
                                #[trigger] joined_path(path@, libs[k] + ".so"@),
                            ) || there.contains(joined_path(path@, "lib"@ + libs[k] + ".so"@))),
                    decreases deps.libraries.len() - j + (if found { 0int } else { 1int }),
                {
                    if library_present(path, deps.libraries[j].as_str(), existing) {
                        assert(there.contains(joined_path(path@, libs[j as int] + ".so"@))
                            || there.contains(joined_path(path@, "lib"@ + libs[j as int] + ".so"@)));
                        found = true;
                    } else {
                        j += 1;
                    }
                }
                assert(found == library_found(path@, libs, there)) by {
                    assert(libs.len() == deps.libraries.len());
                    if !found {
                        assert(j == deps.libraries.len());
                    }
                }
                proof {
                    assert(dirs.take(i + 1).drop_last() =~= dirs.take(i as int));
                    assert(dirs.take(i + 1).last() == path@);
                }
                if found && !listed {
                    let ghost old_paths = paths@;
                    paths.push(normalize_path(path));
                    assert(texts(paths@) =~= texts(old_paths).push(normalized(path@)));
                }
                i += 1;
            }
            assert(dirs.take(deps.library_paths.len() as int) =~= dirs);
        },
        None => {
            assert(texts(paths@) =~= Seq::<Seq<char>>::empty());
        },
    }
    paths
}

/// Adds `value` to one of the lists of the project file, unless the list
/// holds it already.
pub fn add_to_build_toml(forge: &mut Forge, field: BuildField, value: String)
    ensures
        final(forge).project == old(forge).project,
        final(forge).dependencies == old(forge).dependencies,
        final(forge).build.compiler == old(forge).build.compiler,
        final(forge).build.output == old(forge).build.output,
        final(forge).build.cflags == old(forge).build.cflags,
        final(forge).build.ldflags == old(forge).build.ldflags,
        match field {
            BuildField::Src => texts(final(forge).build.src@) == with_value(
                texts(old(forge).build.src@),
                value@,
            ) && final(forge).build.include_dirs == old(forge).build.include_dirs,
            BuildField::IncludeDirs => texts(final(forge).build.include_dirs@) == with_value(
                texts(old(forge).build.include_dirs@),
                value@,
            ) && final(forge).build.src == old(forge).build.src,
        },
{
    match field {
        BuildField::Src => {
            if !contains_text(&forge.build.src, value.as_str()) {
                forge.build.src.push(value);
                assert(texts(forge.build.src@) =~= texts(old(forge).build.src@).push(value@));
            }
        },
        BuildField::IncludeDirs => {
            if !contains_text(&forge.build.include_dirs, value.as_str()) {
                forge.build.include_dirs.push(value);
                assert(texts(forge.build.include_dirs@) =~= texts(
                    old(forge).build.include_dirs@,
                ).push(value@));
            }
        },
    }
}

} // verus!
