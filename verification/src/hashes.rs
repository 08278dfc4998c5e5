//! The content hash store: which digest is on record for which file.
//!
//! The store is a list of records, each a path in normal form with the
//! digest of the file's bytes. A path is looked up by its first record.

use vstd::prelude::*;
use sha2::{Digest, Sha256};
use crate::error::{BuildError, ErrorKind};
use crate::fs_utils::{normalize_path, normalized};
use crate::text::{opt_text, str_eq};

verus! {

/// One record of the store.
#[derive(Debug, Clone, PartialEq)]
pub struct HashCache {
    /// The file's path, in normal form.
    pub path: String,
    /// The digest of the file's bytes, in hexadecimal.
    pub hash: String,
}

impl View for HashCache {
    type V = (Seq<char>, Seq<char>);

    /// The record as a pair: the path, then the digest.
    open spec fn view(&self) -> (Seq<char>, Seq<char>) {
        (self.path@, self.hash@)
    }
}

/// What reading a file gave.
#[derive(Debug, Clone, PartialEq)]
pub enum FileRead {
    /// Nothing is there, or what is there is no regular file.
    Missing,
    /// The file could not be opened or read; the message says why.
    Failed(String),
    /// The bytes of the file.
    Bytes(Vec<u8>),
}

/// The SHA-256 digest of `data` as the crate `sha2` computes it, written in
/// lower-case hexadecimal digits.
pub uninterp spec fn sha256_hex_of(data: Seq<u8>) -> Seq<char>;

/// Whether a character is a lower-case hexadecimal digit.
pub open spec fn is_hex_digit(c: char) -> bool {
    ('0' <= c && c <= '9') || ('a' <= c && c <= 'f')
}

/// Whether a text has the shape of a 256-bit digest: 64 lower-case
/// hexadecimal digits.
pub open spec fn is_hex_digest(text: Seq<char>) -> bool {
    text.len() == 64 && forall|i: int| 0 <= i < text.len() ==> is_hex_digit(#[trigger] text[i])
}

/// The records of a store as pairs.
pub open spec fn records(entries: Seq<HashCache>) -> Seq<(Seq<char>, Seq<char>)> {
    entries.map_values(|e: HashCache| e@)
}

/// The position of the first record for `path`, or the number of records
/// where there is none.
pub open spec fn position_of(cache: Seq<(Seq<char>, Seq<char>)>, path: Seq<char>) -> int
    decreases cache.len(),
{
    if cache.len() == 0 {
        0
    } else if cache[0].0 == path {
        0
    } else {
        1 + position_of(cache.drop_first(), path)
    }
}

/// The digest on record for `path`, if there is one.
pub open spec fn cached(cache: Seq<(Seq<char>, Seq<char>)>, path: Seq<char>) -> Option<Seq<char>> {
    let at = position_of(cache, path);
    if at < cache.len() {
        Some(cache[at].1)
    } else {
        None
    }
}

/// The store after `digest` was put on record for `path`: the first record
/// for `path` now holds `digest`, or, where there was none, a new record
/// stands at the end. No other record changes.
pub open spec fn committed(
    cache: Seq<(Seq<char>, Seq<char>)>,
    path: Seq<char>,
    digest: Seq<char>,
) -> Seq<(Seq<char>, Seq<char>)> {
    let at = position_of(cache, path);
    if at < cache.len() {
        cache.update(at, (path, digest))
    } else {
        cache.push((path, digest))
    }
}

/// Whether a file with the digest `digest` differs from what is on record
/// for it: nothing is on record, or another digest is.
pub open spec fn changed(
    cache: Seq<(Seq<char>, Seq<char>)>,
    path: Seq<char>,
    digest: Seq<char>,
) -> bool {
    cached(cache, normalized(path)) != Some(digest)
}

/// Whether no path has two records.
pub open spec fn unique_paths(cache: Seq<(Seq<char>, Seq<char>)>) -> bool {
    forall|i: int, j: int| 0 <= i < j < cache.len() ==> cache[i].0 != cache[j].0
}

/// `position_of` finds a record for the path, and no record before it is
/// for that path.
pub proof fn lemma_position_of(cache: Seq<(Seq<char>, Seq<char>)>, path: Seq<char>)
    ensures
        0 <= position_of(cache, path) <= cache.len(),
        position_of(cache, path) < cache.len() ==> cache[position_of(cache, path)].0 == path,
        forall|i: int| 0 <= i < position_of(cache, path) ==> cache[i].0 != path,
    decreases cache.len(),
{
    if cache.len() > 0 && cache[0].0 != path {
        let rest = cache.drop_first();
        lemma_position_of(rest, path);
        let at = position_of(rest, path);
        assert forall|i: int| 0 <= i < at + 1 implies cache[i].0 != path by {
            if i > 0 {
                assert(rest[i - 1] == cache[i]);
            }
        }
        if at < rest.len() {
            assert(rest[at] == cache[at + 1]);
        }
    }
}

/// The first position that holds a record for the path is what
/// `position_of` gives.
pub proof fn lemma_position_is(cache: Seq<(Seq<char>, Seq<char>)>, path: Seq<char>, at: int)
    requires
        0 <= at <= cache.len(),
        at < cache.len() ==> cache[at].0 == path,
        forall|i: int| 0 <= i < at ==> cache[i].0 != path,
    ensures
        position_of(cache, path) == at,
{
    lemma_position_of(cache, path);
}

/// A lookup straight after a commit gives exactly the digest that was
/// committed.
pub proof fn lemma_lookup_after_commit(
    cache: Seq<(Seq<char>, Seq<char>)>,
    path: Seq<char>,
    digest: Seq<char>,
)
    ensures
        cached(committed(cache, path, digest), path) == Some(digest),
{
    lemma_position_of(cache, path);
    lemma_position_is(committed(cache, path, digest), path, position_of(cache, path));
}

/// A commit changes what is on record for its own path only.
pub proof fn lemma_lookup_other_after_commit(
    cache: Seq<(Seq<char>, Seq<char>)>,
    path: Seq<char>,
    digest: Seq<char>,
    other: Seq<char>,
)
    requires
        other != path,
    ensures
        cached(committed(cache, path, digest), other) == cached(cache, other),
{
    lemma_position_of(cache, path);
    lemma_position_of(cache, other);
    let after = committed(cache, path, digest);
    let at = position_of(cache, other);
    lemma_position_is(after, other, if at < cache.len() { at } else { after.len() as int });
}

/// A path without a record gives no result, and only such a path does.
pub proof fn lemma_lookup_absent(cache: Seq<(Seq<char>, Seq<char>)>, path: Seq<char>)
    ensures
        cached(cache, path) is None <==> forall|i: int| 0 <= i < cache.len() ==> cache[i].0 != path,
{
    lemma_position_of(cache, path);
}

/// A commit never gives a path a second record.
pub proof fn lemma_commit_keeps_unique(
    cache: Seq<(Seq<char>, Seq<char>)>,
    path: Seq<char>,
    digest: Seq<char>,
)
    requires
        unique_paths(cache),
    ensures
        unique_paths(committed(cache, path, digest)),
{
    lemma_position_of(cache, path);
}

/// `Sha256::digest` of the crate `sha2`, its result formatted in lower-case
/// hexadecimal. Taken on trust: the text that comes back depends on the
/// bytes of `data` and on nothing else, so that it can be called
/// `sha256_hex_of(data)`; and, the digest being 32 bytes that are written
/// with two digits each, it is 64 lower-case hexadecimal digits.
#[verifier::external_body]
fn sha256_hex(data: &[u8]) -> (digest: String)
    ensures
        digest@ == sha256_hex_of(data@),
        is_hex_digest(digest@),
{
    format!("{:x}", Sha256::digest(data))
}

/// The digest of a file, from what reading it gave: it depends on the bytes
/// alone, not on the path or on how the bytes were read, and is 64
/// lower-case hexadecimal digits. A file that is missing or cannot be read
/// has no digest.
pub fn hash(file: &FileRead) -> (digest: Result<String, BuildError>)
    ensures
        match *file {
            FileRead::Bytes(data) => digest matches Ok(d) && d@ == sha256_hex_of(data@)
                && is_hex_digest(d@),
            FileRead::Missing => digest matches Err(e) && e.is(ErrorKind::Io, "File not found"@),
            FileRead::Failed(reason) => digest matches Err(e) && e.is(ErrorKind::Io, reason@),
        },
{
    match file {
        FileRead::Bytes(data) => Ok(sha256_hex(data.as_slice())),
        FileRead::Missing => Err(
            BuildError::new(ErrorKind::Io, String::from_str("File not found")),
        ),
        FileRead::Failed(reason) => Err(BuildError::new(ErrorKind::Io, reason.clone())),
    }
}

/// The position of the first record for the path `norm`.
fn find_record(norm: &String, entries: &Vec<HashCache>) -> (at: usize)
    ensures
        at == position_of(records(entries@), norm@),
{
    let mut i: usize = 0;
    while i < entries.len()
        invariant
            i <= entries.len(),
            forall|j: int| 0 <= j < i ==> records(entries@)[j].0 != norm@,
        decreases entries.len() - i,
    {
        if entries[i].path == *norm {
            proof {
                assert(records(entries@)[i as int].0 == norm@);
                lemma_position_is(records(entries@), norm@, i as int);
            }
            return i;
        }
        i += 1;
    }
    proof {
        lemma_position_is(records(entries@), norm@, i as int);
    }
    i
}

/// The digest on record for `filepath`, if there is one.
pub fn get_cached_hash(filepath: &str, entries: &Vec<HashCache>) -> (digest: Option<String>)
    ensures
        opt_text(digest) == cached(records(entries@), normalized(filepath@)),
{
    let norm_path = normalize_path(filepath);
    let at = find_record(&norm_path, entries);
    if at < entries.len() {
        Some(entries[at].hash.clone())
    } else {
        None
    }
}

/// Puts `digest` on record for `filepath`. A store in which no path has two
/// records stays so.
pub fn cache_hash(filepath: &str, digest: String, entries: &mut Vec<HashCache>)
    ensures
        records(final(entries)@) == committed(
            records(old(entries)@),
            normalized(filepath@),
            digest@,
        ),
        unique_paths(records(old(entries)@)) ==> unique_paths(records(final(entries)@)),
{
    proof {
        if unique_paths(records(entries@)) {
            lemma_commit_keeps_unique(records(entries@), normalized(filepath@), digest@);
        }
    }
    let norm_path = normalize_path(filepath);
    let at = find_record(&norm_path, entries);
    let record = HashCache { path: norm_path, hash: digest };
    if at < entries.len() {
        entries.set(at, record);
        assert(records(entries@) =~= records(old(entries)@).update(at as int, record@));
    } else {
        entries.push(record);
        assert(records(entries@) =~= records(old(entries)@).push(record@));
    }
}

/// Whether the file `filepath`, whose bytes now have the digest `new_hash`,
/// differs from what is on record for it.
pub fn file_changed(filepath: &str, new_hash: &str, entries: &Vec<HashCache>) -> (differs: bool)
    ensures
        differs == changed(records(entries@), filepath@, new_hash@),
{
    match get_cached_hash(filepath, entries) {
        None => true,
        Some(cached_hash) => !str_eq(cached_hash.as_str(), new_hash),
    }
}

} // verus!
