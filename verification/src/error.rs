//! The ways a build can fail.

use vstd::prelude::*;

verus! {

/// The kind of a failure.
#[derive(Debug, Clone, Copy, PartialEq, Eq, Structural)]
pub enum ErrorKind {
    /// A declared source file is not on disk.
    SourceNotFound,
    /// The toolchain could not list a unit's headers, or its answer could
    /// not be read.
    DependencyExtraction,
    /// The compiler rejected a unit.
    Compile,
    /// The archiver or linker failed, or a target kind is unknown.
    Link,
    /// The cache or the file system could not be accessed.
    Io,
    /// The requested toolchain has no implementation.
    UnsupportedToolchain,
}

/// A failure: its kind and a message for the user.
#[derive(Debug, Clone, PartialEq)]
pub struct BuildError {
    pub kind: ErrorKind,
    pub message: String,
}

impl BuildError {
    /// Whether this is a failure of kind `kind` with the message `message`.
    pub open spec fn is(self, kind: ErrorKind, message: Seq<char>) -> bool {
        self.kind == kind && self.message@ == message
    }

    /// Whether this failure has the kind and the message of `other`.
    pub open spec fn same_as(self, other: BuildError) -> bool {
        self.is(other.kind, other.message@)
    }

    /// A failure of the given kind.
    pub fn new(kind: ErrorKind, message: String) -> (e: BuildError)
        ensures
            e.is(kind, message@),
    {
        BuildError { kind, message }
    }

    /// A copy of this failure.
    pub fn duplicate(&self) -> (e: BuildError)
        ensures
            e.same_as(*self),
    {
        BuildError { kind: self.kind, message: self.message.clone() }
    }
}

/// The position of the first failure among `results`, or their number where
/// none failed.
pub open spec fn first_failure_at<T>(results: Seq<Result<T, BuildError>>) -> int
    decreases results.len(),
{
    if results.len() == 0 {
        0
    } else if results[0] is Err {
        0
    } else {
        1 + first_failure_at(results.drop_first())
    }
}

/// Whether `found` is the first failure among `results`: a copy of it where
/// one failed, and nothing where none did.
pub open spec fn is_first_failure<T>(
    results: Seq<Result<T, BuildError>>,
    found: Option<BuildError>,
) -> bool {
    let at = first_failure_at(results);
    if at < results.len() {
        found matches Some(e) && (results[at] matches Err(first) && e.same_as(first))
    } else {
        found is None
    }
}

/// `first_failure_at` finds a failure, and nothing before it failed.
pub proof fn lemma_first_failure_at<T>(results: Seq<Result<T, BuildError>>)
    ensures
        0 <= first_failure_at(results) <= results.len(),
        first_failure_at(results) < results.len() ==> results[first_failure_at(results)] is Err,
        forall|i: int| 0 <= i < first_failure_at(results) ==> (#[trigger] results[i]) is Ok,
    decreases results.len(),
{
    if results.len() > 0 && results[0] is Ok {
        let rest = results.drop_first();
        lemma_first_failure_at(rest);
        let at = first_failure_at(rest);
        assert forall|i: int| 0 <= i < at + 1 implies (#[trigger] results[i]) is Ok by {
            if i > 0 {
                assert(rest[i - 1] == results[i]);
            }
        }
        if at < rest.len() {
            assert(rest[at] == results[at + 1]);
        }
    }
}

/// The first failure among `results`, if one failed.
pub fn first_failure<T>(results: &Vec<Result<T, BuildError>>) -> (found: Option<BuildError>)
    ensures
        is_first_failure(results@, found),
{
    let mut i: usize = 0;
    while i < results.len()
        invariant
            i <= results.len(),
            forall|j: int| 0 <= j < i ==> (#[trigger] results@[j]) is Ok,
        decreases results.len() - i,
    {
        proof {
            lemma_first_failure_at(results@);
        }
        match &results[i] {
            Err(e) => {
                assert(first_failure_at(results@) == i);
                return Some(e.duplicate());
            },
            Ok(_) => {},
        }
        i += 1;
    }
    proof {
        lemma_first_failure_at(results@);
    }
    None
}

} // verus!
