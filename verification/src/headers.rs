//! The header dependency extractor.
//!
//! The toolchain lists the headers of a translation unit in its
//! dependency-listing mode, as one make rule: the target, a colon, and the
//! files the target depends on, with a backslash before each line break
//! inside the rule. This module builds that command and reads its answer.

use vstd::prelude::*;
use crate::compile::{compiler_program, get_compiler_cmd};
use crate::config::Config;
use crate::error::{BuildError, ErrorKind};
use crate::fs_utils::{
    is_absolute, is_absolute_path, join_path, joined_path, normalize_path, normalized,
};
use crate::text::{
    chars_end_with, chars_of, concat2, first_index_of, lemma_first_index_of, opt_text,
    string_of_range, texts,
};
use crate::utils::{prefixed, CommandLine};

verus! {

/// How running an external program ended.
#[derive(Debug, Clone, PartialEq)]
pub enum ProcessOutput {
    /// The program could not be started; the message says why.
    NotStarted(String),
    /// The program ran and exited. An output that is no valid UTF-8 is
    /// absent.
    Exited { success: bool, stdout: Option<String>, stderr: Option<String> },
}

/// Whether a character is white space.
pub open spec fn is_space(c: char) -> bool {
    ('\u{9}' <= c && c <= '\u{d}') || c == ' ' || c == '\u{85}' || c == '\u{a0}' || c == '\u{1680}'
        || ('\u{2000}' <= c && c <= '\u{200a}') || c == '\u{2028}' || c == '\u{2029}' || c
        == '\u{202f}' || c == '\u{205f}' || c == '\u{3000}'
}

/// How often `c` occurs in `s`.
pub open spec fn occurrences(s: Seq<char>, c: char) -> nat
    decreases s.len(),
{
    if s.len() == 0 {
        0
    } else {
        occurrences(s.drop_last(), c) + if s.last() == c {
            1nat
        } else {
            0nat
        }
    }
}

/// `s` without its line continuations: each backslash that stands directly
/// before a line feed is dropped together with the line feed.
pub open spec fn without_continuations(s: Seq<char>) -> Seq<char>
    decreases s.len(),
{
    if s.len() == 0 {
        s
    } else if s.len() >= 2 && s[0] == '\\' && s[1] == '\n' {
        without_continuations(s.skip(2))
    } else {
        seq![s[0]] + without_continuations(s.skip(1))
    }
}

/// The number of characters before the first white space of `s`.
pub open spec fn word_len(s: Seq<char>) -> nat
    decreases s.len(),
{
    if s.len() == 0 || is_space(s[0]) {
        0
    } else {
        1 + word_len(s.skip(1))
    }
}

/// The words of `s`: its longest runs of characters that are no white
/// space, in order.
pub open spec fn words(s: Seq<char>) -> Seq<Seq<char>>
    decreases s.len(),
{
    if s.len() == 0 {
        Seq::empty()
    } else if is_space(s[0]) {
        words(s.skip(1))
    } else {
        proof {
            lemma_word_len(s);
        }
        seq![s.take(word_len(s) as int)] + words(s.skip(word_len(s) as int))
    }
}

/// Whether a file name marks a header.
pub open spec fn is_header(name: Seq<char>) -> bool {
    ".h"@.is_suffix_of(name)
}

/// What follows the first colon of a make rule.
pub open spec fn rule_dependencies(output: Seq<char>) -> Seq<char> {
    output.skip(first_index_of(output, ':') + 1)
}

/// The headers that a make rule lists: the words after its colon, line
/// continuations removed, that mark a header.
pub open spec fn listed_headers(output: Seq<char>) -> Seq<Seq<char>> {
    words(without_continuations(rule_dependencies(output))).filter(|w: Seq<char>| is_header(w))
}

/// The arguments that make the compiler list the headers of `relpath`.
pub open spec fn listing_arguments(config: Config, relpath: Seq<char>) -> Seq<Seq<char>> {
    seq!["-MM"@, normalized(relpath)] + prefixed("-I"@, texts(config.forge.build.include_dirs@))
}

/// Where a header that the listing names is to be looked up: a header with an
/// absolute path is taken as it is named; any other is to be resolved from
/// its place under `cwd`.
pub open spec fn header_to_resolve(cwd: Seq<char>, name: Seq<char>) -> Option<Seq<char>> {
    if is_absolute(name) {
        None
    } else {
        Some(joined_path(cwd, name))
    }
}

/// `word_len` stops at the first white space or at the end.
pub proof fn lemma_word_len(s: Seq<char>)
    ensures
        word_len(s) <= s.len(),
        forall|i: int| 0 <= i < word_len(s) ==> !is_space(#[trigger] s[i]),
        word_len(s) < s.len() ==> is_space(s[word_len(s) as int]),
    decreases s.len(),
{
    if s.len() == 0 || is_space(s[0]) {
    } else {
        let rest = s.skip(1);
        lemma_word_len(rest);
        assert forall|i: int| 0 <= i < word_len(s) implies !is_space(#[trigger] s[i]) by {
            if i > 0 {
                assert(rest[i - 1] == s[i]);
            }
        }
        if word_len(s) < s.len() {
            assert(rest[word_len(rest) as int] == s[word_len(s) as int]);
        }
    }
}

/// The length of the first word of `s` is the position of its first white
/// space.
pub proof fn lemma_word_len_is(s: Seq<char>, n: int)
    requires
        0 <= n <= s.len(),
        forall|i: int| 0 <= i < n ==> !is_space(#[trigger] s[i]),
        n < s.len() ==> is_space(s[n]),
    ensures
        word_len(s) == n,
{
    lemma_word_len(s);
}

/// Whether a character is white space.
pub fn is_whitespace(c: char) -> (space: bool)
    ensures
        space == is_space(c),
{
    ('\u{9}' <= c && c <= '\u{d}') || c == ' ' || c == '\u{85}' || c == '\u{a0}' || c == '\u{1680}'
        || ('\u{2000}' <= c && c <= '\u{200a}') || c == '\u{2028}' || c == '\u{2029}' || c
        == '\u{202f}' || c == '\u{205f}' || c == '\u{3000}'
}

/// The command that lists the headers of the source `relpath`.
pub fn gcc_clang_mm(relpath: &str, config: &Config) -> (cmd: Result<CommandLine, BuildError>)
    ensures
        match compiler_program(config.compiler) {
            Some(program) => cmd matches Ok(c) && c.program@ == program && texts(c.args@)
                == listing_arguments(*config, relpath@),
            None => cmd matches Err(e) && e.is(
                ErrorKind::UnsupportedToolchain,
                "Compiler not supported: msvc"@,
            ),
        },
{
    let mut cmd = get_compiler_cmd(config)?;
    assert(texts(cmd.args@) =~= Seq::<Seq<char>>::empty());
    cmd.arg("-MM");
    cmd.arg_string(normalize_path(relpath));
    assert(texts(cmd.args@) =~= seq!["-MM"@, normalized(relpath@)]);
    cmd.args_prefixed("-I", &config.forge.build.include_dirs);
    Ok(cmd)
}

/// The rule that the dependency listing printed, from how the run for the
/// source `relpath` ended. The listing fails where the compiler could not be
/// started, where it exited with an error, and where what it printed is no
/// text.
pub fn dependency_output(process: &ProcessOutput, relpath: &str) -> (rule: Result<String, BuildError>)
    ensures
        match *process {
            ProcessOutput::NotStarted(reason) => rule matches Err(e) && e.is(
                ErrorKind::DependencyExtraction,
                reason@,
            ),
            ProcessOutput::Exited { success: true, stdout: Some(text), .. } => rule matches Ok(r)
                && r@ == text@,
            ProcessOutput::Exited { success: true, stdout: None, .. } => rule matches Err(e)
                && e.is(
                ErrorKind::DependencyExtraction,
                "Could not convert stdout to string: "@ + relpath@,
            ),
            ProcessOutput::Exited { success: false, stderr: Some(text), .. } => rule matches Err(e)
                && e.is(ErrorKind::DependencyExtraction, "Error compiling file: "@ + text@),
            ProcessOutput::Exited { success: false, stderr: None, .. } => rule matches Err(e)
                && e.is(
                ErrorKind::DependencyExtraction,
                "Could not convert stderr to string: "@ + relpath@,
            ),
        },
{
    match process {
        ProcessOutput::NotStarted(reason) => Err(
            BuildError::new(ErrorKind::DependencyExtraction, reason.clone()),
        ),
        ProcessOutput::Exited { success, stdout, stderr } => {
            if *success {
                match stdout {
                    Some(text) => Ok(text.clone()),
                    None => Err(
                        BuildError::new(
                            ErrorKind::DependencyExtraction,
                            concat2("Could not convert stdout to string: ", relpath),
                        ),
                    ),
                }
            } else {
                match stderr {
                    Some(text) => Err(
                        BuildError::new(
                            ErrorKind::DependencyExtraction,
                            concat2("Error compiling file: ", text.as_str()),
                        ),
                    ),
                    None => Err(
                        BuildError::new(
                            ErrorKind::DependencyExtraction,
                            concat2("Could not convert stderr to string: ", relpath),
                        ),
                    ),
                }
            }
        },
    }
}

/// The path to resolve for the header `name` that a listing made in `cwd`
/// names, unless the header is taken as it is named.
pub fn unresolved_header(cwd: &str, name: &str) -> (path: Option<String>)
    ensures
        opt_text(path) == header_to_resolve(cwd@, name@),
{
    if is_absolute_path(name) {
        None
    } else {
        Some(join_path(cwd, name))
    }
}

/// The position of the only colon of `chars`, where it has exactly one.
fn only_colon(chars: &Vec<char>) -> (at: Option<usize>)
    ensures
        at is Some <==> occurrences(chars@, ':') == 1,
        at matches Some(i) ==> i == first_index_of(chars@, ':') && i < chars.len(),
{
    let mut first: Option<usize> = None;
    let mut second = false;
    let mut i: usize = 0;
    while i < chars.len()
        invariant
            i <= chars.len(),
            first is None ==> occurrences(chars@.take(i as int), ':') == 0 && !second,
            first is None ==> forall|j: int| 0 <= j < i ==> chars@[j] != ':',
            first is Some && !second ==> occurrences(chars@.take(i as int), ':') == 1,
            second ==> occurrences(chars@.take(i as int), ':') >= 2,
            first matches Some(f) ==> f < i && chars@[f as int] == ':' && forall|j: int|
                0 <= j < f ==> chars@[j] != ':',
        decreases chars.len() - i,
    {
        proof {
            assert(chars@.take(i + 1).drop_last() =~= chars@.take(i as int));
        }
        if chars[i] == ':' {
            if first.is_none() {
                first = Some(i);
            } else {
                second = true;
            }
        }
        i += 1;
    }
    assert(chars@.take(chars.len() as int) =~= chars@);
    if second {
        None
    } else {
        proof {
            if first is Some {
                lemma_first_index_of(chars@, ':');
                let f = first.unwrap() as int;
                let k = first_index_of(chars@, ':');
                if k == chars@.len() {
                    assert(chars@.contains(chars@[f]));
                }
            }
        }
        first
    }
}

/// `chars` from `from` on, without its line continuations.
fn remove_continuations(chars: &Vec<char>, from: usize) -> (kept: Vec<char>)
    requires
        from <= chars.len(),
    ensures
        kept@ == without_continuations(chars@.skip(from as int)),
{
    let ghost tail = chars@.skip(from as int);
    let mut kept: Vec<char> = Vec::new();
    let mut i: usize = from;
    assert(kept@ + without_continuations(chars@.skip(i as int)) =~= without_continuations(tail));
    while i < chars.len()
        invariant
            from <= i <= chars.len(),
            tail == chars@.skip(from as int),
            kept@ + without_continuations(chars@.skip(i as int)) == without_continuations(tail),
        decreases chars.len() - i,
    {
        let ghost rest = chars@.skip(i as int);
        if chars[i] == '\\' && i + 1 < chars.len() && chars[i + 1] == '\n' {
            proof {
                assert(rest[0] == '\\' && rest[1] == '\n');
                assert(rest.skip(2) =~= chars@.skip(i + 2));
            }
            i += 2;
        } else {
            proof {
                assert(rest[0] == chars@[i as int]);
                if rest.len() >= 2 {
                    assert(rest[1] == chars@[i + 1]);
                }
                assert(rest.skip(1) =~= chars@.skip(i + 1));
                assert(kept@.push(chars@[i as int]) + without_continuations(chars@.skip(i + 1))
                    =~= kept@ + (seq![rest[0]] + without_continuations(rest.skip(1))));
            }
            kept.push(chars[i]);
            i += 1;
        }
    }
    assert(chars@.skip(chars.len() as int) =~= Seq::<char>::empty());
    assert(kept@ + Seq::<char>::empty() =~= kept@);
    kept
}

/// The words of `chars`.
pub fn split_whitespace(chars: &Vec<char>) -> (found: Vec<Vec<char>>)
    ensures
        found@.map_values(|w: Vec<char>| w@) == words(chars@),
{
    let ghost view = |w: Vec<char>| w@;
    let mut found: Vec<Vec<char>> = Vec::new();
    let mut i: usize = 0;
    assert(chars@.skip(0) =~= chars@);
    assert(found@.map_values(view) + words(chars@.skip(0)) =~= words(chars@));
    while i < chars.len()
        invariant
            i <= chars.len(),
            view == |w: Vec<char>| w@,
            found@.map_values(view) + words(chars@.skip(i as int)) == words(chars@),
        decreases chars.len() - i,
    {
        let ghost rest = chars@.skip(i as int);
        assert(rest[0] == chars@[i as int]);
        if is_whitespace(chars[i]) {
            assert(rest.skip(1) =~= chars@.skip(i + 1));
            i += 1;
        } else {
            let mut j: usize = i + 1;
            let mut word: Vec<char> = Vec::new();
            word.push(chars[i]);
            while j < chars.len() && !is_whitespace(chars[j])
                invariant
                    i < j <= chars.len(),
                    rest == chars@.skip(i as int),
                    word@ == rest.take(j - i),
                    forall|k: int| 0 <= k < j - i ==> !is_space(#[trigger] rest[k]),
                decreases chars.len() - j,
            {
                word.push(chars[j]);
                assert(rest[j - i] == chars@[j as int]);
                j += 1;
                assert(word@ =~= rest.take(j - i));
            }
            proof {
                if j < chars.len() {
                    assert(rest[j - i] == chars@[j as int]);
                }
                lemma_word_len_is(rest, j - i);
                assert(rest.skip(j - i) =~= chars@.skip(j as int));
                assert(found@.push(word).map_values(view) =~= found@.map_values(view).push(word@));
                assert(found@.map_values(view).push(word@) + words(chars@.skip(j as int))
                    =~= found@.map_values(view) + (seq![word@] + words(rest.skip(j - i))));
            }
            found.push(word);
            i = j;
        }
    }
    assert(chars@.skip(chars.len() as int) =~= Seq::<char>::empty());
    assert(found@.map_values(view) + Seq::<Seq<char>>::empty() =~= found@.map_values(view));
    found
}

/// The headers that the dependency listing names, in its order and as it
/// writes them. The answer must hold exactly one colon.
pub fn parse_h_dependencies(output: &str) -> (headers: Result<Vec<String>, BuildError>)
    ensures
        if occurrences(output@, ':') == 1 {
            headers matches Ok(h) && texts(h@) == listed_headers(output@)
        } else {
            headers matches Err(e) && e.is(
                ErrorKind::DependencyExtraction,
                "Could not parse compiler output: "@ + output@,
            )
        },
{
    let chars = chars_of(output);
    match only_colon(&chars) {
        None => Err(
            BuildError::new(
                ErrorKind::DependencyExtraction,
                concat2("Could not parse compiler output: ", output),
            ),
        ),
        Some(colon) => {
            let deps = remove_continuations(&chars, colon + 1);
            let found = split_whitespace(&deps);
            let suffix = chars_of(".h");
            let ghost view = |w: Vec<char>| w@;
            let ghost header = |w: Seq<char>| is_header(w);
            let ghost all = found@.map_values(view);
            let mut headers: Vec<String> = Vec::new();
            let mut i: usize = 0;
            assert(all.take(0).filter(header) =~= Seq::<Seq<char>>::empty());
            assert(texts(headers@) =~= all.take(0).filter(header));
            while i < found.len()
                invariant
                    i <= found.len(),
                    suffix@ == ".h"@,
                    header == |w: Seq<char>| is_header(w),
                    all == found@.map_values(|w: Vec<char>| w@),
                    texts(headers@) == all.take(i as int).filter(header),
                decreases found.len() - i,
            {
                let word = &found[i];
                proof {
                    assert(all.take(i + 1) =~= all.take(i as int).push(word@));
                    all.take(i as int).lemma_filter_push(word@, header);
                }
                if chars_end_with(word, &suffix) {
                    let ghost before = headers@;
                    let name = string_of_range(word, 0, word.len());
                    assert(word@.subrange(0, word.len() as int) =~= word@);
                    headers.push(name);
                    assert(texts(headers@) =~= texts(before).push(word@));
                }
                i += 1;
            }
            assert(all.take(found.len() as int) =~= all);
            Ok(headers)
        },
    }
}

} // verus!
