//! What the tool tells and asks the user, as text and as decisions.

use vstd::prelude::*;
use crate::arguments::DiscoverOptions;
use crate::discovery::{ignored, should_be_ignored};
use crate::headers::{is_space, is_whitespace};
use crate::text::{chars_of, concat3, str_contains_char, texts};
use crate::utils::{strip_cwd, without_cwd, CommandLine};

verus! {

/// What becomes of a file that discovery found.
#[derive(Debug, Clone, Copy, PartialEq, Eq, Structural)]
pub enum FileEvent {
    /// A pattern of the ignore list matches the file: it is left out.
    Ignored,
    /// Files are added without asking, so this one is added.
    Added,
    /// The user is to be asked.
    Ask,
}

/// What the user answered when asked about a file.
#[derive(Debug, Clone, Copy, PartialEq, Eq, Structural)]
pub enum FileAnswer {
    Yes,
    No,
    Invalid,
}

/// `arg` between double quotes where it holds a blank, else as it is.
pub open spec fn quoted(arg: Seq<char>) -> Seq<char> {
    if arg.contains(' ') {
        "\""@ + arg + "\""@
    } else {
        arg
    }
}

/// The parts in order, with one blank between each two.
pub open spec fn spaced(parts: Seq<Seq<char>>) -> Seq<char>
    decreases parts.len(),
{
    if parts.len() == 0 {
        Seq::empty()
    } else if parts.len() == 1 {
        parts[0]
    } else {
        spaced(parts.drop_last()) + " "@ + parts.last()
    }
}

/// The line that shows a command with its paths as seen from `cwd`.
pub open spec fn verbose_line(cmd: CommandLine, cwd: Seq<char>) -> Seq<char> {
    "Running: "@ + without_cwd(cmd.program@, cwd) + " "@ + spaced(
        texts(cmd.args@).map_values(|a: Seq<char>| quoted(without_cwd(a, cwd))),
    )
}

/// The line that shows a command as it is.
pub open spec fn verbose_line_hard(cmd: CommandLine) -> Seq<char> {
    "Running (raw): "@ + cmd.program@ + " "@ + spaced(
        texts(cmd.args@).map_values(|a: Seq<char>| quoted(a)),
    )
}

/// The number of white-space characters at the start of `s`.
pub open spec fn leading_spaces(s: Seq<char>) -> nat
    decreases s.len(),
{
    if s.len() == 0 || !is_space(s[0]) {
        0
    } else {
        1 + leading_spaces(s.skip(1))
    }
}

/// The number of white-space characters at the end of `s`.
pub open spec fn trailing_spaces(s: Seq<char>) -> nat
    decreases s.len(),
{
    if s.len() == 0 || !is_space(s.last()) {
        0
    } else {
        1 + trailing_spaces(s.drop_last())
    }
}

/// `s` without the white space at its start and at its end.
pub open spec fn trimmed(s: Seq<char>) -> Seq<char> {
    if leading_spaces(s) == s.len() {
        Seq::empty()
    } else {
        s.subrange(leading_spaces(s) as int, s.len() - trailing_spaces(s))
    }
}

/// What a line that the user typed answers: yes for the letter `y`, no for
/// the letter `n`, in either case and with any white space around it.
pub open spec fn answer_of(line: Seq<char>) -> FileAnswer {
    let word = trimmed(line);
    if word == seq!['y'] || word == seq!['Y'] {
        FileAnswer::Yes
    } else if word == seq!['n'] || word == seq!['N'] {
        FileAnswer::No
    } else {
        FileAnswer::Invalid
    }
}

/// What becomes of a file: an ignored file is left out; any other is added
/// at once where files are added without asking, and else the user is
/// asked.
pub open spec fn decided(is_ignored: bool, auto: bool) -> FileEvent {
    if is_ignored {
        FileEvent::Ignored
    } else if auto {
        FileEvent::Added
    } else {
        FileEvent::Ask
    }
}

/// What becomes of the file `name` under the options of a discovery.
pub open spec fn file_event(auto: bool, ignore: Seq<Seq<char>>, name: Seq<char>) -> FileEvent {
    decided(ignored(name, ignore), auto)
}

/// `leading_spaces` stops at the first character that is no white space.
pub proof fn lemma_leading_spaces(s: Seq<char>, n: int)
    requires
        0 <= n <= s.len(),
        forall|i: int| 0 <= i < n ==> is_space(#[trigger] s[i]),
        n < s.len() ==> !is_space(s[n]),
    ensures
        leading_spaces(s) == n,
    decreases n,
{
    if n > 0 {
        let rest = s.skip(1);
        assert forall|i: int| 0 <= i < n - 1 implies is_space(#[trigger] rest[i]) by {
            assert(rest[i] == s[i + 1]);
        }
        if n - 1 < rest.len() {
            assert(rest[n - 1] == s[n]);
        }
        assert(is_space(s[0]));
        lemma_leading_spaces(rest, n - 1);
    }
}

/// `trailing_spaces` stops at the last character that is no white space.
pub proof fn lemma_trailing_spaces(s: Seq<char>, n: int)
    requires
        0 <= n <= s.len(),
        forall|i: int| s.len() - n <= i < s.len() ==> is_space(#[trigger] s[i]),
        n < s.len() ==> !is_space(s[s.len() - n - 1]),
    ensures
        trailing_spaces(s) == n,
    decreases n,
{
    if n > 0 {
        let rest = s.drop_last();
        assert forall|i: int| rest.len() - (n - 1) <= i < rest.len() implies is_space(
            #[trigger] rest[i],
        ) by {
            assert(rest[i] == s[i]);
        }
        if n - 1 < rest.len() {
            assert(rest[rest.len() - (n - 1) - 1] == s[s.len() - n - 1]);
        }
        assert(is_space(s[s.len() - 1]));
        lemma_trailing_spaces(rest, n - 1);
    }
}

/// Adds `arg` to `line`, between double quotes where it holds a blank.
fn push_quoted(line: &mut String, arg: &str)
    ensures
        final(line)@ == old(line)@ + quoted(arg@),
{
    if str_contains_char(arg, ' ') {
        line.append("\"");
        line.append(arg);
        line.append("\"");
        assert(line@ =~= old(line)@ + ("\""@ + arg@ + "\""@));
    } else {
        line.append(arg);
    }
}

/// The line that shows the command `cmd` with its paths as seen from `cwd`.
pub fn verbose_command(cmd: &CommandLine, cwd: &str) -> (line: String)
    ensures
        line@ == verbose_line(*cmd, cwd@),
{
    let clean_program = strip_cwd(cmd.program.as_str(), cwd);
    let mut line = concat3("Running: ", clean_program.as_str(), " ");
    let ghost head = line@;
    let ghost shown = |a: Seq<char>| quoted(without_cwd(a, cwd@));
    let ghost all = texts(cmd.args@);
    let mut i: usize = 0;
    assert(line@ =~= head + spaced(all.take(0).map_values(shown)));
    while i < cmd.args.len()
        invariant
            i <= cmd.args.len(),
            shown == |a: Seq<char>| quoted(without_cwd(a, cwd@)),
            all == texts(cmd.args@),
            line@ == head + spaced(all.take(i as int).map_values(shown)),
        decreases cmd.args.len() - i,
    {
        let ghost before = all.take(i as int).map_values(shown);
        let ghost old_line = line@;
        if i > 0 {
            line.append(" ");
        }
        let clean = strip_cwd(cmd.args[i].as_str(), cwd);
        push_quoted(&mut line, clean.as_str());
        i += 1;
        proof {
            let now = all.take(i as int).map_values(shown);
            assert(now.drop_last() =~= before);
            assert(now.last() == quoted(clean@));
            if i > 1 {
                assert(line@ =~= head + (spaced(before) + " "@ + quoted(clean@)));
            } else {
                assert(spaced(before) =~= Seq::<char>::empty());
                assert(line@ =~= head + quoted(clean@));
            }
        }
    }
    assert(all.take(cmd.args.len() as int) =~= all);
    line
}

/// The line that shows the command `cmd` as it is.
pub fn verbose_command_hard(cmd: &CommandLine) -> (line: String)
    ensures
        line@ == verbose_line_hard(*cmd),
{
    let mut line = concat3("Running (raw): ", cmd.program.as_str(), " ");
    let ghost head = line@;
    let ghost shown = |a: Seq<char>| quoted(a);
    let ghost all = texts(cmd.args@);
    let mut i: usize = 0;
    assert(line@ =~= head + spaced(all.take(0).map_values(shown)));
    while i < cmd.args.len()
        invariant
            i <= cmd.args.len(),
            shown == |a: Seq<char>| quoted(a),
            all == texts(cmd.args@),
            line@ == head + spaced(all.take(i as int).map_values(shown)),
        decreases cmd.args.len() - i,
    {
        let ghost before = all.take(i as int).map_values(shown);
        if i > 0 {
            line.append(" ");
        }
        let arg = cmd.args[i].as_str();
        push_quoted(&mut line, arg);
        i += 1;
        proof {
            let now = all.take(i as int).map_values(shown);
            assert(now.drop_last() =~= before);
            assert(now.last() == quoted(arg@));
            if i > 1 {
                assert(line@ =~= head + (spaced(before) + " "@ + quoted(arg@)));
            } else {
                assert(spaced(before) =~= Seq::<char>::empty());
                assert(line@ =~= head + quoted(arg@));
            }
        }
    }
    assert(all.take(cmd.args.len() as int) =~= all);
    line
}

/// What becomes of a file that discovery found, from whether the ignore
/// list matches it and whether files are added without asking.
pub fn decide_file(is_ignored: bool, auto: bool) -> (event: FileEvent)
    ensures
        event == decided(is_ignored, auto),
{
    if is_ignored {
        FileEvent::Ignored
    } else if auto {
        FileEvent::Added
    } else {
        FileEvent::Ask
    }
}

/// What becomes of the file `name` that discovery found.
pub fn event_file_found(options: &DiscoverOptions, name: &String) -> (event: FileEvent)
    ensures
        event == file_event(options.auto, texts(options.ignore@), name@),
{
    decide_file(should_be_ignored(name, options.ignore.as_slice()), options.auto)
}

/// What the line `line` answers to the question whether to add a file.
pub fn event_answer(line: &str) -> (answer: FileAnswer)
    ensures
        answer == answer_of(line@),
{
    let chars = chars_of(line);
    let mut start: usize = 0;
    while start < chars.len() && is_whitespace(chars[start])
        invariant
            start <= chars.len(),
            forall|i: int| 0 <= i < start ==> is_space(#[trigger] chars@[i]),
        decreases chars.len() - start,
    {
        start += 1;
    }
    proof {
        lemma_leading_spaces(chars@, start as int);
    }
    if start == chars.len() {
        return FileAnswer::Invalid;
    }
    let mut end: usize = chars.len();
    while end > start + 1 && is_whitespace(chars[end - 1])
        invariant
            start < end <= chars.len(),
            !is_space(chars@[start as int]),
            forall|i: int| end <= i < chars.len() ==> is_space(#[trigger] chars@[i]),
        decreases end,
    {
        end -= 1;
    }
    proof {
        lemma_trailing_spaces(chars@, chars.len() - end);
        assert(trimmed(chars@) =~= chars@.subrange(start as int, end as int));
    }
    let ghost word = trimmed(line@);
    if end - start != 1 {
        assert(word.len() != 1);
        return FileAnswer::Invalid;
    }
    let c = chars[start];
    assert(word =~= seq![c]);
    assert(seq![c] == seq!['y'] <==> c == 'y') by {
        if seq![c] == seq!['y'] {
            assert(seq![c][0] == seq!['y'][0]);
        }
    }
    assert(seq![c] == seq!['Y'] <==> c == 'Y') by {
        if seq![c] == seq!['Y'] {
            assert(seq![c][0] == seq!['Y'][0]);
        }
    }
    assert(seq![c] == seq!['n'] <==> c == 'n') by {
        if seq![c] == seq!['n'] {
            assert(seq![c][0] == seq!['n'][0]);
        }
    }
    assert(seq![c] == seq!['N'] <==> c == 'N') by {
        if seq![c] == seq!['N'] {
            assert(seq![c][0] == seq!['N'][0]);
        }
    }
    if c == 'y' || c == 'Y' {
        FileAnswer::Yes
    } else if c == 'n' || c == 'N' {
        FileAnswer::No
    } else {
        FileAnswer::Invalid
    }
}

} // verus!
