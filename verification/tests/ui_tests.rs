use rustyforge::arguments::DiscoverOptions;
use rustyforge::ui::{
    decide_file, event_answer, event_file_found, verbose_command, verbose_command_hard,
    FileAnswer, FileEvent,
};
use rustyforge::utils::CommandLine;

fn command(program: &str, args: &[&str]) -> CommandLine {
    CommandLine { program: program.to_string(), args: args.iter().map(|a| a.to_string()).collect() }
}

#[test]
fn test_verbose_command_hides_the_project_directory() {
    let cmd = command("gcc", &["-c", "/work/src/main.c", "-o", "/work/forge/debug/main.o"]);
    assert_eq!(
        verbose_command(&cmd, "/work"),
        "Running: gcc -c src/main.c -o forge/debug/main.o"
    );
}

#[test]
fn test_verbose_command_quotes_arguments_with_blanks() {
    let cmd = command("/work/forge/debug/app", &["/work/my file.c", "plain", "a b", ""]);
    assert_eq!(
        verbose_command(&cmd, "/work"),
        "Running: forge/debug/app \"my file.c\" plain \"a b\" "
    );
}

#[test]
fn test_verbose_command_without_arguments() {
    assert_eq!(verbose_command(&command("ar", &[]), "/work"), "Running: ar ");
    assert_eq!(verbose_command_hard(&command("ar", &[])), "Running (raw): ar ");
}

#[test]
fn test_verbose_command_hard_keeps_paths() {
    let cmd = command("gcc", &["-c", "/work/src/main.c", "-DNAME=a b"]);
    assert_eq!(
        verbose_command_hard(&cmd),
        "Running (raw): gcc -c /work/src/main.c \"-DNAME=a b\""
    );
}

#[test]
fn test_event_file_found() {
    let ignore = vec!["*.c".to_string()];
    let ask = DiscoverOptions { auto: false, ignore: ignore.clone() };
    let auto = DiscoverOptions { auto: true, ignore };
    assert_eq!(event_file_found(&ask, &"main.c".to_string()), FileEvent::Ignored);
    assert_eq!(event_file_found(&auto, &"main.c".to_string()), FileEvent::Ignored);
    assert_eq!(event_file_found(&ask, &"main.h".to_string()), FileEvent::Ask);
    assert_eq!(event_file_found(&auto, &"main.h".to_string()), FileEvent::Added);
}

#[test]
fn test_event_answer() {
    assert_eq!(event_answer("y"), FileAnswer::Yes);
    assert_eq!(event_answer("Y\n"), FileAnswer::Yes);
    assert_eq!(event_answer("  y \r\n"), FileAnswer::Yes);
    assert_eq!(event_answer("n"), FileAnswer::No);
    assert_eq!(event_answer("\tN\n"), FileAnswer::No);
    assert_eq!(event_answer(""), FileAnswer::Invalid);
    assert_eq!(event_answer("\n"), FileAnswer::Invalid);
    assert_eq!(event_answer("yes"), FileAnswer::Invalid);
    assert_eq!(event_answer("y n"), FileAnswer::Invalid);
    assert_eq!(event_answer("no"), FileAnswer::Invalid);
    assert_eq!(event_answer("x"), FileAnswer::Invalid);
}

#[test]
fn test_event_answer_agrees_with_trim_and_lowercase() {
    for line in ["y", " Y", "n ", "N", "ｙ", "Ｙ", "ý", "\u{a0}y\u{2003}", "yy", "", " ", "0"] {
        let word = line.trim().to_lowercase();
        let expected = match word.as_str() {
            "y" => FileAnswer::Yes,
            "n" => FileAnswer::No,
            _ => FileAnswer::Invalid,
        };
        assert_eq!(event_answer(line), expected, "{:?}", line);
    }
}

#[test]
fn test_decide_file() {
    assert_eq!(decide_file(true, true), FileEvent::Ignored);
    assert_eq!(decide_file(true, false), FileEvent::Ignored);
    assert_eq!(decide_file(false, true), FileEvent::Added);
    assert_eq!(decide_file(false, false), FileEvent::Ask);
}
