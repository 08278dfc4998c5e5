use rustyforge::config::{dummy_config, CompilerKind};
use rustyforge::error::ErrorKind;
use rustyforge::headers::{
    dependency_output, gcc_clang_mm, is_whitespace, parse_h_dependencies, split_whitespace,
    unresolved_header, ProcessOutput,
};

fn exited(success: bool, stdout: Option<&str>, stderr: Option<&str>) -> ProcessOutput {
    ProcessOutput::Exited {
        success,
        stdout: stdout.map(|s| s.to_string()),
        stderr: stderr.map(|s| s.to_string()),
    }
}

fn words(text: &str) -> Vec<String> {
    let chars: Vec<char> = text.chars().collect();
    split_whitespace(&chars).into_iter().map(|w| w.into_iter().collect()).collect()
}

#[test]
fn test_parse_single_line_rule() {
    let headers = parse_h_dependencies("main.o: main.c include/a.h include/b.h\n").unwrap();
    assert_eq!(headers, vec!["include/a.h", "include/b.h"]);
}

#[test]
fn test_parse_rule_with_continuations() {
    let output = "main.o: src/main.c include/a.h \\\n include/b.h \\\n  /usr/include/c.h\n";
    let headers = parse_h_dependencies(output).unwrap();
    assert_eq!(headers, vec!["include/a.h", "include/b.h", "/usr/include/c.h"]);
}

#[test]
fn test_continuation_joins_what_it_splits() {
    let headers = parse_h_dependencies("a.o: a.c incl\\\nude/a.h x\\\n").unwrap();
    assert_eq!(headers, vec!["include/a.h"]);
}

#[test]
fn test_parse_keeps_only_headers() {
    let output = "x.o: x.c a.h b.hpp c.inc h .h d.H e.c.h";
    assert_eq!(parse_h_dependencies(output).unwrap(), vec!["a.h", ".h", "e.c.h"]);
}

#[test]
fn test_parse_rule_without_dependencies() {
    assert_eq!(parse_h_dependencies("main.o:").unwrap(), Vec::<String>::new());
    assert_eq!(parse_h_dependencies(":").unwrap(), Vec::<String>::new());
    assert_eq!(parse_h_dependencies("main.o: \t\n").unwrap(), Vec::<String>::new());
}

#[test]
fn test_target_is_no_dependency() {
    assert_eq!(parse_h_dependencies("odd.h: main.c").unwrap(), Vec::<String>::new());
}

#[test]
fn test_parse_output_without_colon() {
    let error = parse_h_dependencies("no rule here").unwrap_err();
    assert_eq!(error.kind, ErrorKind::DependencyExtraction);
    assert_eq!(error.message, "Could not parse compiler output: no rule here");
    let error = parse_h_dependencies("").unwrap_err();
    assert_eq!(error.message, "Could not parse compiler output: ");
}

#[test]
fn test_parse_output_with_two_colons() {
    let output = "a.o: a.c a.h\nb.o: b.c b.h\n";
    let error = parse_h_dependencies(output).unwrap_err();
    assert_eq!(error.kind, ErrorKind::DependencyExtraction);
    assert_eq!(error.message, format!("Could not parse compiler output: {}", output));
    assert!(parse_h_dependencies("main.o: C:/inc/a.h").is_err());
}

#[test]
fn test_split_whitespace() {
    assert_eq!(words("  a  bc\td\n"), vec!["a", "bc", "d"]);
    assert_eq!(words(""), Vec::<String>::new());
    assert_eq!(words(" \n\t "), Vec::<String>::new());
    assert_eq!(words("single"), vec!["single"]);
    assert_eq!(words("a\u{a0}b\u{2003}c\u{3000}d"), vec!["a", "b", "c", "d"]);
    assert_eq!(words("a\u{200b}b"), vec!["a\u{200b}b"]);
}

#[test]
fn test_is_whitespace_agrees_with_the_standard_library() {
    let mut code: u32 = 0;
    while code <= 0x3100 {
        if let Some(c) = char::from_u32(code) {
            assert_eq!(is_whitespace(c), c.is_whitespace(), "U+{:04X}", code);
        }
        code += 1;
    }
    assert!(!is_whitespace('\u{feff}'));
}

#[test]
fn test_listing_command() {
    let mut config = dummy_config(true);
    config.forge.build.include_dirs = vec!["include".to_string(), "third/inc".to_string()];
    let cmd = gcc_clang_mm("./src\\main.c", &config).unwrap();
    assert_eq!(cmd.program, "gcc");
    assert_eq!(cmd.args, vec!["-MM", "src/main.c", "-Iinclude", "-Ithird/inc"]);
    config.compiler = CompilerKind::Clang;
    config.forge.build.include_dirs = Vec::new();
    let cmd = gcc_clang_mm("main.c", &config).unwrap();
    assert_eq!(cmd.program, "clang");
    assert_eq!(cmd.args, vec!["-MM", "main.c"]);
}

#[test]
fn test_listing_command_with_msvc() {
    let mut config = dummy_config(true);
    config.compiler = CompilerKind::MSVC;
    let error = gcc_clang_mm("main.c", &config).unwrap_err();
    assert_eq!(error.kind, ErrorKind::UnsupportedToolchain);
    assert_eq!(error.message, "Compiler not supported: msvc");
}

#[test]
fn test_dependency_output_of_a_successful_run() {
    let process = exited(true, Some("main.o: main.c a.h"), Some("warning"));
    assert_eq!(dependency_output(&process, "main.c"), Ok("main.o: main.c a.h".to_string()));
}

#[test]
fn test_dependency_output_of_a_failed_run() {
    let process = exited(false, Some("partial"), Some("main.c:1: fatal error"));
    let error = dependency_output(&process, "main.c").unwrap_err();
    assert_eq!(error.kind, ErrorKind::DependencyExtraction);
    assert_eq!(error.message, "Error compiling file: main.c:1: fatal error");
}

#[test]
fn test_dependency_output_that_is_no_text() {
    let error = dependency_output(&exited(true, None, Some("")), "src/main.c").unwrap_err();
    assert_eq!(error.kind, ErrorKind::DependencyExtraction);
    assert_eq!(error.message, "Could not convert stdout to string: src/main.c");
    let error = dependency_output(&exited(false, Some(""), None), "src/main.c").unwrap_err();
    assert_eq!(error.kind, ErrorKind::DependencyExtraction);
    assert_eq!(error.message, "Could not convert stderr to string: src/main.c");
}

#[test]
fn test_dependency_output_when_the_compiler_did_not_start() {
    let process = ProcessOutput::NotStarted("No such file or directory".to_string());
    let error = dependency_output(&process, "main.c").unwrap_err();
    assert_eq!(error.kind, ErrorKind::DependencyExtraction);
    assert_eq!(error.message, "No such file or directory");
}

#[test]
fn test_unresolved_header() {
    assert_eq!(unresolved_header("/work", "/usr/include/stdio.h"), None);
    assert_eq!(unresolved_header("/work", "include/a.h"), Some("/work/include/a.h".to_string()));
    assert_eq!(unresolved_header("/work/", "../a.h"), Some("/work/../a.h".to_string()));
    assert_eq!(unresolved_header("", "a.h"), Some("a.h".to_string()));
}
