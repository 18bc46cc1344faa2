use sourcemapt::command::{Command, MalformedCommand};
use sourcemapt::message::SourcemaptMessage;
use sourcemapt::segment::segment_completion;

fn model(text: &str) -> SourcemaptMessage {
    SourcemaptMessage::Model {
        content: text.to_string(),
        hidden: false,
    }
}

fn invocation(c: Command) -> SourcemaptMessage {
    SourcemaptMessage::CommandInvocation {
        command: c,
        hidden: false,
    }
}

#[test]
fn segmenter_ordering() {
    let r = segment_completion("intro\n!SEARCH_FILES \"foo\"\nmore text").unwrap();
    assert_eq!(
        r,
        vec![
            model("intro"),
            invocation(Command::SearchFiles { keywords: vec!["foo".to_string()] }),
            model("more text"),
        ]
    );
}

#[test]
fn fence_suppression() {
    let r = segment_completion("!SEARCH_FILES \"foo\"\n```").unwrap();
    assert_eq!(
        r,
        vec![invocation(Command::SearchFiles { keywords: vec!["foo".to_string()] })]
    );
}

#[test]
fn fenced_command_block() {
    let r = segment_completion("Let me look.\n```\n!READ_LINES \"a.go\" \"0\" \"3\"\n```\nDone.")
        .unwrap();
    assert_eq!(
        r,
        vec![
            model("Let me look."),
            invocation(Command::ReadLines {
                file: "a.go".to_string(),
                start: 0,
                n: 3,
            }),
            model("Done."),
        ]
    );
}

#[test]
fn quote_fence_suppression() {
    let r = segment_completion("!SEARCH_FILES \"foo\"\n\"\"\"").unwrap();
    assert_eq!(
        r,
        vec![invocation(Command::SearchFiles { keywords: vec!["foo".to_string()] })]
    );
}

#[test]
fn empty_completion_yields_no_messages() {
    assert_eq!(segment_completion("").unwrap(), vec![]);
    assert_eq!(segment_completion("   \n  \n").unwrap(), vec![]);
}

#[test]
fn prose_only_completion_yields_one_trimmed_message() {
    let r = segment_completion("  hello\nworld  \n").unwrap();
    assert_eq!(r, vec![model("hello\nworld")]);
}

#[test]
fn fence_only_completion_yields_no_messages() {
    assert_eq!(segment_completion("```\n```").unwrap(), vec![]);
}

#[test]
fn malformed_command_fails_the_completion() {
    let r = segment_completion("thinking\n!READ_LINES \"a\" \"b\"\nrest");
    assert_eq!(
        r,
        Err(MalformedCommand::WrongArity {
            name: "READ_LINES".to_string(),
            expected: 3,
            got: 2,
        })
    );
}

#[test]
fn two_commands_back_to_back() {
    let r = segment_completion("!SEARCH_FILES \"a\"\n!SEARCH_FILES \"b\"").unwrap();
    assert_eq!(
        r,
        vec![
            invocation(Command::SearchFiles { keywords: vec!["a".to_string()] }),
            invocation(Command::SearchFiles { keywords: vec!["b".to_string()] }),
        ]
    );
}

#[test]
fn interior_fence_lines_are_dropped_from_prose() {
    let r = segment_completion("before\n```\ncode-looking text\n```\nafter").unwrap();
    assert_eq!(r, vec![model("before\ncode-looking text\nafter")]);
}

#[test]
fn crlf_lines_are_handled() {
    let r = segment_completion("intro\r\n!SEARCH_FILES \"x\"\r\n").unwrap();
    assert_eq!(
        r,
        vec![
            model("intro"),
            invocation(Command::SearchFiles { keywords: vec!["x".to_string()] }),
        ]
    );
}
