use sourcemapt::agent::{
    classify_outcome, code_from_content, commands_of_round, is_expected_round_message,
    jump_failure_message, ProcessResponsesOutcome, Sourcemapt,
};
use sourcemapt::command::Command;
use sourcemapt::message::{Role, SourcemaptMessage};
use sourcemapt::segment::segment_completion;
use sourcemapt::types::{CodeBlock, InjectedMessage};

fn model(text: &str) -> SourcemaptMessage {
    SourcemaptMessage::Model {
        content: text.to_string(),
        hidden: false,
    }
}

fn user(text: &str) -> SourcemaptMessage {
    SourcemaptMessage::User {
        content: text.to_string(),
        hidden: false,
    }
}

fn ask_to_summarize() -> SourcemaptMessage {
    SourcemaptMessage::Injected {
        kind: InjectedMessage::AskToSummarize,
        hidden: false,
    }
}

#[test]
fn visibility_filtering() {
    let mut s = Sourcemapt::new("github.com/x/y".to_string(), "main".to_string());
    s.append_messages(vec![
        SourcemaptMessage::Model {
            content: "hidden thought".to_string(),
            hidden: true,
        },
        user("visible question"),
    ]);
    let prompt = s.visible_prompt();
    assert_eq!(prompt.len(), 1);
    assert_eq!(prompt[0].role, Role::User);
    assert_eq!(prompt[0].content, "visible question");
}

#[test]
fn prompt_roles() {
    let mut s = Sourcemapt::new("r".to_string(), "m".to_string());
    s.add_system();
    s.append_messages(vec![
        user("q"),
        ask_to_summarize(),
        model("a"),
        SourcemaptMessage::CommandInvocation {
            command: Command::SearchFiles { keywords: vec!["k".to_string()] },
            hidden: false,
        },
        SourcemaptMessage::CommandResult {
            content: "{}".to_string(),
            hidden: false,
        },
    ]);
    let prompt = s.visible_prompt();
    let roles: Vec<Role> = prompt.iter().map(|p| p.role).collect();
    assert_eq!(
        roles,
        vec![Role::System, Role::User, Role::User, Role::Assistant, Role::Assistant, Role::User]
    );
    assert_eq!(prompt[4].content, "!SEARCH_FILES \"k\"");
    assert!(prompt[0].content.starts_with("You are a programming assistant"));
    assert!(prompt[2].content.starts_with("Are you able to confidently answer"));
}

#[test]
fn outcome_priority() {
    let responses = vec![
        SourcemaptMessage::CommandInvocation {
            command: Command::SearchFiles { keywords: vec![] },
            hidden: false,
        },
        model("IN SUMMARY: all done"),
    ];
    let results = vec![SourcemaptMessage::CommandResult {
        content: "{\"files\":[]}".to_string(),
        hidden: false,
    }];
    let outcome = classify_outcome(&responses, results.clone());
    assert_eq!(outcome, ProcessResponsesOutcome::CallWithCommandResults(results));
}

#[test]
fn outcome_stop_on_summary() {
    let responses = vec![model("IN SUMMARY: the function repacks subsets")];
    assert_eq!(
        classify_outcome(&responses, vec![]),
        ProcessResponsesOutcome::Stop
    );
}

#[test]
fn outcome_introspect_on_plain_prose() {
    let responses = vec![model("still thinking")];
    assert_eq!(
        classify_outcome(&responses, vec![]),
        ProcessResponsesOutcome::CallForIntrospect
    );
    assert_eq!(
        classify_outcome(&vec![], vec![]),
        ProcessResponsesOutcome::CallForIntrospect
    );
}

#[test]
fn summary_detection() {
    assert!(model("Sure. IN SUMMARY: it works like this").is_summary());
    assert!(!model("No summary here").is_summary());
    assert!(!user("IN SUMMARY: a user cannot conclude").is_summary());
}

#[test]
fn conceal_and_hidden() {
    let mut m = model("x");
    assert!(!m.hidden());
    m.conceal();
    assert!(m.hidden());
    assert_eq!(
        m,
        SourcemaptMessage::Model {
            content: "x".to_string(),
            hidden: true,
        }
    );
}

#[test]
fn compactor_hides_ignored_steering_prompt() {
    let mut s = Sourcemapt::new("r".to_string(), "m".to_string());
    s.append_messages(vec![ask_to_summarize(), model("still digging")]);
    s.compact();
    assert!(s.messages[0].hidden());
    assert!(!s.messages[1].hidden());
}

#[test]
fn compactor_keeps_answered_steering_prompt() {
    let mut s = Sourcemapt::new("r".to_string(), "m".to_string());
    s.append_messages(vec![ask_to_summarize(), model("IN SUMMARY: done")]);
    s.compact();
    assert!(!s.messages[0].hidden());
}

#[test]
fn compactor_keeps_trailing_steering_prompt() {
    let mut s = Sourcemapt::new("r".to_string(), "m".to_string());
    s.append_messages(vec![model("a"), ask_to_summarize()]);
    s.compact();
    assert!(!s.messages[1].hidden());
}

#[test]
fn compactor_idempotence() {
    let mut s = Sourcemapt::new("r".to_string(), "m".to_string());
    s.append_messages(vec![
        ask_to_summarize(),
        model("keep going"),
        ask_to_summarize(),
        model("IN SUMMARY: answered"),
    ]);
    s.compact();
    let once = s.messages.clone();
    s.compact();
    assert_eq!(s.messages, once);
}

#[test]
fn code_slicing() {
    let content = "l0\nl1\nl2\nl3\nl4";
    let m = code_from_content(content, 1, 2);
    assert_eq!(
        m,
        SourcemaptMessage::Code {
            code: CodeBlock {
                lines: vec!["l1".to_string(), "l2".to_string()],
                start: 1,
            },
            hidden: false,
        }
    );
}

#[test]
fn code_slicing_short_file() {
    let content = "l0\nl1";
    let m = code_from_content(content, 1, 10);
    assert_eq!(
        m,
        SourcemaptMessage::Code {
            code: CodeBlock {
                lines: vec!["l1".to_string()],
                start: 1,
            },
            hidden: false,
        }
    );
}

#[test]
fn code_slicing_out_of_range_start() {
    let m = code_from_content("l0\nl1", 10, 3);
    assert_eq!(
        m,
        SourcemaptMessage::Code {
            code: CodeBlock { lines: vec![], start: 10 },
            hidden: false,
        }
    );
}

#[test]
fn jump_failure_wording() {
    let m = jump_failure_message("pkg/foo.go");
    assert_eq!(
        m,
        SourcemaptMessage::User {
            content: "Couldn't find definition for `pkg/foo.go`".to_string(),
            hidden: false,
        }
    );
}

#[test]
fn round_command_extraction() {
    let responses = vec![
        model("first"),
        SourcemaptMessage::CommandInvocation {
            command: Command::ReadLines {
                file: "a".to_string(),
                start: 0,
                n: 1,
            },
            hidden: false,
        },
        user("odd"),
        SourcemaptMessage::CommandInvocation {
            command: Command::SearchFiles { keywords: vec!["k".to_string()] },
            hidden: false,
        },
    ];
    let cmds = commands_of_round(&responses);
    assert_eq!(
        cmds,
        vec![
            Command::ReadLines {
                file: "a".to_string(),
                start: 0,
                n: 1,
            },
            Command::SearchFiles { keywords: vec!["k".to_string()] },
        ]
    );
    assert!(is_expected_round_message(&responses[0]));
    assert!(is_expected_round_message(&responses[1]));
    assert!(!is_expected_round_message(&responses[2]));
}

#[test]
fn end_to_end_round() {
    let mut s = Sourcemapt::new("github.com/k/k".to_string(), "master".to_string());
    s.add_system();
    s.append_messages(vec![user("question")]);

    let completion = "!READ_LINES \"pkg/foo.go\" \"10\" \"5\"";
    let responses = segment_completion(completion).unwrap();
    assert_eq!(
        responses,
        vec![SourcemaptMessage::CommandInvocation {
            command: Command::ReadLines {
                file: "pkg/foo.go".to_string(),
                start: 10,
                n: 5,
            },
            hidden: false,
        }]
    );
    s.append_messages(responses.clone());

    let file_content = (0..20).map(|i| format!("line{}", i)).collect::<Vec<_>>().join("\n");
    let mut results = Vec::new();
    for cmd in commands_of_round(&responses) {
        match cmd {
            Command::ReadLines { file: _, start, n } => {
                results.push(code_from_content(&file_content, start, n));
            }
            _ => panic!("unexpected command"),
        }
    }
    match &results[0] {
        SourcemaptMessage::Code { code, hidden } => {
            assert!(!hidden);
            assert_eq!(code.start, 10);
            assert_eq!(code.lines.len(), 5);
            assert_eq!(code.lines[0], "line10");
        }
        _ => panic!("expected a code message"),
    }
    let outcome = classify_outcome(&responses, results.clone());
    assert_eq!(outcome, ProcessResponsesOutcome::CallWithCommandResults(results));
}
