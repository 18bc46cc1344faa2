use sourcemapt::message::{ChatMessage, Role, SourcemaptMessage};
use sourcemapt::sourcegraph::{
    DefinitionNode, GetDefinitionResult, Hover, Range, Resource, SearchFilesFileLine,
    SearchFilesFileMatch, SearchFilesResult, SourcegraphError, search_result_json,
    search_result_message,
};
use sourcemapt::types::{CodeBlock, InjectedMessage};

#[test]
fn code_block_alignment() {
    let cb = CodeBlock {
        lines: vec!["a".to_string(), "b".to_string(), "c".to_string()],
        start: 8,
    };
    assert_eq!(cb.format(), " 9 | a\n10 | b\n11 | c");
}

#[test]
fn code_block_single_line() {
    let cb = CodeBlock {
        lines: vec!["x".to_string()],
        start: 0,
    };
    assert_eq!(cb.format(), "1 | x");
}

#[test]
fn code_block_empty() {
    let cb = CodeBlock { lines: vec![], start: 5 };
    assert_eq!(cb.format(), "");
}

#[test]
fn code_block_wide_numbers() {
    let cb = CodeBlock {
        lines: vec!["p".to_string(), "q".to_string()],
        start: 98,
    };
    assert_eq!(cb.format(), " 99 | p\n100 | q");
}

#[test]
fn chat_mapping_roles_and_content() {
    let m = SourcemaptMessage::System {
        content: "sys".to_string(),
        hidden: false,
    };
    assert_eq!(
        m.map_to_chat_message(),
        ChatMessage {
            role: Role::System,
            content: "sys".to_string(),
        }
    );
    let m = SourcemaptMessage::Code {
        code: CodeBlock {
            lines: vec!["z".to_string()],
            start: 0,
        },
        hidden: false,
    };
    assert_eq!(
        m.map_to_chat_message(),
        ChatMessage {
            role: Role::User,
            content: "1 | z".to_string(),
        }
    );
}

#[test]
fn injected_prompt_text() {
    let text = InjectedMessage::AskToSummarize.get_string();
    assert!(text.starts_with("Are you able to confidently answer"));
    assert!(text.contains("IN SUMMARY:"));
    assert!(text.ends_with("SEARCH_FILES, READ_LINES, and JUMP."));
}

fn sample_result() -> SearchFilesResult {
    SearchFilesResult {
        files: vec![SearchFilesFileMatch {
            path: "pkg/a.go".to_string(),
            url: "/r/pkg/a.go".to_string(),
            lines: vec![
                SearchFilesFileLine {
                    line_number: 3,
                    preview: "x \"y\"".to_string(),
                },
                SearchFilesFileLine {
                    line_number: 10,
                    preview: "plain".to_string(),
                },
            ],
        }],
    }
}

#[test]
fn search_result_written_form() {
    let expected = "{\"files\":[{\"path\":\"pkg/a.go\",\"url\":\"/r/pkg/a.go\",\"lines\":[{\"line_number\":3,\"preview\":\"x \\\"y\\\"\"},{\"line_number\":10,\"preview\":\"plain\"}]}]}";
    assert_eq!(search_result_json(&sample_result()), expected);
}

#[test]
fn search_result_empty() {
    let r = SearchFilesResult { files: vec![] };
    assert_eq!(search_result_json(&r), "{\"files\":[]}");
}

#[test]
fn search_result_escaping() {
    let r = SearchFilesResult {
        files: vec![SearchFilesFileMatch {
            path: "a\\b".to_string(),
            url: "u".to_string(),
            lines: vec![SearchFilesFileLine {
                line_number: 1,
                preview: "tab\there\nnewline\u{1}ctl".to_string(),
            }],
        }],
    };
    let expected = "{\"files\":[{\"path\":\"a\\\\b\",\"url\":\"u\",\"lines\":[{\"line_number\":1,\"preview\":\"tab\\there\\nnewline\\u0001ctl\"}]}]}";
    assert_eq!(search_result_json(&r), expected);
}

#[test]
fn search_result_wrapping() {
    let m = search_result_message(&SearchFilesResult { files: vec![] });
    assert_eq!(
        m,
        SourcemaptMessage::CommandResult {
            content: "{\"files\":[]}".to_string(),
            hidden: false,
        }
    );
}

fn range() -> Range {
    Range {
        line_start: 5,
        char_start: 0,
        line_end: 5,
        char_end: 10,
    }
}

#[test]
fn first_definition_picks_index_zero() {
    let r = GetDefinitionResult {
        definitions: vec![
            DefinitionNode {
                resource: Resource {
                    path: "a.go".to_string(),
                    repo: "r1".to_string(),
                    commit_oid: "c1".to_string(),
                },
                range: range(),
            },
            DefinitionNode {
                resource: Resource {
                    path: "b.go".to_string(),
                    repo: "r2".to_string(),
                    commit_oid: "c2".to_string(),
                },
                range: range(),
            },
        ],
        hover: Hover {
            markdown: "doc".to_string(),
            range: range(),
        },
    };
    let first = r.first_definition().expect("definitions are present");
    assert_eq!(first.resource.path, "a.go");
}

#[test]
fn first_definition_empty() {
    let r = GetDefinitionResult {
        definitions: vec![],
        hover: Hover {
            markdown: "doc".to_string(),
            range: range(),
        },
    };
    assert!(r.first_definition().is_none());
}

#[test]
fn sourcegraph_error_message() {
    let e = SourcegraphError("missing data".to_string());
    assert_eq!(e.message(), "missing data");
}
