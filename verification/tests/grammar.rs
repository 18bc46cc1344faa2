use sourcemapt::command::{Command, MalformedCommand};

fn roundtrip(c: &Command) -> Command {
    Command::parse(&c.serialize()).expect("serialized command must parse back")
}

#[test]
fn round_trip_search_files() {
    let c = Command::SearchFiles {
        keywords: vec!["foo".to_string(), "bar baz".to_string()],
    };
    assert_eq!(roundtrip(&c), c);
}

#[test]
fn round_trip_search_files_empty() {
    let c = Command::SearchFiles { keywords: vec![] };
    assert_eq!(roundtrip(&c), c);
}

#[test]
fn round_trip_read_lines() {
    let c = Command::ReadLines {
        file: "pkg/foo.go".to_string(),
        start: 10,
        n: 5,
    };
    assert_eq!(roundtrip(&c), c);
}

#[test]
fn round_trip_jump() {
    let c = Command::Jump {
        file: "src/lib.go".to_string(),
        line: 739,
        char: 27,
        n: 10,
    };
    assert_eq!(roundtrip(&c), c);
}

#[test]
fn serialize_forms() {
    let c = Command::ReadLines {
        file: "f".to_string(),
        start: 10,
        n: 5,
    };
    assert_eq!(c.serialize(), "!READ_LINES \"f\" \"10\" \"5\"");
    let c = Command::Jump {
        file: "g".to_string(),
        line: 1,
        char: 2,
        n: 3,
    };
    assert_eq!(c.serialize(), "!JUMP \"g\" \"1\" \"2\" \"3\"");
    let c = Command::SearchFiles {
        keywords: vec!["a".to_string(), "b".to_string()],
    };
    assert_eq!(c.serialize(), "!SEARCH_FILES \"a\" \"b\"");
}

#[test]
fn parse_search_files() {
    let r = Command::parse("!SEARCH_FILES \"kiwi manager\" \"KiwisHaveBeenManaged\"");
    assert_eq!(
        r,
        Ok(Command::SearchFiles {
            keywords: vec!["kiwi manager".to_string(), "KiwisHaveBeenManaged".to_string()],
        })
    );
}

#[test]
fn parse_search_files_no_arguments() {
    assert_eq!(
        Command::parse("!SEARCH_FILES"),
        Ok(Command::SearchFiles { keywords: vec![] })
    );
}

#[test]
fn parse_backtick_wrapped() {
    let r = Command::parse("`!READ_LINES \"pkg/a.go\" \"3\" \"7\"`");
    assert_eq!(
        r,
        Ok(Command::ReadLines {
            file: "pkg/a.go".to_string(),
            start: 3,
            n: 7,
        })
    );
}

#[test]
fn read_lines_arity_error() {
    let r = Command::parse("!READ_LINES \"a\" \"b\"");
    assert_eq!(
        r,
        Err(MalformedCommand::WrongArity {
            name: "READ_LINES".to_string(),
            expected: 3,
            got: 2,
        })
    );
}

#[test]
fn read_lines_type_error() {
    let r = Command::parse("!READ_LINES \"a\" \"x\" \"2\"");
    assert_eq!(
        r,
        Err(MalformedCommand::BadNumber {
            name: "READ_LINES".to_string(),
            argument: "x".to_string(),
        })
    );
}

#[test]
fn jump_arity_error() {
    let r = Command::parse("!JUMP \"a\" \"1\" \"2\"");
    assert_eq!(
        r,
        Err(MalformedCommand::WrongArity {
            name: "JUMP".to_string(),
            expected: 4,
            got: 3,
        })
    );
}

#[test]
fn number_overflow_is_a_type_error() {
    let r = Command::parse("!READ_LINES \"a\" \"99999999999999999999999999\" \"2\"");
    assert_eq!(
        r,
        Err(MalformedCommand::BadNumber {
            name: "READ_LINES".to_string(),
            argument: "99999999999999999999999999".to_string(),
        })
    );
}

#[test]
fn unknown_identifier() {
    let r = Command::parse("!FROBNICATE \"x\"");
    assert_eq!(
        r,
        Err(MalformedCommand::UnknownCommand {
            name: "FROBNICATE".to_string(),
        })
    );
}

#[test]
fn not_a_command() {
    assert_eq!(Command::parse("hello world"), Err(MalformedCommand::NotACommand));
    assert_eq!(Command::parse(""), Err(MalformedCommand::NotACommand));
    assert_eq!(Command::parse("!"), Err(MalformedCommand::NotACommand));
}

#[test]
fn trailing_text_after_arguments_is_ignored() {
    let r = Command::parse("!SEARCH_FILES \"a\" and some prose");
    assert_eq!(
        r,
        Ok(Command::SearchFiles { keywords: vec!["a".to_string()] })
    );
}

#[test]
fn unterminated_argument_stops_the_scan() {
    let r = Command::parse("!READ_LINES \"a\" \"1");
    assert_eq!(
        r,
        Err(MalformedCommand::WrongArity {
            name: "READ_LINES".to_string(),
            expected: 3,
            got: 1,
        })
    );
}

#[test]
fn match_line_cases() {
    assert!(Command::match_line("!SEARCH_FILES \"x\""));
    assert!(Command::match_line("`!JUMP \"a\" \"1\" \"2\" \"3\"`"));
    assert!(Command::match_line("!SEARCH_FILES"));
    assert!(Command::match_line("!important note"));
    assert!(!Command::match_line("hello"));
    assert!(!Command::match_line("! space after bang"));
    assert!(!Command::match_line(""));
    assert!(!Command::match_line("`plain quoted`"));
}
