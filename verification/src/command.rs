//! The command micro-language the model embeds in its completions:
//! `!IDENT "arg1" "arg2" ...`, optionally wrapped in a single leading or
//! trailing backtick.  Arguments are exactly the text between pairs of double
//! quotes, with no escape processing.  Recognized identifiers:
//! `SEARCH_FILES` (any number of arguments), `READ_LINES` (exactly three),
//! `JUMP` (exactly four); numeric fields must read as non-negative integers.

use vstd::prelude::*;
use vstd::string::StringExecFns;
use crate::text::{
    is_space_char, is_word_char, space_char, word_char, to_char_vec, chars_to_string,
    parse_usize_spec, chars_to_usize, dec_digits, usize_to_chars, lemma_dec_digits_val,
    is_digit_char,
};

verus! {

/// A parsed command.  Commands are immutable values; equality is structural.
#[derive(Debug, PartialEq, Clone)]
pub enum Command {
    SearchFiles { keywords: Vec<String> },
    ReadLines { file: String, start: usize, n: usize },
    Jump { file: String, line: usize, char: usize, n: usize },
}

/// The mathematical value of a [`Command`].
pub enum CommandModel {
    SearchFiles { keywords: Seq<Seq<char>> },
    ReadLines { file: Seq<char>, start: usize, n: usize },
    Jump { file: Seq<char>, line: usize, char: usize, n: usize },
}

impl View for Command {
    type V = CommandModel;

    open spec fn view(&self) -> CommandModel {
        match self {
            Command::SearchFiles { keywords } => CommandModel::SearchFiles {
                keywords: keywords.deep_view(),
            },
            Command::ReadLines { file, start, n } => CommandModel::ReadLines {
                file: file@,
                start: *start,
                n: *n,
            },
            Command::Jump { file, line, char, n } => CommandModel::Jump {
                file: file@,
                line: *line,
                char: *char,
                n: *n,
            },
        }
    }
}

impl DeepView for Command {
    type V = CommandModel;

    open spec fn deep_view(&self) -> CommandModel {
        self.view()
    }
}

/// Why a line failed to parse as a command: it does not open a command at
/// all, its identifier is unknown, an identifier got the wrong number of
/// arguments, or a numeric field did not read as a non-negative integer.
#[derive(Debug, PartialEq, Clone)]
pub enum MalformedCommand {
    NotACommand,
    UnknownCommand { name: String },
    WrongArity { name: String, expected: usize, got: usize },
    BadNumber { name: String, argument: String },
}

/// The mathematical value of a [`MalformedCommand`].
pub enum MalformedCommandModel {
    NotACommand,
    UnknownCommand { name: Seq<char> },
    WrongArity { name: Seq<char>, expected: int, got: int },
    BadNumber { name: Seq<char>, argument: Seq<char> },
}

impl View for MalformedCommand {
    type V = MalformedCommandModel;

    open spec fn view(&self) -> MalformedCommandModel {
        match self {
            MalformedCommand::NotACommand => MalformedCommandModel::NotACommand,
            MalformedCommand::UnknownCommand { name } => MalformedCommandModel::UnknownCommand {
                name: name@,
            },
            MalformedCommand::WrongArity { name, expected, got } => {
                MalformedCommandModel::WrongArity {
                    name: name@,
                    expected: *expected as int,
                    got: *got as int,
                }
            },
            MalformedCommand::BadNumber { name, argument } => MalformedCommandModel::BadNumber {
                name: name@,
                argument: argument@,
            },
        }
    }
}

// ---------------------------------------------------------------------------
// The grammar, as functions on character sequences
// ---------------------------------------------------------------------------
/// `s` without one leading backtick, if it has one.
pub open spec fn after_backtick(s: Seq<char>) -> Seq<char> {
    if s.len() > 0 && s[0] == '`' {
        s.drop_first()
    } else {
        s
    }
}

/// A line opens a command when, after an optional leading backtick, it starts
/// with `!` followed by an identifier character.
pub open spec fn opens_command(s: Seq<char>) -> bool {
    let t = after_backtick(s);
    t.len() >= 2 && t[0] == '!' && is_word_char(t[1])
}

/// The longest prefix of `s` made of identifier characters.
pub open spec fn take_while_word(s: Seq<char>) -> Seq<char>
    decreases s.len(),
{
    if s.len() == 0 || !is_word_char(s[0]) {
        Seq::empty()
    } else {
        seq![s[0]] + take_while_word(s.drop_first())
    }
}

/// The longest prefix of `s` with no double quote.
pub open spec fn take_while_arg(s: Seq<char>) -> Seq<char>
    decreases s.len(),
{
    if s.len() == 0 || s[0] == '"' {
        Seq::empty()
    } else {
        seq![s[0]] + take_while_arg(s.drop_first())
    }
}

/// The number of leading whitespace characters of `s`.
pub open spec fn leading_spaces(s: Seq<char>) -> nat
    decreases s.len(),
{
    if s.len() == 0 || !is_space_char(s[0]) {
        0
    } else {
        1 + leading_spaces(s.drop_first())
    }
}

/// The double-quoted arguments read greedily from `s`: each argument needs at
/// least one whitespace character, an opening quote, at least one character of
/// content, and a closing quote; scanning stops at the first position where
/// that shape ends, and the rest of the line is ignored.
pub open spec fn parse_args(s: Seq<char>) -> Seq<Seq<char>>
    decreases s.len(),
{
    let w = leading_spaces(s) as int;
    if w == 0 || w > s.len() {
        Seq::empty()
    } else {
        let r = s.skip(w);
        if r.len() >= 1 && r[0] == '"' {
            let content = take_while_arg(r.drop_first());
            if content.len() >= 1 && content.len() + 2 <= r.len() {
                seq![content] + parse_args(r.skip(content.len() as int + 2))
            } else {
                Seq::empty()
            }
        } else {
            Seq::empty()
        }
    }
}

/// What an identifier and its argument list mean: the command, or the exact
/// error.
pub open spec fn parsed_tokens(name: Seq<char>, args: Seq<Seq<char>>) -> Result<
    CommandModel,
    MalformedCommandModel,
> {
    if name == "SEARCH_FILES"@ {
        Ok(CommandModel::SearchFiles { keywords: args })
    } else if name == "READ_LINES"@ {
        if args.len() != 3 {
            Err(MalformedCommandModel::WrongArity { name, expected: 3, got: args.len() as int })
        } else {
            match (parse_usize_spec(args[1]), parse_usize_spec(args[2])) {
                (Some(start), Some(n)) => Ok(CommandModel::ReadLines { file: args[0], start, n }),
                (None, _) => Err(MalformedCommandModel::BadNumber { name, argument: args[1] }),
                (Some(_), None) => Err(
                    MalformedCommandModel::BadNumber { name, argument: args[2] },
                ),
            }
        }
    } else if name == "JUMP"@ {
        if args.len() != 4 {
            Err(MalformedCommandModel::WrongArity { name, expected: 4, got: args.len() as int })
        } else {
            match (parse_usize_spec(args[1]), parse_usize_spec(args[2]), parse_usize_spec(
                args[3],
            )) {
                (Some(line), Some(char), Some(n)) => Ok(
                    CommandModel::Jump { file: args[0], line, char, n },
                ),
                (None, _, _) => Err(MalformedCommandModel::BadNumber { name, argument: args[1] }),
                (Some(_), None, _) => Err(
                    MalformedCommandModel::BadNumber { name, argument: args[2] },
                ),
                (Some(_), Some(_), None) => Err(
                    MalformedCommandModel::BadNumber { name, argument: args[3] },
                ),
            }
        }
    } else {
        Err(MalformedCommandModel::UnknownCommand { name })
    }
}

/// What one full line means as a command: the parsed command, or the exact
/// error.
pub open spec fn parsed_line(s: Seq<char>) -> Result<CommandModel, MalformedCommandModel> {
    if !opens_command(s) {
        Err(MalformedCommandModel::NotACommand)
    } else {
        let t = after_backtick(s).drop_first();
        let name = take_while_word(t);
        let args = parse_args(t.skip(name.len() as int));
        parsed_tokens(name, args)
    }
}

// ---------------------------------------------------------------------------
// Serialization
// ---------------------------------------------------------------------------
/// Each argument re-emitted as ` "arg"`.
pub open spec fn quoted_args(args: Seq<Seq<char>>) -> Seq<char>
    decreases args.len(),
{
    if args.len() == 0 {
        Seq::empty()
    } else {
        seq![' ', '"'] + args[0] + seq!['"'] + quoted_args(args.drop_first())
    }
}

/// The canonical written form of a command: `!` and the identifier, then each
/// argument double-quoted and space-separated, in the variant's field order.
pub open spec fn serialized(c: CommandModel) -> Seq<char> {
    match c {
        CommandModel::SearchFiles { keywords } => "!SEARCH_FILES"@ + quoted_args(keywords),
        CommandModel::ReadLines { file, start, n } => "!READ_LINES"@ + quoted_args(
            seq![file, dec_digits(start as nat), dec_digits(n as nat)],
        ),
        CommandModel::Jump { file, line, char, n } => "!JUMP"@ + quoted_args(
            seq![file, dec_digits(line as nat), dec_digits(char as nat), dec_digits(n as nat)],
        ),
    }
}

/// A string that survives quoting: non-empty, holding no double quote.  An
/// empty argument or one holding a quote cannot be written in the grammar.
pub open spec fn quotable(s: Seq<char>) -> bool {
    s.len() >= 1 && forall|k: int| 0 <= k < s.len() ==> s[k] != '"'
}

/// A command whose written form parses back: every string field is quotable.
pub open spec fn serializable(c: CommandModel) -> bool {
    match c {
        CommandModel::SearchFiles { keywords } => forall|i: int|
            0 <= i < keywords.len() ==> quotable(#[trigger] keywords[i]),
        CommandModel::ReadLines { file, .. } => quotable(file),
        CommandModel::Jump { file, .. } => quotable(file),
    }
}

impl Command {
    /// Whether `line` opens a command.
    pub fn match_line(line: &str) -> (b: bool)
        ensures
            b == opens_command(line@),
    {
        let v = to_char_vec(line);
        let start: usize = if v.len() > 0 && v[0] == '`' {
            1
        } else {
            0
        };
        proof {
            assert(after_backtick(line@) =~= v@.skip(start as int));
        }
        if v.len() >= start + 2 && v[start] == '!' && word_char(v[start + 1]) {
            true
        } else {
            false
        }
    }

    /// The canonical written form of this command.
    #[verifier::rlimit(50)]
    pub fn serialize(&self) -> (r: String)
        ensures
            r@ == serialized(self@),
    {
        match self {
            Command::SearchFiles { keywords } => {
                let mut r = String::new();
                r.append("!SEARCH_FILES");
                let ghost kws = keywords.deep_view();
                let mut i: usize = 0;
                proof {
                    assert(kws.skip(0) =~= kws);
                    assert(r@ =~= "!SEARCH_FILES"@);
                }
                while i < keywords.len()
                    invariant
                        i <= kws.len(),
                        kws == keywords.deep_view(),
                        serialized(CommandModel::SearchFiles { keywords: kws }) =~= r@
                            + quoted_args(kws.skip(i as int)),
                    decreases kws.len() - i,
                {
                    let ghost prev = r@;
                    let ghost rest = kws.skip(i as int);
                    append_quoted(&mut r, keywords[i].as_str());
                    proof {
                        assert(rest[0] == kws[i as int]);
                        assert(rest.drop_first() =~= kws.skip(i + 1));
                        assert(prev + (seq![' ', '"'] + rest[0] + seq!['"'] + quoted_args(
                            rest.drop_first(),
                        )) =~= (prev + seq![' ', '"'] + rest[0] + seq!['"']) + quoted_args(
                            kws.skip(i + 1),
                        ));
                    }
                    i = i + 1;
                }
                proof {
                    assert(kws.skip(kws.len() as int) =~= Seq::<Seq<char>>::empty());
                    assert(r@ + Seq::<char>::empty() =~= r@);
                }
                r
            },
            Command::ReadLines { file, start, n } => {
                let mut r = String::new();
                r.append("!READ_LINES");
                append_quoted(&mut r, file.as_str());
                let ds = chars_to_string(&usize_to_chars(*start));
                append_quoted(&mut r, ds.as_str());
                let dn = chars_to_string(&usize_to_chars(*n));
                append_quoted(&mut r, dn.as_str());
                proof {
                    let args = seq![
                        file@,
                        dec_digits(*start as nat),
                        dec_digits(*n as nat),
                    ];
                    lemma_quoted_args_unfold3(args);
                    assert(r@ =~= serialized(self@));
                }
                r
            },
            Command::Jump { file, line, char, n } => {
                let mut r = String::new();
                r.append("!JUMP");
                append_quoted(&mut r, file.as_str());
                let d1 = chars_to_string(&usize_to_chars(*line));
                append_quoted(&mut r, d1.as_str());
                let d2 = chars_to_string(&usize_to_chars(*char));
                append_quoted(&mut r, d2.as_str());
                let d3 = chars_to_string(&usize_to_chars(*n));
                append_quoted(&mut r, d3.as_str());
                proof {
                    let args = seq![
                        file@,
                        dec_digits(*line as nat),
                        dec_digits(*char as nat),
                        dec_digits(*n as nat),
                    ];
                    lemma_quoted_args_unfold4(args);
                    assert(r@ =~= serialized(self@));
                }
                r
            },
        }
    }
}

proof fn lemma_take_while_word_prefix(s: Seq<char>, j: int)
    requires
        0 <= j <= s.len(),
        forall|k: int| 0 <= k < j ==> is_word_char(s[k]),
        j == s.len() || !is_word_char(s[j]),
    ensures
        take_while_word(s) == s.take(j),
    decreases j,
{
    if j == 0 {
        assert(s.take(0) =~= Seq::<char>::empty());
    } else {
        let t = s.drop_first();
        assert(forall|k: int| 0 <= k < j - 1 ==> is_word_char(t[k]));
        lemma_take_while_word_prefix(t, j - 1);
        assert(seq![s[0]] + t.take(j - 1) =~= s.take(j));
    }
}

proof fn lemma_take_while_arg_prefix(s: Seq<char>, j: int)
    requires
        0 <= j <= s.len(),
        forall|k: int| 0 <= k < j ==> s[k] != '"',
        j == s.len() || s[j] == '"',
    ensures
        take_while_arg(s) == s.take(j),
    decreases j,
{
    if j == 0 {
        assert(s.take(0) =~= Seq::<char>::empty());
    } else {
        let t = s.drop_first();
        assert(forall|k: int| 0 <= k < j - 1 ==> t[k] != '"');
        lemma_take_while_arg_prefix(t, j - 1);
        assert(seq![s[0]] + t.take(j - 1) =~= s.take(j));
    }
}

proof fn lemma_leading_spaces_prefix(s: Seq<char>, j: int)
    requires
        0 <= j <= s.len(),
        forall|k: int| 0 <= k < j ==> is_space_char(s[k]),
        j == s.len() || !is_space_char(s[j]),
    ensures
        leading_spaces(s) == j,
    decreases j,
{
    if j > 0 {
        let t = s.drop_first();
        assert(forall|k: int| 0 <= k < j - 1 ==> is_space_char(t[k]));
        lemma_leading_spaces_prefix(t, j - 1);
    }
}

/// Reads one more argument at `pos`, if the greedy scan finds one there:
/// whitespace, a quote, at least one character, a closing quote.
fn scan_arg(v: &Vec<char>, pos: usize) -> (r: Option<(String, usize)>)
    requires
        pos <= v@.len(),
    ensures
        ({
            match r {
                Some((arg, newpos)) => pos < newpos <= v@.len() && parse_args(
                    v@.skip(pos as int),
                ) == seq![arg@] + parse_args(v@.skip(newpos as int)),
                None => parse_args(v@.skip(pos as int)) == Seq::<Seq<char>>::empty(),
            }
        }),
{
    let ghost rcur = v@.skip(pos as int);
    let mut w_end = pos;
    while w_end < v.len() && space_char(v[w_end])
        invariant
            pos <= w_end <= v@.len(),
            forall|k: int| pos <= k < w_end ==> is_space_char(v@[k]),
        decreases v@.len() - w_end,
    {
        w_end = w_end + 1;
    }
    proof {
        assert(forall|k: int| 0 <= k < w_end - pos ==> rcur[k] == v@[k + pos]);
        lemma_leading_spaces_prefix(rcur, w_end - pos as int);
    }
    if w_end == pos {
        proof {
            assert(parse_args(rcur) == Seq::<Seq<char>>::empty());
        }
        return None;
    }
    if w_end >= v.len() || v[w_end] != '"' {
        proof {
            let w = leading_spaces(rcur) as int;
            let rr = rcur.skip(w);
            assert(rr =~= v@.skip(w_end as int));
            assert(parse_args(rcur) == Seq::<Seq<char>>::empty());
        }
        return None;
    }
    let mut q = w_end + 1;
    while q < v.len() && v[q] != '"'
        invariant
            w_end < q <= v@.len(),
            forall|k: int| w_end < k < q ==> v@[k] != '"',
        decreases v@.len() - q,
    {
        q = q + 1;
    }
    proof {
        let w = leading_spaces(rcur) as int;
        let rr = rcur.skip(w);
        assert(rr =~= v@.skip(w_end as int));
        let body = rr.drop_first();
        assert(body =~= v@.skip(w_end + 1));
        assert(forall|k: int| 0 <= k < q - w_end - 1 ==> body[k] == v@[k + w_end + 1]);
        lemma_take_while_arg_prefix(body, q - w_end - 1);
        assert(take_while_arg(body) =~= v@.subrange(w_end + 1, q as int));
    }
    if q == v.len() || q == w_end + 1 {
        proof {
            assert(parse_args(rcur) == Seq::<Seq<char>>::empty());
        }
        return None;
    }
    let mut content: Vec<char> = Vec::new();
    let mut k = w_end + 1;
    while k < q
        invariant
            w_end + 1 <= k <= q <= v@.len(),
            content@ =~= v@.subrange(w_end + 1, k as int),
        decreases q - k,
    {
        content.push(v[k]);
        k = k + 1;
    }
    let arg = chars_to_string(&content);
    proof {
        let w = leading_spaces(rcur) as int;
        let rr = rcur.skip(w);
        assert(rr =~= v@.skip(w_end as int));
        let c = take_while_arg(rr.drop_first());
        assert(c == arg@);
        assert(c.len() == q - w_end - 1);
        assert(c.len() >= 1 && c.len() + 2 <= rr.len());
        assert(rr.skip(c.len() as int + 2) =~= v@.skip(q + 1));
        assert(parse_args(rcur) == seq![arg@] + parse_args(v@.skip(q + 1)));
    }
    Some((arg, q + 1))
}

impl Command {
    /// Parses one full line as a command, or says exactly why it fails: the
    /// identifier and the greedily read quoted arguments decide, and any
    /// trailing text beyond the last well-formed argument is ignored.
    #[verifier::rlimit(50)]
    pub fn parse(s: &str) -> (r: Result<Command, MalformedCommand>)
        ensures
            ({
                match parsed_line(s@) {
                    Ok(m) => r matches Ok(c) && c@ == m,
                    Err(e) => r matches Err(me) && me@ == e,
                }
            }),
    {
        let v = to_char_vec(s);
        let start: usize = if v.len() > 0 && v[0] == '`' {
            1
        } else {
            0
        };
        proof {
            assert(after_backtick(s@) =~= v@.skip(start as int));
        }
        if !(v.len() >= start + 2 && v[start] == '!' && word_char(v[start + 1])) {
            return Err(MalformedCommand::NotACommand);
        }
        let ident_start = start + 1;
        let ghost t = v@.skip(ident_start as int);
        proof {
            assert(after_backtick(s@).drop_first() =~= t);
        }
        let mut j = ident_start;
        while j < v.len() && word_char(v[j])
            invariant
                ident_start <= j <= v@.len(),
                forall|k: int| ident_start <= k < j ==> is_word_char(v@[k]),
            decreases v@.len() - j,
        {
            j = j + 1;
        }
        proof {
            assert(forall|k: int| 0 <= k < j - ident_start ==> t[k] == v@[k + ident_start]);
            lemma_take_while_word_prefix(t, j - ident_start as int);
            assert(take_while_word(t) =~= v@.subrange(ident_start as int, j as int));
            assert(t.skip((j - ident_start) as int) =~= v@.skip(j as int));
        }
        let mut name_chars: Vec<char> = Vec::new();
        let mut k = ident_start;
        while k < j
            invariant
                ident_start <= k <= j <= v@.len(),
                name_chars@ =~= v@.subrange(ident_start as int, k as int),
            decreases j - k,
        {
            name_chars.push(v[k]);
            k = k + 1;
        }
        let name = chars_to_string(&name_chars);
        proof {
            assert(name@ == take_while_word(t));
        }
        let mut args: Vec<String> = Vec::new();
        let mut pos = j;
        let mut done = false;
        proof {
            assert(args.deep_view() =~= Seq::<Seq<char>>::empty());
            assert(Seq::<Seq<char>>::empty() + parse_args(v@.skip(j as int)) =~= parse_args(
                v@.skip(j as int),
            ));
        }
        while !done
            invariant
                j <= pos <= v@.len(),
                parse_args(v@.skip(j as int)) == args.deep_view() + parse_args(
                    v@.skip(pos as int),
                ),
                done ==> parse_args(v@.skip(pos as int)) == Seq::<Seq<char>>::empty(),
            decreases v@.len() - pos + (if done {
                0int
            } else {
                1int
            }),
        {
            let ghost prev_args = args.deep_view();
            match scan_arg(&v, pos) {
                Some((arg, np)) => {
                    let ghost argv = arg@;
                    args.push(arg);
                    proof {
                        assert(args.deep_view() =~~= prev_args.push(argv));
                        assert(prev_args + (seq![argv] + parse_args(v@.skip(np as int)))
                            =~= prev_args.push(argv) + parse_args(v@.skip(np as int)));
                    }
                    pos = np;
                },
                None => {
                    done = true;
                },
            }
        }
        proof {
            assert(args.deep_view() + Seq::<Seq<char>>::empty() =~= args.deep_view());
            assert(parse_args(t.skip(take_while_word(t).len() as int)) == args.deep_view());
        }
        if name == String::from_str("SEARCH_FILES") {
            return Ok(Command::SearchFiles { keywords: args });
        }
        if name == String::from_str("READ_LINES") {
            if args.len() != 3 {
                let got = args.len();
                return Err(MalformedCommand::WrongArity { name, expected: 3, got });
            }
            let start_v = chars_to_usize(&to_char_vec(args[1].as_str()));
            let start_v = match start_v {
                Some(x) => x,
                None => {
                    let argument = args[1].clone();
                    return Err(MalformedCommand::BadNumber { name, argument });
                },
            };
            let n_v = chars_to_usize(&to_char_vec(args[2].as_str()));
            let n_v = match n_v {
                Some(x) => x,
                None => {
                    let argument = args[2].clone();
                    return Err(MalformedCommand::BadNumber { name, argument });
                },
            };
            let file = args[0].clone();
            return Ok(Command::ReadLines { file, start: start_v, n: n_v });
        }
        if name == String::from_str("JUMP") {
            if args.len() != 4 {
                let got = args.len();
                return Err(MalformedCommand::WrongArity { name, expected: 4, got });
            }
            let line_v = chars_to_usize(&to_char_vec(args[1].as_str()));
            let line_v = match line_v {
                Some(x) => x,
                None => {
                    let argument = args[1].clone();
                    return Err(MalformedCommand::BadNumber { name, argument });
                },
            };
            let char_v = chars_to_usize(&to_char_vec(args[2].as_str()));
            let char_v = match char_v {
                Some(x) => x,
                None => {
                    let argument = args[2].clone();
                    return Err(MalformedCommand::BadNumber { name, argument });
                },
            };
            let n_v = chars_to_usize(&to_char_vec(args[3].as_str()));
            let n_v = match n_v {
                Some(x) => x,
                None => {
                    let argument = args[3].clone();
                    return Err(MalformedCommand::BadNumber { name, argument });
                },
            };
            let file = args[0].clone();
            return Ok(Command::Jump { file, line: line_v, char: char_v, n: n_v });
        }
        Err(MalformedCommand::UnknownCommand { name })
    }
}

/// Appends ` "arg"` to `s`.
fn append_quoted(s: &mut String, arg: &str)
    ensures
        final(s)@ == old(s)@ + seq![' ', '"'] + arg@ + seq!['"'],
{
    s.append(" \"");
    s.append(arg);
    s.append("\"");
    proof {
        reveal_strlit(" \"");
        reveal_strlit("\"");
        assert(final(s)@ =~= old(s)@ + seq![' ', '"'] + arg@ + seq!['"']);
    }
}

proof fn lemma_quoted_args_unfold3(args: Seq<Seq<char>>)
    requires
        args.len() == 3,
    ensures
        quoted_args(args) == seq![' ', '"'] + args[0] + seq!['"'] + (seq![' ', '"'] + args[1]
            + seq!['"']) + (seq![' ', '"'] + args[2] + seq!['"']),
{
    let a1 = args.drop_first();
    let a2 = a1.drop_first();
    let a3 = a2.drop_first();
    assert(a3.len() == 0);
    assert(quoted_args(a3) == Seq::<char>::empty());
    assert(quoted_args(a2) == seq![' ', '"'] + a2[0] + seq!['"'] + quoted_args(a3));
    assert(a2[0] == args[2]);
    assert(quoted_args(a2) =~= seq![' ', '"'] + args[2] + seq!['"']);
    assert(quoted_args(a1) =~= (seq![' ', '"'] + args[1] + seq!['"']) + quoted_args(a2));
    assert(quoted_args(args) =~= (seq![' ', '"'] + args[0] + seq!['"']) + quoted_args(a1));
    assert(quoted_args(args) =~= seq![' ', '"'] + args[0] + seq!['"'] + (seq![' ', '"'] + args[1]
        + seq!['"']) + (seq![' ', '"'] + args[2] + seq!['"']));
}

proof fn lemma_quoted_args_unfold4(args: Seq<Seq<char>>)
    requires
        args.len() == 4,
    ensures
        quoted_args(args) == seq![' ', '"'] + args[0] + seq!['"'] + (seq![' ', '"'] + args[1]
            + seq!['"']) + (seq![' ', '"'] + args[2] + seq!['"']) + (seq![' ', '"'] + args[3]
            + seq!['"']),
{
    let a1 = args.drop_first();
    lemma_quoted_args_unfold3(a1);
    assert(a1[0] == args[1] && a1[1] == args[2] && a1[2] == args[3]);
    assert(quoted_args(args) =~= (seq![' ', '"'] + args[0] + seq!['"']) + quoted_args(a1));
    assert(quoted_args(args) =~= seq![' ', '"'] + args[0] + seq!['"'] + (seq![' ', '"'] + args[1]
        + seq!['"']) + (seq![' ', '"'] + args[2] + seq!['"']) + (seq![' ', '"'] + args[3]
        + seq!['"']));
}

proof fn lemma_parse_args_quoted(args: Seq<Seq<char>>)
    requires
        forall|i: int| 0 <= i < args.len() ==> quotable(#[trigger] args[i]),
    ensures
        parse_args(quoted_args(args)) == args,
    decreases args.len(),
{
    if args.len() == 0 {
        assert(parse_args(quoted_args(args)) =~= args);
    } else {
        let a0 = args[0];
        let rest = args.drop_first();
        let s = quoted_args(args);
        assert(quotable(a0));
        assert(s == seq![' ', '"'] + a0 + seq!['"'] + quoted_args(rest));
        assert(s[0] == ' ' && s[1] == '"');
        assert(!is_space_char('"'));
        lemma_leading_spaces_prefix(s, 1);
        let r = s.skip(1);
        assert(r =~= seq!['"'] + a0 + seq!['"'] + quoted_args(rest));
        assert(r[0] == '"');
        let body = r.drop_first();
        assert(body =~= a0 + (seq!['"'] + quoted_args(rest)));
        assert(forall|k: int| 0 <= k < a0.len() ==> body[k] == a0[k]);
        assert(body[a0.len() as int] == '"');
        lemma_take_while_arg_prefix(body, a0.len() as int);
        let content = take_while_arg(body);
        assert(content =~= a0);
        assert(content.len() >= 1);
        assert(content.len() + 2 <= r.len());
        assert(r.skip(content.len() as int + 2) =~= quoted_args(rest));
        assert(forall|i: int| 0 <= i < rest.len() ==> quotable(#[trigger] rest[i]));
        lemma_parse_args_quoted(rest);
        assert(parse_args(s) == seq![content] + rest);
        assert(seq![content] + rest =~= args);
    }
}

proof fn lemma_digits_quotable(m: nat)
    ensures
        quotable(dec_digits(m)),
{
    lemma_dec_digits_val(m);
    let d = dec_digits(m);
    assert(forall|k: int| 0 <= k < d.len() ==> is_digit_char(#[trigger] d[k]));
    assert(forall|k: int| 0 <= k < d.len() ==> #[trigger] d[k] != '"');
}

/// Round trip of the command grammar: the canonical written form of any
/// serializable command parses back to exactly that command.  A command is
/// serializable when each of its string fields is non-empty and quote-free;
/// an empty argument or one holding a double quote has no written form in
/// this grammar.
pub proof fn lemma_parse_serialized(c: CommandModel)
    requires
        serializable(c),
    ensures
        parsed_line(serialized(c)) == Ok::<CommandModel, MalformedCommandModel>(c),
{
    reveal_strlit("!SEARCH_FILES");
    reveal_strlit("SEARCH_FILES");
    reveal_strlit("!READ_LINES");
    reveal_strlit("READ_LINES");
    reveal_strlit("!JUMP");
    reveal_strlit("JUMP");
    match c {
        CommandModel::SearchFiles { keywords } => {
            let lit = "!SEARCH_FILES"@;
            let s = serialized(c);
            assert(s == lit + quoted_args(keywords));
            assert(s[0] == '!' && s[1] == 'S');
            assert(after_backtick(s) == s);
            assert(opens_command(s));
            let t = s.drop_first();
            assert(t =~= "SEARCH_FILES"@ + quoted_args(keywords));
            let name_lit = "SEARCH_FILES"@;
            assert(forall|k: int|
                0 <= k < name_lit.len() ==> is_word_char(#[trigger] t[k]));
            if keywords.len() == 0 {
                assert(quoted_args(keywords).len() == 0);
                assert(t.len() == name_lit.len());
            } else {
                assert(quoted_args(keywords)[0] == ' ');
                assert(t[name_lit.len() as int] == ' ');
                assert(!is_word_char(' '));
            }
            lemma_take_while_word_prefix(t, name_lit.len() as int);
            assert(take_while_word(t) =~= name_lit);
            assert(t.skip(name_lit.len() as int) =~= quoted_args(keywords));
            lemma_parse_args_quoted(keywords);
            assert(parsed_line(s) == parsed_tokens(name_lit, keywords));
        },
        CommandModel::ReadLines { file, start, n } => {
            let args = seq![file, dec_digits(start as nat), dec_digits(n as nat)];
            lemma_digits_quotable(start as nat);
            lemma_digits_quotable(n as nat);
            assert(forall|i: int| 0 <= i < args.len() ==> quotable(#[trigger] args[i]));
            let lit = "!READ_LINES"@;
            let s = serialized(c);
            assert(s == lit + quoted_args(args));
            assert(s[0] == '!' && s[1] == 'R');
            assert(after_backtick(s) == s);
            assert(opens_command(s));
            let t = s.drop_first();
            assert(t =~= "READ_LINES"@ + quoted_args(args));
            let name_lit = "READ_LINES"@;
            assert(forall|k: int|
                0 <= k < name_lit.len() ==> is_word_char(#[trigger] t[k]));
            assert(quoted_args(args)[0] == ' ');
            assert(t[name_lit.len() as int] == ' ');
            lemma_take_while_word_prefix(t, name_lit.len() as int);
            assert(take_while_word(t) =~= name_lit);
            assert(t.skip(name_lit.len() as int) =~= quoted_args(args));
            lemma_parse_args_quoted(args);
            assert(name_lit != "SEARCH_FILES"@);
            lemma_dec_digits_val(start as nat);
            lemma_dec_digits_val(n as nat);
            assert(parse_usize_spec(args[1]) == Some(start));
            assert(parse_usize_spec(args[2]) == Some(n));
            assert(parsed_line(s) == parsed_tokens(name_lit, args));
            assert(parsed_tokens(name_lit, args) == Ok::<CommandModel, MalformedCommandModel>(
                CommandModel::ReadLines { file: args[0], start, n },
            ));
        },
        CommandModel::Jump { file, line, char, n } => {
            let args = seq![
                file,
                dec_digits(line as nat),
                dec_digits(char as nat),
                dec_digits(n as nat),
            ];
            lemma_digits_quotable(line as nat);
            lemma_digits_quotable(char as nat);
            lemma_digits_quotable(n as nat);
            assert(forall|i: int| 0 <= i < args.len() ==> quotable(#[trigger] args[i]));
            let lit = "!JUMP"@;
            let s = serialized(c);
            assert(s == lit + quoted_args(args));
            assert(s[0] == '!' && s[1] == 'J');
            assert(after_backtick(s) == s);
            assert(opens_command(s));
            let t = s.drop_first();
            assert(t =~= "JUMP"@ + quoted_args(args));
            let name_lit = "JUMP"@;
            assert(forall|k: int|
                0 <= k < name_lit.len() ==> is_word_char(#[trigger] t[k]));
            assert(quoted_args(args)[0] == ' ');
            assert(t[name_lit.len() as int] == ' ');
            lemma_take_while_word_prefix(t, name_lit.len() as int);
            assert(take_while_word(t) =~= name_lit);
            assert(t.skip(name_lit.len() as int) =~= quoted_args(args));
            lemma_parse_args_quoted(args);
            assert(name_lit != "SEARCH_FILES"@);
            assert(name_lit != "READ_LINES"@);
            lemma_dec_digits_val(line as nat);
            lemma_dec_digits_val(char as nat);
            lemma_dec_digits_val(n as nat);
            assert(parse_usize_spec(args[1]) == Some(line));
            assert(parse_usize_spec(args[2]) == Some(char));
            assert(parse_usize_spec(args[3]) == Some(n));
            assert(parsed_line(s) == parsed_tokens(name_lit, args));
            assert(parsed_tokens(name_lit, args) == Ok::<CommandModel, MalformedCommandModel>(
                CommandModel::Jump { file: args[0], line, char, n },
            ));
        },
    }
}

} // verus!
