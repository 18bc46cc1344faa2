//! Plain-value shapes of the code-search collaborator: search matches, file
//! content, symbol definitions, and the error carried when a call fails.
//! The network calls themselves happen outside; what the library owns is the
//! data and the exact textual form in which a search result enters the
//! transcript.

use vstd::prelude::*;
use crate::message::{SourcemaptMessage, MessageModel};
use crate::text::{dec_digits, usize_to_chars, to_char_vec, chars_to_string, push_all};

verus! {

/// A failed collaborator call, with its description.
#[derive(Debug, PartialEq, Clone)]
pub struct SourcegraphError(pub String);

impl View for SourcegraphError {
    type V = Seq<char>;

    open spec fn view(&self) -> Seq<char> {
        self.0@
    }
}

impl SourcegraphError {
    /// The error's description.
    pub fn message(&self) -> (r: &String)
        ensures
            r@ == self@,
    {
        &self.0
    }
}

/// The full text of one file at one revision.
#[derive(Debug, PartialEq, Clone)]
pub struct GetFileContentResult {
    pub content: String,
}

/// One matching line of a file search: its 1-based line number and a preview
/// of its text.
#[derive(Debug, PartialEq, Clone)]
pub struct SearchFilesFileLine {
    pub line_number: u32,
    pub preview: String,
}

/// One matching file of a search, with its matching lines.
#[derive(Debug, PartialEq, Clone)]
pub struct SearchFilesFileMatch {
    pub path: String,
    pub url: String,
    pub lines: Vec<SearchFilesFileLine>,
}

/// The matches of one keyword search.
#[derive(Debug, PartialEq, Clone)]
pub struct SearchFilesResult {
    pub files: Vec<SearchFilesFileMatch>,
}

/// The mathematical value of a [`SearchFilesFileLine`].
pub struct SearchFilesFileLineModel {
    pub line_number: u32,
    pub preview: Seq<char>,
}

/// The mathematical value of a [`SearchFilesFileMatch`].
pub struct SearchFilesFileMatchModel {
    pub path: Seq<char>,
    pub url: Seq<char>,
    pub lines: Seq<SearchFilesFileLineModel>,
}

/// The mathematical value of a [`SearchFilesResult`].
pub struct SearchFilesResultModel {
    pub files: Seq<SearchFilesFileMatchModel>,
}

impl View for SearchFilesFileLine {
    type V = SearchFilesFileLineModel;

    open spec fn view(&self) -> SearchFilesFileLineModel {
        SearchFilesFileLineModel { line_number: self.line_number, preview: self.preview@ }
    }
}

impl DeepView for SearchFilesFileLine {
    type V = SearchFilesFileLineModel;

    open spec fn deep_view(&self) -> SearchFilesFileLineModel {
        self.view()
    }
}

impl View for SearchFilesFileMatch {
    type V = SearchFilesFileMatchModel;

    open spec fn view(&self) -> SearchFilesFileMatchModel {
        SearchFilesFileMatchModel {
            path: self.path@,
            url: self.url@,
            lines: self.lines.deep_view(),
        }
    }
}

impl DeepView for SearchFilesFileMatch {
    type V = SearchFilesFileMatchModel;

    open spec fn deep_view(&self) -> SearchFilesFileMatchModel {
        self.view()
    }
}

impl View for SearchFilesResult {
    type V = SearchFilesResultModel;

    open spec fn view(&self) -> SearchFilesResultModel {
        SearchFilesResultModel { files: self.files.deep_view() }
    }
}

/// A place in a repository: file path, repository name, commit.
#[derive(Debug, PartialEq, Clone)]
pub struct Resource {
    pub path: String,
    pub repo: String,
    pub commit_oid: String,
}

/// A line/character range in a file, zero-based.
#[derive(Debug, PartialEq, Clone)]
pub struct Range {
    pub line_start: i64,
    pub char_start: i64,
    pub line_end: i64,
    pub char_end: i64,
}

/// One definition site: where it lives and the range it spans.
#[derive(Debug, PartialEq, Clone)]
pub struct DefinitionNode {
    pub resource: Resource,
    pub range: Range,
}

/// Hover text for a symbol, with the range it applies to.
#[derive(Debug, PartialEq, Clone)]
pub struct Hover {
    pub markdown: String,
    pub range: Range,
}

/// What a definition lookup returns when the symbol is known: the definition
/// sites and the hover text.
#[derive(Debug, PartialEq, Clone)]
pub struct GetDefinitionResult {
    pub definitions: Vec<DefinitionNode>,
    pub hover: Hover,
}

/// The mathematical value of a [`Resource`].
pub struct ResourceModel {
    pub path: Seq<char>,
    pub repo: Seq<char>,
    pub commit_oid: Seq<char>,
}

/// The mathematical value of a [`Range`].
pub struct RangeModel {
    pub line_start: int,
    pub char_start: int,
    pub line_end: int,
    pub char_end: int,
}

/// The mathematical value of a [`DefinitionNode`].
pub struct DefinitionNodeModel {
    pub resource: ResourceModel,
    pub range: RangeModel,
}

impl View for Range {
    type V = RangeModel;

    open spec fn view(&self) -> RangeModel {
        RangeModel {
            line_start: self.line_start as int,
            char_start: self.char_start as int,
            line_end: self.line_end as int,
            char_end: self.char_end as int,
        }
    }
}

impl View for Resource {
    type V = ResourceModel;

    open spec fn view(&self) -> ResourceModel {
        ResourceModel { path: self.path@, repo: self.repo@, commit_oid: self.commit_oid@ }
    }
}

impl View for DefinitionNode {
    type V = DefinitionNodeModel;

    open spec fn view(&self) -> DefinitionNodeModel {
        DefinitionNodeModel { resource: self.resource@, range: self.range@ }
    }
}

impl DeepView for DefinitionNode {
    type V = DefinitionNodeModel;

    open spec fn deep_view(&self) -> DefinitionNodeModel {
        self.view()
    }
}

impl GetDefinitionResult {
    /// The site a jump lands on: the first returned definition, kept as the
    /// documented tie-break when several come back; nothing when none did.
    pub fn first_definition(&self) -> (r: Option<&DefinitionNode>)
        ensures
            ({
                match r {
                    Some(d) => self.definitions.deep_view().len() > 0 && d@
                        == self.definitions.deep_view()[0],
                    None => self.definitions.deep_view().len() == 0,
                }
            }),
    {
        if self.definitions.len() > 0 {
            proof {
                assert(self.definitions.deep_view()[0] == self.definitions@[0].deep_view());
            }
            Some(&self.definitions[0])
        } else {
            proof {
                assert(self.definitions.deep_view().len() == self.definitions@.len());
            }
            None
        }
    }
}

// ---------------------------------------------------------------------------
// The textual form of a search result
// ---------------------------------------------------------------------------
/// The hexadecimal digit character for `d` in `0 ..= 15`, lower case.
pub open spec fn hex_digit(d: int) -> char {
    if d < 10 {
        crate::text::dec_digit(d)
    } else if d == 10 {
        'a'
    } else if d == 11 {
        'b'
    } else if d == 12 {
        'c'
    } else if d == 13 {
        'd'
    } else if d == 14 {
        'e'
    } else {
        'f'
    }
}

/// How one character is written inside a quoted string: quote and backslash
/// escaped, the named control characters short, other control characters as
/// four-digit escapes, everything else as itself.
pub open spec fn json_escaped_char(c: char) -> Seq<char> {
    if c == '"' {
        seq!['\\', '"']
    } else if c == '\\' {
        seq!['\\', '\\']
    } else if c == '\u{8}' {
        seq!['\\', 'b']
    } else if c == '\u{c}' {
        seq!['\\', 'f']
    } else if c == '\n' {
        seq!['\\', 'n']
    } else if c == '\r' {
        seq!['\\', 'r']
    } else if c == '\t' {
        seq!['\\', 't']
    } else if (c as u32) < 32 {
        seq!['\\', 'u', '0', '0', hex_digit(c as u32 as int / 16), hex_digit(
            c as u32 as int % 16,
        )]
    } else {
        seq![c]
    }
}

/// A string's characters, escaped.
pub open spec fn json_escaped(s: Seq<char>) -> Seq<char>
    decreases s.len(),
{
    if s.len() == 0 {
        Seq::empty()
    } else {
        json_escaped_char(s[0]) + json_escaped(s.drop_first())
    }
}

/// A quoted, escaped string.
pub open spec fn json_string(s: Seq<char>) -> Seq<char> {
    seq!['"'] + json_escaped(s) + seq!['"']
}

/// One matching line, written out.
pub open spec fn json_of_line(l: SearchFilesFileLineModel) -> Seq<char> {
    "{\"line_number\":"@ + dec_digits(l.line_number as nat) + ",\"preview\":"@ + json_string(
        l.preview,
    ) + seq!['}']
}

/// The matching lines, comma-separated.
pub open spec fn json_of_lines(ls: Seq<SearchFilesFileLineModel>) -> Seq<char>
    decreases ls.len(),
{
    if ls.len() == 0 {
        Seq::empty()
    } else if ls.len() == 1 {
        json_of_line(ls[0])
    } else {
        json_of_line(ls[0]) + seq![','] + json_of_lines(ls.drop_first())
    }
}

/// One matching file, written out.
pub open spec fn json_of_match(m: SearchFilesFileMatchModel) -> Seq<char> {
    "{\"path\":"@ + json_string(m.path) + ",\"url\":"@ + json_string(m.url) + ",\"lines\":["@
        + json_of_lines(m.lines) + seq![']', '}']
}

/// The matching files, comma-separated.
pub open spec fn json_of_matches(ms: Seq<SearchFilesFileMatchModel>) -> Seq<char>
    decreases ms.len(),
{
    if ms.len() == 0 {
        Seq::empty()
    } else if ms.len() == 1 {
        json_of_match(ms[0])
    } else {
        json_of_match(ms[0]) + seq![','] + json_of_matches(ms.drop_first())
    }
}

/// A whole search result, written out: one object with its files in order.
pub open spec fn json_of_search(r: SearchFilesResultModel) -> Seq<char> {
    "{\"files\":["@ + json_of_matches(r.files) + seq![']', '}']
}

proof fn lemma_json_escaped_push(s: Seq<char>, c: char)
    ensures
        json_escaped(s.push(c)) == json_escaped(s) + json_escaped_char(c),
    decreases s.len(),
{
    let t = s.push(c);
    if s.len() == 0 {
        assert(t.drop_first() =~= Seq::<char>::empty());
        assert(t[0] == c);
        assert(json_escaped(Seq::<char>::empty()) == Seq::<char>::empty());
        assert(json_escaped(t) == json_escaped_char(c) + json_escaped(t.drop_first()));
        assert(json_escaped(t) =~= json_escaped(s) + json_escaped_char(c));
    } else {
        assert(t[0] == s[0]);
        assert(t.drop_first() =~= s.drop_first().push(c));
        lemma_json_escaped_push(s.drop_first(), c);
        assert(json_escaped(t) =~= json_escaped(s) + json_escaped_char(c));
    }
}

/// The hexadecimal digit character for `d`, which must be below sixteen.
fn hex_of(d: u32) -> (c: char)
    requires
        d < 16,
    ensures
        c == hex_digit(d as int),
{
    if d == 0 {
        '0'
    } else if d == 1 {
        '1'
    } else if d == 2 {
        '2'
    } else if d == 3 {
        '3'
    } else if d == 4 {
        '4'
    } else if d == 5 {
        '5'
    } else if d == 6 {
        '6'
    } else if d == 7 {
        '7'
    } else if d == 8 {
        '8'
    } else if d == 9 {
        '9'
    } else if d == 10 {
        'a'
    } else if d == 11 {
        'b'
    } else if d == 12 {
        'c'
    } else if d == 13 {
        'd'
    } else if d == 14 {
        'e'
    } else {
        'f'
    }
}

/// Appends the quoted, escaped form of `s`.
fn push_json_string(out: &mut Vec<char>, s: &str)
    ensures
        final(out)@ == old(out)@ + json_string(s@),
{
    let chars = to_char_vec(s);
    out.push('"');
    let ghost base = out@;
    let mut i: usize = 0;
    proof {
        assert(chars@.take(0) =~= Seq::<char>::empty());
        assert(out@ =~= base + json_escaped(chars@.take(0)));
    }
    while i < chars.len()
        invariant
            i <= chars@.len(),
            chars@ == s@,
            out@ =~= base + json_escaped(chars@.take(i as int)),
        decreases chars@.len() - i,
    {
        let ghost prefix = chars@.take(i as int);
        let c = chars[i];
        if c == '"' {
            out.push('\\');
            out.push('"');
        } else if c == '\\' {
            out.push('\\');
            out.push('\\');
        } else if c == '\u{8}' {
            out.push('\\');
            out.push('b');
        } else if c == '\u{c}' {
            out.push('\\');
            out.push('f');
        } else if c == '\n' {
            out.push('\\');
            out.push('n');
        } else if c == '\r' {
            out.push('\\');
            out.push('r');
        } else if c == '\t' {
            out.push('\\');
            out.push('t');
        } else {
            let code = c as u32;
            if code < 32 {
                out.push('\\');
                out.push('u');
                out.push('0');
                out.push('0');
                out.push(hex_of(code / 16));
                out.push(hex_of(code % 16));
            } else {
                out.push(c);
            }
        }
        proof {
            lemma_json_escaped_push(prefix, c);
            assert(chars@.take(i + 1) =~= prefix.push(c));
            assert(out@ =~= base + json_escaped(chars@.take(i + 1)));
        }
        i = i + 1;
    }
    out.push('"');
    proof {
        assert(chars@.take(chars@.len() as int) =~= chars@);
        assert(out@ =~= old(out)@ + json_string(s@));
    }
}

/// Appends one matching line, written out.
fn push_line_json(out: &mut Vec<char>, l: &SearchFilesFileLine)
    ensures
        final(out)@ == old(out)@ + json_of_line(l@),
{
    let head = to_char_vec("{\"line_number\":");
    push_all(out, &head);
    let digits = usize_to_chars(l.line_number as usize);
    push_all(out, &digits);
    let mid = to_char_vec(",\"preview\":");
    push_all(out, &mid);
    push_json_string(out, l.preview.as_str());
    out.push('}');
    proof {
        assert(out@ =~= old(out)@ + json_of_line(l@));
    }
}

/// Appends one matching file, written out.
#[verifier::rlimit(50)]
fn push_match_json(out: &mut Vec<char>, m: &SearchFilesFileMatch)
    ensures
        final(out)@ == old(out)@ + json_of_match(m@),
{
    let head = to_char_vec("{\"path\":");
    push_all(out, &head);
    push_json_string(out, m.path.as_str());
    let mid1 = to_char_vec(",\"url\":");
    push_all(out, &mid1);
    push_json_string(out, m.url.as_str());
    let mid2 = to_char_vec(",\"lines\":[");
    push_all(out, &mid2);
    let ghost ls = m.lines.deep_view();
    let ghost base = out@;
    let mut i: usize = 0;
    proof {
        assert(ls.skip(0) =~= ls);
        if ls.len() == 0 {
            assert(json_of_lines(ls) == Seq::<char>::empty());
            assert(base + json_of_lines(ls) =~= base);
        }
    }
    while i < m.lines.len()
        invariant
            i <= ls.len(),
            ls == m.lines.deep_view(),
            i == 0 ==> out@ =~= base,
            i > 0 && i < ls.len() ==> base + json_of_lines(ls) =~= out@ + seq![',']
                + json_of_lines(ls.skip(i as int)),
            i == 0 && i < ls.len() ==> base + json_of_lines(ls) =~= out@ + json_of_lines(
                ls.skip(i as int),
            ),
            i == ls.len() ==> base + json_of_lines(ls) =~= out@,
        decreases ls.len() - i,
    {
        let ghost prev = out@;
        if i > 0 {
            out.push(',');
        }
        proof {
            assert(m.lines.deep_view()[i as int] == m.lines@[i as int].deep_view());
            assert(ls.skip(i as int)[0] == ls[i as int]);
            assert(ls.skip(i as int).drop_first() =~= ls.skip(i + 1));
        }
        push_line_json(out, &m.lines[i]);
        proof {
            let rest = ls.skip(i as int);
            if rest.len() == 1 {
                assert(json_of_lines(rest) == json_of_line(ls[i as int]));
            } else {
                assert(json_of_lines(rest) == json_of_line(ls[i as int]) + seq![',']
                    + json_of_lines(ls.skip(i + 1)));
            }
        }
        i = i + 1;
    }
    out.push(']');
    out.push('}');
    proof {
        assert(ls =~= m@.lines);
        assert(out@ =~= old(out)@ + json_of_match(m@));
    }
}

/// The written form of a whole search result.
#[verifier::rlimit(50)]
pub fn search_result_json(r: &SearchFilesResult) -> (s: String)
    ensures
        s@ == json_of_search(r@),
{
    let mut out: Vec<char> = Vec::new();
    let head = to_char_vec("{\"files\":[");
    push_all(&mut out, &head);
    let ghost fs = r.files.deep_view();
    let ghost base = out@;
    let mut i: usize = 0;
    proof {
        assert(fs.skip(0) =~= fs);
        if fs.len() == 0 {
            assert(json_of_matches(fs) == Seq::<char>::empty());
            assert(base + json_of_matches(fs) =~= base);
        }
    }
    while i < r.files.len()
        invariant
            i <= fs.len(),
            fs == r.files.deep_view(),
            i == 0 ==> out@ =~= base,
            i > 0 && i < fs.len() ==> base + json_of_matches(fs) =~= out@ + seq![',']
                + json_of_matches(fs.skip(i as int)),
            i == 0 && i < fs.len() ==> base + json_of_matches(fs) =~= out@ + json_of_matches(
                fs.skip(i as int),
            ),
            i == fs.len() ==> base + json_of_matches(fs) =~= out@,
        decreases fs.len() - i,
    {
        if i > 0 {
            out.push(',');
        }
        proof {
            assert(r.files.deep_view()[i as int] == r.files@[i as int].deep_view());
            assert(fs.skip(i as int)[0] == fs[i as int]);
            assert(fs.skip(i as int).drop_first() =~= fs.skip(i + 1));
        }
        push_match_json(&mut out, &r.files[i]);
        proof {
            let rest = fs.skip(i as int);
            if rest.len() == 1 {
                assert(json_of_matches(rest) == json_of_match(fs[i as int]));
            } else {
                assert(json_of_matches(rest) == json_of_match(fs[i as int]) + seq![',']
                    + json_of_matches(fs.skip(i + 1)));
            }
        }
        i = i + 1;
    }
    out.push(']');
    out.push('}');
    proof {
        assert(out@ =~= json_of_search(r@));
    }
    chars_to_string(&out)
}

/// Wraps a search result as the command-result message that enters the
/// transcript: its matches, written out in order.
pub fn search_result_message(r: &SearchFilesResult) -> (m: SourcemaptMessage)
    ensures
        m@ == (MessageModel::CommandResult { content: json_of_search(r@), hidden: false }),
{
    let content = search_result_json(r);
    SourcemaptMessage::CommandResult { content, hidden: false }
}

} // verus!
