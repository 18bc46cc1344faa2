//! Value types of the transcript: a formatted code excerpt and the canned
//! steering prompts the loop can inject.

use vstd::prelude::*;
use crate::text::{dec_digits, usize_to_chars, chars_to_string, to_char_vec};
use crate::consts::ask_to_summarize_text;
use crate::consts::ask_to_summarize_string;

verus! {

/// An excerpt of source text: an ordered run of lines and the zero-based
/// offset of the first one in its file.
#[derive(Debug, PartialEq, Clone)]
pub struct CodeBlock {
    pub lines: Vec<String>,
    pub start: usize,
}

/// The mathematical value of a [`CodeBlock`].
pub struct CodeBlockModel {
    pub lines: Seq<Seq<char>>,
    pub start: usize,
}

impl View for CodeBlock {
    type V = CodeBlockModel;

    open spec fn view(&self) -> CodeBlockModel {
        CodeBlockModel { lines: self.lines.deep_view(), start: self.start }
    }
}

/// `w` space characters.
pub open spec fn spaces(w: nat) -> Seq<char>
    decreases w,
{
    if w == 0 {
        Seq::empty()
    } else {
        spaces((w - 1) as nat).push(' ')
    }
}

/// `s` padded on the left with spaces to width `w`; a longer `s` stays as it
/// is.
pub open spec fn pad_left(s: Seq<char>, w: nat) -> Seq<char> {
    if s.len() >= w {
        s
    } else {
        spaces((w - s.len()) as nat) + s
    }
}

/// One rendered line: the 1-based line number right-aligned to `width`, a
/// ` | ` separator, then the line text.
pub open spec fn numbered_line(num: nat, width: nat, line: Seq<char>) -> Seq<char> {
    pad_left(dec_digits(num), width) + " | "@ + line
}

/// The rendered lines, numbered from `start + 1` upward and joined with
/// newlines.
pub open spec fn formatted_lines(lines: Seq<Seq<char>>, start: nat, width: nat) -> Seq<char>
    decreases lines.len(),
{
    if lines.len() == 0 {
        Seq::empty()
    } else if lines.len() == 1 {
        numbered_line(start + 1, width, lines[0])
    } else {
        numbered_line(start + 1, width, lines[0]) + seq!['\n'] + formatted_lines(
            lines.drop_first(),
            start + 1,
            width,
        )
    }
}

/// The rendered form of a block: every line number is padded to the digit
/// count of `start + lines.len()`, so alignment is stable within the block.
pub open spec fn format_spec(cb: CodeBlockModel) -> Seq<char> {
    formatted_lines(cb.lines, cb.start as nat, dec_digits((cb.start + cb.lines.len()) as nat).len())
}

proof fn lemma_dec_digits_len_mono(a: nat, b: nat)
    requires
        a <= b,
    ensures
        dec_digits(a).len() <= dec_digits(b).len(),
    decreases b,
{
    if b < 10 {
        assert(dec_digits(a).len() == 1);
        assert(dec_digits(b).len() == 1);
    } else if a < 10 {
        assert(dec_digits(a).len() == 1);
        assert(dec_digits(b).len() == dec_digits(b / 10).len() + 1);
    } else {
        lemma_dec_digits_len_mono(a / 10, b / 10);
    }
}

impl CodeBlock {
    /// Renders the block with right-aligned 1-based line numbers.  The sum
    /// `start + lines.len()` must fit the machine word, as the highest
    /// printed line number.
    #[verifier::rlimit(50)]
    pub fn format(&self) -> (r: String)
        requires
            self.start + self.lines@.len() <= usize::MAX,
        ensures
            r@ == format_spec(self@),
    {
        let max_line = self.start + self.lines.len();
        let width_chars = usize_to_chars(max_line);
        let width = width_chars.len();
        let ghost lines = self@.lines;
        let mut out: Vec<char> = Vec::new();
        let mut i: usize = 0;
        proof {
            assert(lines.skip(0) =~= lines);
        }
        while i < self.lines.len()
            invariant
                self.start + self.lines@.len() <= usize::MAX,
                lines == self@.lines,
                i <= lines.len(),
                width == dec_digits((self.start + lines.len()) as nat).len(),
                i == 0 ==> out@ =~= Seq::<char>::empty(),
                i > 0 && i < lines.len() ==> format_spec(self@) =~= out@ + seq!['\n']
                    + formatted_lines(lines.skip(i as int), (self.start + i) as nat, width as nat),
                i == 0 && i < lines.len() ==> format_spec(self@) =~= out@ + formatted_lines(
                    lines.skip(i as int),
                    (self.start + i) as nat,
                    width as nat,
                ),
                i == lines.len() ==> format_spec(self@) =~= out@,
            decreases lines.len() - i,
        {
            let ghost prev = out@;
            if i > 0 {
                out.push('\n');
            }
            let num = self.start + i + 1;
            let digits = usize_to_chars(num);
            proof {
                lemma_dec_digits_len_mono(num as nat, (self.start + lines.len()) as nat);
            }
            let ghost pad_start = out@;
            let mut p: usize = digits.len();
            while p < width
                invariant
                    digits@.len() <= width,
                    digits@.len() <= p <= width,
                    out@ =~= pad_start + spaces((p - digits@.len()) as nat),
                decreases width - p,
            {
                out.push(' ');
                p = p + 1;
            }
            let mut d: usize = 0;
            while d < digits.len()
                invariant
                    d <= digits@.len(),
                    out@ =~= pad_start + spaces((width - digits@.len()) as nat) + digits@.take(
                        d as int,
                    ),
                    digits@.len() <= width,
                decreases digits@.len() - d,
            {
                out.push(digits[d]);
                d = d + 1;
            }
            proof {
                assert(digits@.take(digits@.len() as int) =~= digits@);
                assert(digits@ == dec_digits(num as nat));
                if digits@.len() >= width {
                    assert(digits@.len() == width);
                    assert(spaces(0) =~= Seq::<char>::empty());
                    assert(out@ =~= pad_start + pad_left(digits@, width as nat));
                } else {
                    assert(out@ =~= pad_start + pad_left(digits@, width as nat));
                }
            }
            out.push(' ');
            out.push('|');
            out.push(' ');
            let line_chars = to_char_vec(self.lines[i].as_str());
            let mut q: usize = 0;
            let ghost sep_done = out@;
            while q < line_chars.len()
                invariant
                    q <= line_chars@.len(),
                    out@ =~= sep_done + line_chars@.take(q as int),
                decreases line_chars@.len() - q,
            {
                out.push(line_chars[q]);
                q = q + 1;
            }
            proof {
                reveal_strlit(" | ");
                assert(line_chars@.take(line_chars@.len() as int) =~= line_chars@);
                assert(sep_done =~= pad_start + pad_left(dec_digits(num as nat), width as nat)
                    + " | "@);
                assert(line_chars@ == lines[i as int]);
                assert(out@ =~= pad_start + numbered_line(
                    num as nat,
                    width as nat,
                    lines[i as int],
                ));
                let rest = lines.skip(i as int);
                assert(rest[0] == lines[i as int]);
                assert(rest.drop_first() =~= lines.skip(i + 1));
                if i + 1 < lines.len() {
                    assert(formatted_lines(rest, (self.start + i) as nat, width as nat)
                        == numbered_line(num as nat, width as nat, lines[i as int]) + seq!['\n']
                        + formatted_lines(lines.skip(i + 1), (self.start + i + 1) as nat,
                    width as nat));
                } else {
                    assert(rest.len() == 1);
                    assert(formatted_lines(rest, (self.start + i) as nat, width as nat)
                        == numbered_line(num as nat, width as nat, lines[i as int]));
                }
            }
            i = i + 1;
        }
        chars_to_string(&out)
    }
}

/// A canned steering prompt the loop can inject on its own initiative.
#[derive(Debug, PartialEq, Eq, Clone, Copy)]
pub enum InjectedMessage {
    AskToSummarize,
}

impl InjectedMessage {
    /// The prompt text this kind stands for.
    pub open spec fn text(&self) -> Seq<char> {
        match self {
            InjectedMessage::AskToSummarize => ask_to_summarize_text(),
        }
    }

    /// The prompt text, looked up at render time rather than stored in the
    /// transcript.
    pub fn get_string(&self) -> (r: String)
        ensures
            r@ == self.text(),
    {
        match self {
            InjectedMessage::AskToSummarize => ask_to_summarize_string(),
        }
    }
}

} // verus!
