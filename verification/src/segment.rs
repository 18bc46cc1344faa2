//! The completion segmenter: turns one raw model completion into the ordered
//! run of prose and command messages it contains, preserving reading order.
//! Prose accumulates in a buffer that a command line flushes; bare code-fence
//! marker lines are skipped, and the one line directly after a command line is
//! also skipped when it is such a marker, so a fenced command does not leave
//! its fence in the transcript.

use vstd::prelude::*;
use vstd::string::StringExecFns;
use crate::command::{Command, CommandModel, MalformedCommand, MalformedCommandModel, opens_command, parsed_line};
use crate::message::{SourcemaptMessage, MessageModel};
use crate::text::{
    trimmed, trim_chars, lines_of, split_lines, to_char_vec, chars_to_string, push_all,
};

verus! {

/// A bare code-fence marker line: three backticks or three double quotes,
/// alone up to surrounding whitespace.
pub open spec fn is_fence(line: Seq<char>) -> bool {
    trimmed(line) == "```"@ || trimmed(line) == "\"\"\""@
}

/// The prose message a non-empty buffer flushes to, and nothing for a
/// whitespace-only buffer.
pub open spec fn flushed(buffer: Seq<char>) -> Seq<MessageModel> {
    if trimmed(buffer).len() > 0 {
        seq![MessageModel::Model { content: trimmed(buffer), hidden: false }]
    } else {
        Seq::empty()
    }
}

/// The segmentation of the remaining lines, with `buffer` the prose read so
/// far: a command line flushes the buffer, becomes an invocation message, and
/// swallows one directly following fence line; fence lines vanish; every
/// other line joins the buffer; what remains at the end flushes.  A command
/// line that fails to parse fails the whole completion.
pub open spec fn segment_lines(lines: Seq<Seq<char>>, buffer: Seq<char>) -> Result<
    Seq<MessageModel>,
    MalformedCommandModel,
>
    decreases lines.len(),
{
    if lines.len() == 0 {
        Ok(flushed(buffer))
    } else {
        let line = lines[0];
        if opens_command(line) {
            match parsed_line(line) {
                Err(e) => Err(e),
                Ok(cmd) => {
                    let rest = if lines.len() >= 2 && is_fence(lines[1]) {
                        lines.skip(2)
                    } else {
                        lines.skip(1)
                    };
                    match segment_lines(rest, Seq::empty()) {
                        Err(e) => Err(e),
                        Ok(tail) => Ok(
                            flushed(buffer) + seq![
                                MessageModel::CommandInvocation { command: cmd, hidden: false },
                            ] + tail,
                        ),
                    }
                },
            }
        } else if is_fence(line) {
            segment_lines(lines.skip(1), buffer)
        } else {
            segment_lines(lines.skip(1), buffer + line + seq!['\n'])
        }
    }
}

/// The segmentation of one full completion.
pub open spec fn segmented(completion: Seq<char>) -> Result<
    Seq<MessageModel>,
    MalformedCommandModel,
> {
    segment_lines(lines_of(completion), Seq::empty())
}

/// `Err` stays `Err`; `Ok` gets `pre` in front.
pub open spec fn prefixed(pre: Seq<MessageModel>, r: Result<
    Seq<MessageModel>,
    MalformedCommandModel,
>) -> Result<Seq<MessageModel>, MalformedCommandModel> {
    match r {
        Ok(t) => Ok(pre + t),
        Err(e) => Err(e),
    }
}

/// Fence suppression: a completion that is one command line followed only by
/// a bare fence marker segments to exactly the invocation message — the
/// fence line leaves no prose message behind.
pub proof fn lemma_fence_suppressed(line: Seq<char>, fence: Seq<char>, cmd: CommandModel)
    requires
        parsed_line(line) == Ok::<CommandModel, MalformedCommandModel>(cmd),
        opens_command(line),
        is_fence(fence),
    ensures
        segment_lines(seq![line, fence], Seq::empty()) == Ok::<
            Seq<MessageModel>,
            MalformedCommandModel,
        >(seq![MessageModel::CommandInvocation { command: cmd, hidden: false }]),
{
    let lines = seq![line, fence];
    assert(lines[0] == line && lines[1] == fence);
    assert(crate::text::trimmed(Seq::<char>::empty()).len() == 0);
    assert(flushed(Seq::<char>::empty()) =~= Seq::<MessageModel>::empty());
    assert(lines.skip(2) =~= Seq::<Seq<char>>::empty());
    assert(segment_lines(lines.skip(2), Seq::empty()) == Ok::<
        Seq<MessageModel>,
        MalformedCommandModel,
    >(Seq::empty()));
    assert(flushed(Seq::<char>::empty()) + seq![
        MessageModel::CommandInvocation { command: cmd, hidden: false },
    ] + Seq::<MessageModel>::empty() =~= seq![
        MessageModel::CommandInvocation { command: cmd, hidden: false },
    ]);
}

/// Whether `line` is a bare code-fence marker.
fn fence_line(line: &Vec<char>) -> (b: bool)
    ensures
        b == is_fence(line@),
{
    let t = chars_to_string(&trim_chars(line));
    t == String::from_str("```") || t == String::from_str("\"\"\"")
}

/// Splits one raw completion into prose and command messages, in reading
/// order; fails exactly when a command-opening line fails to parse, with that
/// line's error.
#[verifier::rlimit(50)]
pub fn segment_completion(completion: &str) -> (r: Result<
    Vec<SourcemaptMessage>,
    MalformedCommand,
>)
    ensures
        ({
            match segmented(completion@) {
                Ok(ms) => r matches Ok(v) && v.deep_view() == ms,
                Err(e) => r matches Err(me) && me@ == e,
            }
        }),
{
    let chars = to_char_vec(completion);
    let lines = split_lines(&chars);
    let ghost lseq = lines.deep_view();
    let mut out: Vec<SourcemaptMessage> = Vec::new();
    let mut buffer: Vec<char> = Vec::new();
    let mut i: usize = 0;
    proof {
        assert(lseq.skip(0) =~= lseq);
        assert(out.deep_view() =~= Seq::<MessageModel>::empty());
        match segment_lines(lseq, Seq::<char>::empty()) {
            Ok(t) => {
                assert(Seq::<MessageModel>::empty() + t =~= t);
            },
            Err(_) => {},
        }
    }
    while i < lines.len()
        invariant
            i <= lseq.len(),
            lseq == lines.deep_view(),
            segmented(completion@) == prefixed(
                out.deep_view(),
                segment_lines(lseq.skip(i as int), buffer@),
            ),
        decreases lseq.len() - i,
    {
        let ghost rest = lseq.skip(i as int);
        let ghost prev_out = out.deep_view();
        let ghost prev_buf = buffer@;
        proof {
            assert(rest[0] == lseq[i as int]);
            assert(lines.deep_view()[i as int] == lines@[i as int].deep_view());
            assert(lseq[i as int] =~= lines@[i as int]@);
            assert(rest.drop_first() =~= lseq.skip(i + 1));
            assert(rest.skip(1) =~= lseq.skip(i + 1));
            if i + 1 < lines@.len() {
                assert(lines.deep_view()[i + 1] == lines@[i + 1].deep_view());
                assert(lseq[i + 1] =~= lines@[i + 1]@);
            }
        }
        let line_string = chars_to_string(&lines[i]);
        if Command::match_line(line_string.as_str()) {
            let tb = trim_chars(&buffer);
            if tb.len() > 0 {
                let content = chars_to_string(&tb);
                out.push(SourcemaptMessage::Model { content, hidden: false });
                proof {
                    assert(out.deep_view() =~~= prev_out.push(
                        MessageModel::Model { content: trimmed(prev_buf), hidden: false },
                    ));
                    assert(out.deep_view() =~= prev_out + flushed(prev_buf));
                }
            } else {
                proof {
                    assert(flushed(prev_buf) =~= Seq::<MessageModel>::empty());
                    assert(out.deep_view() =~= prev_out + flushed(prev_buf));
                }
            }
            buffer.clear();
            let ghost mid_out = out.deep_view();
            match Command::parse(line_string.as_str()) {
                Err(e) => {
                    return Err(e);
                },
                Ok(cmd) => {
                    let ghost cmdv = cmd@;
                    out.push(SourcemaptMessage::CommandInvocation { command: cmd, hidden: false });
                    proof {
                        assert(out.deep_view() =~~= mid_out.push(
                            MessageModel::CommandInvocation { command: cmdv, hidden: false },
                        ));
                    }
                    if i + 1 < lines.len() && fence_line(&lines[i + 1]) {
                        proof {
                            assert(rest.len() >= 2 && rest[1] == lseq[i + 1]);
                            assert(rest.skip(2) =~= lseq.skip(i + 2));
                            match segment_lines(lseq.skip(i + 2), Seq::<char>::empty()) {
                                Ok(tail) => {
                                    assert(prev_out + (flushed(prev_buf) + seq![
                                        MessageModel::CommandInvocation {
                                            command: cmdv,
                                            hidden: false,
                                        },
                                    ] + tail) =~= out.deep_view() + tail);
                                },
                                Err(_) => {},
                            }
                        }
                        i = i + 2;
                    } else {
                        proof {
                            assert(rest.skip(1) =~= lseq.skip(i + 1));
                            if rest.len() >= 2 {
                                assert(rest[1] == lseq[i + 1]);
                            }
                            match segment_lines(lseq.skip(i + 1), Seq::<char>::empty()) {
                                Ok(tail) => {
                                    assert(prev_out + (flushed(prev_buf) + seq![
                                        MessageModel::CommandInvocation {
                                            command: cmdv,
                                            hidden: false,
                                        },
                                    ] + tail) =~= out.deep_view() + tail);
                                },
                                Err(_) => {},
                            }
                        }
                        i = i + 1;
                    }
                },
            }
        } else if fence_line(&lines[i]) {
            i = i + 1;
        } else {
            push_all(&mut buffer, &lines[i]);
            buffer.push('\n');
            proof {
                assert(buffer@ =~= prev_buf + lseq[i as int] + seq!['\n']);
            }
            i = i + 1;
        }
    }
    proof {
        assert(lseq.skip(i as int) =~= Seq::<Seq<char>>::empty());
    }
    let tb = trim_chars(&buffer);
    let ghost prev_out = out.deep_view();
    if tb.len() > 0 {
        let content = chars_to_string(&tb);
        out.push(SourcemaptMessage::Model { content, hidden: false });
        proof {
            assert(out.deep_view() =~~= prev_out.push(
                MessageModel::Model { content: trimmed(buffer@), hidden: false },
            ));
            assert(out.deep_view() =~= prev_out + flushed(buffer@));
        }
    } else {
        proof {
            assert(out.deep_view() =~= prev_out + flushed(buffer@));
        }
    }
    Ok(out)
}

} // verus!
