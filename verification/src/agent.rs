//! The agent loop's state and decisions: the transcript, the model-facing
//! rendering of its visible part, the three-way classification of a round,
//! and the compactor that hides stale steering prompts.  The network calls of
//! a round happen outside; these functions take and return plain values.

use vstd::prelude::*;
use vstd::string::StringExecFns;
use crate::command::{Command, CommandModel};
use crate::consts::{system_text, system_string};
use crate::message::{
    SourcemaptMessage, MessageModel, ChatMessage, ChatMessageModel, chat_of, msg_hidden,
    msg_is_summary, msg_wf, with_hidden,
};
use crate::text::{lines_of, split_lines, to_char_vec, chars_to_string};
use crate::types::{CodeBlock, CodeBlockModel, InjectedMessage};

verus! {

// ---------------------------------------------------------------------------
// The transcript
// ---------------------------------------------------------------------------
/// One conversation: its append-only transcript and the repository
/// coordinates the commands run against.
pub struct Sourcemapt {
    pub messages: Vec<SourcemaptMessage>,
    pub repo: String,
    pub refspec: String,
}

/// Every message of the transcript renders without overflow.
pub open spec fn transcript_wf(ms: Seq<MessageModel>) -> bool {
    forall|k: int| 0 <= k < ms.len() ==> msg_wf(#[trigger] ms[k])
}

/// The model-facing form of a transcript: its entries in order, the hidden
/// ones left out, each mapped to its role and text.
pub open spec fn prompt_of(ms: Seq<MessageModel>) -> Seq<ChatMessageModel>
    decreases ms.len(),
{
    if ms.len() == 0 {
        Seq::empty()
    } else if msg_hidden(ms[0]) {
        prompt_of(ms.drop_first())
    } else {
        seq![chat_of(ms[0])] + prompt_of(ms.drop_first())
    }
}

impl Sourcemapt {
    /// A fresh conversation against the given repository and revision.
    pub fn new(repo: String, refspec: String) -> (r: Sourcemapt)
        ensures
            r.messages.deep_view() == Seq::<MessageModel>::empty(),
            r.repo@ == repo@,
            r.refspec@ == refspec@,
    {
        let messages: Vec<SourcemaptMessage> = Vec::new();
        proof {
            assert(messages.deep_view() =~= Seq::<MessageModel>::empty());
        }
        Sourcemapt { messages, repo, refspec }
    }

    /// Appends the fixed instruction preamble, visible.
    pub fn add_system(&mut self)
        ensures
            final(self).messages.deep_view() == old(self).messages.deep_view().push(
                MessageModel::System { content: system_text(), hidden: false },
            ),
            final(self).repo == old(self).repo,
            final(self).refspec == old(self).refspec,
    {
        let content = system_string();
        self.messages.push(SourcemaptMessage::System { content, hidden: false });
        proof {
            assert(self.messages.deep_view() =~~= old(self).messages.deep_view().push(
                MessageModel::System { content: system_text(), hidden: false },
            ));
        }
    }

    /// Appends a batch of new messages to the transcript, in order.
    pub fn append_messages(&mut self, batch: Vec<SourcemaptMessage>)
        ensures
            final(self).messages.deep_view() == old(self).messages.deep_view()
                + batch.deep_view(),
            final(self).repo == old(self).repo,
            final(self).refspec == old(self).refspec,
    {
        let ghost batch_view = batch.deep_view();
        let mut moved = batch;
        self.messages.append(&mut moved);
        proof {
            assert(self.messages.deep_view() =~~= old(self).messages.deep_view() + batch_view);
        }
    }

    /// The visible transcript in the model-facing form: exactly one prompt
    /// entry per non-hidden message, in transcript order.
    pub fn visible_prompt(&self) -> (r: Vec<ChatMessage>)
        requires
            transcript_wf(self.messages.deep_view()),
        ensures
            r.deep_view() == prompt_of(self.messages.deep_view()),
    {
        let ghost ms = self.messages.deep_view();
        let mut r: Vec<ChatMessage> = Vec::new();
        let mut i: usize = 0;
        proof {
            assert(ms.skip(0) =~= ms);
            assert(r.deep_view() =~= Seq::<ChatMessageModel>::empty());
            assert(Seq::<ChatMessageModel>::empty() + prompt_of(ms) =~= prompt_of(ms));
        }
        while i < self.messages.len()
            invariant
                i <= ms.len(),
                ms == self.messages.deep_view(),
                transcript_wf(ms),
                prompt_of(ms) == r.deep_view() + prompt_of(ms.skip(i as int)),
            decreases ms.len() - i,
        {
            let ghost rest = ms.skip(i as int);
            let ghost prev = r.deep_view();
            proof {
                assert(rest[0] == ms[i as int]);
                assert(self.messages.deep_view()[i as int] == self.messages@[i as int].deep_view());
                assert(rest.drop_first() =~= ms.skip(i + 1));
            }
            let m = &self.messages[i];
            if !m.hidden() {
                let cm = m.map_to_chat_message();
                let ghost cmv = cm@;
                r.push(cm);
                proof {
                    assert(r.deep_view() =~~= prev.push(cmv));
                    assert(prev + (seq![chat_of(ms[i as int])] + prompt_of(ms.skip(i + 1))) =~= (
                    prev.push(cmv)) + prompt_of(ms.skip(i + 1)));
                }
            }
            i = i + 1;
        }
        proof {
            assert(ms.skip(i as int) =~= Seq::<MessageModel>::empty());
            assert(r.deep_view() + Seq::<ChatMessageModel>::empty() =~= r.deep_view());
        }
        r
    }
}

// ---------------------------------------------------------------------------
// Outcome classification
// ---------------------------------------------------------------------------
/// What the loop does after a round: call again with the command results,
/// stop on a concluding answer, or inject a steering prompt.
#[derive(Debug, PartialEq, Clone)]
pub enum ProcessResponsesOutcome {
    CallForIntrospect,
    CallWithCommandResults(Vec<SourcemaptMessage>),
    Stop,
}

/// The mathematical value of a [`ProcessResponsesOutcome`].
pub enum OutcomeModel {
    CallForIntrospect,
    CallWithCommandResults(Seq<MessageModel>),
    Stop,
}

impl View for ProcessResponsesOutcome {
    type V = OutcomeModel;

    open spec fn view(&self) -> OutcomeModel {
        match self {
            ProcessResponsesOutcome::CallForIntrospect => OutcomeModel::CallForIntrospect,
            ProcessResponsesOutcome::CallWithCommandResults(results) => {
                OutcomeModel::CallWithCommandResults(results.deep_view())
            },
            ProcessResponsesOutcome::Stop => OutcomeModel::Stop,
        }
    }
}

/// The round's outcome, in priority order: command results outrank a
/// concluding answer, which outranks the steering fallback.  Every round
/// classifies into exactly one of the three.
pub open spec fn classified(responses: Seq<MessageModel>, results: Seq<MessageModel>)
    -> OutcomeModel {
    if results.len() > 0 {
        OutcomeModel::CallWithCommandResults(results)
    } else if responses.len() > 0 && msg_is_summary(responses.last()) {
        OutcomeModel::Stop
    } else {
        OutcomeModel::CallForIntrospect
    }
}

/// Classifies one round from its responses and the result messages its
/// commands produced.
pub fn classify_outcome(
    responses: &Vec<SourcemaptMessage>,
    results: Vec<SourcemaptMessage>,
) -> (r: ProcessResponsesOutcome)
    ensures
        r@ == classified(responses.deep_view(), results.deep_view()),
{
    if results.len() > 0 {
        return ProcessResponsesOutcome::CallWithCommandResults(results);
    }
    let n = responses.len();
    if n > 0 {
        proof {
            assert(responses.deep_view()[n - 1] == responses@[n - 1].deep_view());
            assert(responses.deep_view().last() == responses.deep_view()[n - 1]);
        }
        if responses[n - 1].is_summary() {
            return ProcessResponsesOutcome::Stop;
        }
    }
    ProcessResponsesOutcome::CallForIntrospect
}

/// A message a round is expected to hand back: model prose or a command
/// invocation.  Anything else is a protocol irregularity worth reporting,
/// though never fatal.
pub open spec fn expected_round_message(m: MessageModel) -> bool {
    m matches MessageModel::Model { .. } || m matches MessageModel::CommandInvocation { .. }
}

/// Whether `m` is a message shape a round may hand back.
pub fn is_expected_round_message(m: &SourcemaptMessage) -> (b: bool)
    ensures
        b == expected_round_message(m@),
{
    match m {
        SourcemaptMessage::Model { .. } => true,
        SourcemaptMessage::CommandInvocation { .. } => true,
        _ => false,
    }
}

/// The commands of a round, in appearance order.
pub open spec fn round_commands(ms: Seq<MessageModel>) -> Seq<CommandModel>
    decreases ms.len(),
{
    if ms.len() == 0 {
        Seq::empty()
    } else {
        let rest = round_commands(ms.drop_first());
        match ms[0] {
            MessageModel::CommandInvocation { command, .. } => seq![command] + rest,
            _ => rest,
        }
    }
}

/// A copy of a command, field by field.
fn duplicate_command(c: &Command) -> (r: Command)
    ensures
        r@ == c@,
{
    match c {
        Command::SearchFiles { keywords } => {
            let mut kws: Vec<String> = Vec::new();
            let mut i: usize = 0;
            while i < keywords.len()
                invariant
                    i <= keywords@.len(),
                    kws.deep_view() =~= keywords.deep_view().take(i as int),
                decreases keywords@.len() - i,
            {
                let ghost prev = kws.deep_view();
                kws.push(keywords[i].clone());
                proof {
                    assert(kws.deep_view() =~~= prev.push(keywords.deep_view()[i as int]));
                }
                i = i + 1;
            }
            proof {
                assert(kws.deep_view() =~= keywords.deep_view());
            }
            Command::SearchFiles { keywords: kws }
        },
        Command::ReadLines { file, start, n } => Command::ReadLines {
            file: file.clone(),
            start: *start,
            n: *n,
        },
        Command::Jump { file, line, char, n } => Command::Jump {
            file: file.clone(),
            line: *line,
            char: *char,
            n: *n,
        },
    }
}

/// Extracts the commands a round asks to run, in appearance order; they are
/// dispatched strictly one after another, never concurrently.
pub fn commands_of_round(responses: &Vec<SourcemaptMessage>) -> (r: Vec<Command>)
    ensures
        r.deep_view() == round_commands(responses.deep_view()),
{
    let ghost ms = responses.deep_view();
    let mut r: Vec<Command> = Vec::new();
    let mut i: usize = 0;
    proof {
        assert(ms.skip(0) =~= ms);
        assert(r.deep_view() =~= Seq::<CommandModel>::empty());
        assert(Seq::<CommandModel>::empty() + round_commands(ms) =~= round_commands(ms));
    }
    while i < responses.len()
        invariant
            i <= ms.len(),
            ms == responses.deep_view(),
            round_commands(ms) == r.deep_view() + round_commands(ms.skip(i as int)),
        decreases ms.len() - i,
    {
        let ghost rest = ms.skip(i as int);
        let ghost prev = r.deep_view();
        proof {
            assert(rest[0] == ms[i as int]);
            assert(responses.deep_view()[i as int] == responses@[i as int].deep_view());
            assert(rest.drop_first() =~= ms.skip(i + 1));
        }
        match &responses[i] {
            SourcemaptMessage::CommandInvocation { command, .. } => {
                let c = duplicate_command(command);
                let ghost cv = c@;
                r.push(c);
                proof {
                    assert(r.deep_view() =~~= prev.push(cv));
                    assert(prev + (seq![cv] + round_commands(ms.skip(i + 1))) =~= prev.push(cv)
                        + round_commands(ms.skip(i + 1)));
                }
            },
            _ => {},
        }
        i = i + 1;
    }
    proof {
        assert(ms.skip(i as int) =~= Seq::<MessageModel>::empty());
        assert(r.deep_view() + Seq::<CommandModel>::empty() =~= r.deep_view());
    }
    r
}

// ---------------------------------------------------------------------------
// Command result construction
// ---------------------------------------------------------------------------
/// The lines of a ranged read: `[start, start + n)` of the file's lines,
/// fewer where the file is shorter, empty where `start` is past the end.  An
/// out-of-range start is not an error.
pub open spec fn sliced_lines(ls: Seq<Seq<char>>, start: usize, n: usize) -> Seq<Seq<char>> {
    let lo = if start <= ls.len() {
        start as int
    } else {
        ls.len() as int
    };
    let hi = if start + n <= ls.len() {
        start + n
    } else {
        ls.len() as int
    };
    ls.subrange(lo, if hi < lo {
        lo
    } else {
        hi
    })
}

/// Wraps a ranged read of file content as a code message: the requested slice
/// of lines, with the block's offset equal to the requested start.
pub fn code_from_content(content: &str, start: usize, n: usize) -> (r: SourcemaptMessage)
    ensures
        r@ == (MessageModel::Code {
            code: CodeBlockModel { lines: sliced_lines(lines_of(content@), start, n), start },
            hidden: false,
        }),
        msg_wf(r@),
{
    let chars = to_char_vec(content);
    let all = split_lines(&chars);
    let ghost ls = all.deep_view();
    let mut picked: Vec<String> = Vec::new();
    let lo = if start > all.len() {
        all.len()
    } else {
        start
    };
    let mut j = lo;
    while j < all.len() && j - start < n
        invariant
            lo <= j <= ls.len(),
            ls == all.deep_view(),
            start <= j || j == lo,
            lo == if start > ls.len() {
                ls.len() as int
            } else {
                start as int
            },
            j - start <= n,
            picked.deep_view() =~= ls.subrange(lo as int, j as int),
        decreases ls.len() - j,
    {
        let ghost prev = picked.deep_view();
        proof {
            assert(all.deep_view()[j as int] == all@[j as int].deep_view());
            assert(ls[j as int] =~= all@[j as int]@);
        }
        picked.push(chars_to_string(&all[j]));
        proof {
            assert(picked.deep_view() =~~= prev.push(ls[j as int]));
            assert(picked.deep_view() =~= ls.subrange(lo as int, j + 1));
        }
        j = j + 1;
    }
    proof {
        assert(picked.deep_view() =~= sliced_lines(ls, start, n));
    }
    let code = CodeBlock { lines: picked, start };
    let r = SourcemaptMessage::Code { code, hidden: false };
    proof {
        assert(r@ == MessageModel::Code {
            code: CodeBlockModel { lines: sliced_lines(lines_of(content@), start, n), start },
            hidden: false,
        });
    }
    r
}

/// The contextual correction sent when a definition lookup finds nothing: a
/// user-role message, so the model reads it as guidance rather than command
/// output.
pub fn jump_failure_message(file: &str) -> (r: SourcemaptMessage)
    ensures
        r@ == (MessageModel::User {
            content: "Couldn't find definition for `"@ + file@ + "`"@,
            hidden: false,
        }),
{
    let mut s = String::from_str("Couldn't find definition for `");
    s.append(file);
    s.append("`");
    proof {
        assert(s@ =~= "Couldn't find definition for `"@ + file@ + "`"@);
    }
    SourcemaptMessage::User { content: s, hidden: false }
}

// ---------------------------------------------------------------------------
// The compactor
// ---------------------------------------------------------------------------
/// Whether the compactor hides entry `i`: a visible ask-to-summarize steering
/// prompt whose syntactically following entry exists and is not a concluding
/// answer — the model ignored the request and kept investigating.
pub open spec fn compact_hides(ms: Seq<MessageModel>, i: int) -> bool {
    &&& !msg_hidden(ms[i])
    &&& ms[i] matches MessageModel::Injected { kind: InjectedMessage::AskToSummarize, .. }
    &&& i + 1 < ms.len()
    &&& !msg_is_summary(ms[i + 1])
}

/// The transcript after one compactor pass: stale steering prompts hidden,
/// everything else exactly as it was.
pub open spec fn compacted(ms: Seq<MessageModel>) -> Seq<MessageModel> {
    Seq::new(
        ms.len(),
        |i: int|
            if compact_hides(ms, i) {
                with_hidden(ms[i])
            } else {
                ms[i]
            },
    )
}

impl Sourcemapt {
    /// One compactor pass over the transcript.
    pub fn compact(&mut self)
        ensures
            final(self).messages.deep_view() == compacted(old(self).messages.deep_view()),
            final(self).repo == old(self).repo,
            final(self).refspec == old(self).refspec,
    {
        let ghost ms = old(self).messages.deep_view();
        let n = self.messages.len();
        let mut i: usize = 0;
        while i < n
            invariant
                i <= n,
                n == self.messages@.len(),
                ms.len() == n,
                self.repo == old(self).repo,
                self.refspec == old(self).refspec,
                forall|k: int|
                    i <= k < n ==> self.messages.deep_view()[k] == ms[k],
                forall|k: int|
                    0 <= k < i ==> self.messages.deep_view()[k] == (if compact_hides(ms, k) {
                        with_hidden(ms[k])
                    } else {
                        ms[k]
                    }),
            decreases n - i,
        {
            proof {
                assert(self.messages.deep_view()[i as int] == self.messages@[
                    i as int].deep_view());
                if i + 1 < n {
                    assert(self.messages.deep_view()[i + 1] == self.messages@[
                        i + 1].deep_view());
                }
            }
            let is_target = match &self.messages[i] {
                SourcemaptMessage::Injected { kind: InjectedMessage::AskToSummarize, hidden } => {
                    !*hidden
                },
                _ => false,
            };
            if is_target && i + 1 < n {
                let next_is_summary = self.messages[i + 1].is_summary();
                if !next_is_summary {
                    let ghost before = self.messages.deep_view();
                    self.messages[i].conceal();
                    proof {
                        assert(self.messages.deep_view() =~~= before.update(
                            i as int,
                            with_hidden(ms[i as int]),
                        ));
                        assert(compact_hides(ms, i as int));
                    }
                }
            }
            i = i + 1;
        }
        proof {
            assert(self.messages.deep_view() =~= compacted(ms));
        }
    }
}

/// The compactor is idempotent: a second pass changes nothing, since every
/// prompt the first pass hid stays hidden and hiding alters no content.
pub proof fn lemma_compact_idempotent(ms: Seq<MessageModel>)
    ensures
        compacted(compacted(ms)) == compacted(ms),
{
    let c = compacted(ms);
    assert forall|i: int| 0 <= i < c.len() implies compacted(c)[i] == c[i] by {
        if compact_hides(ms, i) {
            assert(c[i] == with_hidden(ms[i]));
            assert(msg_hidden(with_hidden(ms[i])));
            assert(!compact_hides(c, i));
        } else {
            assert(c[i] == ms[i]);
            if i + 1 < ms.len() {
                assert(msg_is_summary(with_hidden(ms[i + 1])) == msg_is_summary(ms[i + 1]));
                assert(msg_is_summary(c[i + 1]) == msg_is_summary(ms[i + 1]));
            }
            assert(compact_hides(c, i) == compact_hides(ms, i));
        }
    }
    assert(compacted(c) =~= c);
}

} // verus!
