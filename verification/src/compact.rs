//! Compaction of a conversation history: when it is due, what is summarized, and
//! what is left.

use vstd::prelude::*;
use crate::agent::Stored;
use crate::config::{CompactConfig, LlmConfig};
use crate::text::cat;

verus! {

/// Whether a history of `len` messages is to be compacted.
pub open spec fn due(cfg: CompactConfig, len: nat) -> bool {
    cfg.enabled && cfg.threshold_messages > 0 && len >= cfg.threshold_messages && cfg.keep_recent
        < len
}

/// The line of a message in a transcript.
pub open spec fn line_of(m: Stored) -> Seq<char> {
    match m {
        Stored::User(t) => "User: "@ + t@ + "\n"@,
        Stored::Assistant(t) => "Assistant: "@ + t@ + "\n"@,
    }
}

/// The transcript of messages.
pub open spec fn transcript_of(v: Seq<Stored>) -> Seq<char>
    decreases v.len(),
{
    if v.len() == 0 {
        Seq::empty()
    } else {
        transcript_of(v.drop_last()) + line_of(v.last())
    }
}

/// The messages that are summarized: all but the most recent.
pub open spec fn old_part(v: Seq<Stored>, keep: nat) -> Seq<Stored> {
    if v.len() > keep {
        v.take(v.len() - keep)
    } else {
        Seq::empty()
    }
}

/// The text that stands for the summarized messages.
pub open spec fn summary_text(summary: Seq<char>) -> Seq<char> {
    "[summary of earlier conversation]\n"@ + summary
}

/// The messages after compaction: one that holds the summary, then the most recent.
pub open spec fn compacted(v: Seq<Stored>, keep: nat, entry: Stored) -> Seq<Stored> {
    seq![entry] + v.skip(v.len() - keep)
}

/// The limit on the tokens of a summary.
pub const SUMMARY_TOKENS: u32 = 512;

/// The whole instruction, around that of the settings.
pub open spec fn instruction_with(prompt: Seq<char>) -> Seq<char> {
    "You are a conversation summarizer. "@ + prompt
        + " Reply with only the summary — no preamble."@
}

/// A request for a summary.
#[derive(Debug)]
pub struct SummaryRequest {
    pub model: String,
    /// The instruction.
    pub system: String,
    /// The messages to summarize.
    pub transcript: String,
    /// Maximum number of generated tokens.
    pub max_tokens: u32,
}

/// Decides about compaction.
pub struct Compactor {
    model: String,
    cfg: CompactConfig,
}

impl Compactor {
    /// The settings.
    pub closed spec fn settings(&self) -> CompactConfig {
        self.cfg
    }

    /// The model that summarizes.
    pub closed spec fn model_id(&self) -> Seq<char> {
        self.model@
    }

    /// A compactor that summarizes with the model of a backend.
    pub fn new(llm: &LlmConfig, cfg: CompactConfig) -> (r: Self)
        ensures
            r.settings() == cfg,
            r.model_id() == llm.model@,
    {
        Compactor { model: llm.model.clone(), cfg }
    }

    /// The settings.
    pub fn config(&self) -> (r: &CompactConfig)
        ensures
            *r == self.settings(),
    {
        &self.cfg
    }

    /// Whether a history of `len` messages is to be compacted.
    pub fn should_compact(&self, len: usize) -> (r: bool)
        ensures
            r == due(self.settings(), len as nat),
    {
        self.cfg.enabled && self.cfg.threshold_messages > 0 && len >= self.cfg.threshold_messages
            && self.cfg.keep_recent < len
    }

    /// The request that summarizes all but the most recent messages; nothing when
    /// there are no others.
    pub fn summarize(&self, messages: &Vec<Stored>) -> (r: Option<SummaryRequest>)
        ensures
            ({
                let old = old_part(messages@, self.settings().keep_recent as nat);
                if old.len() == 0 {
                    r is None
                } else {
                    &&& r matches Some(q)
                    &&& q.model@ == self.model_id()
                    &&& q.system@ == instruction_with(self.settings().prompt@)
                    &&& q.transcript@ == transcript_of(old)
                    &&& q.max_tokens == SUMMARY_TOKENS
                }
            }),
    {
        let n: usize = messages.len();
        if n <= self.cfg.keep_recent {
            return None;
        }
        let end: usize = n - self.cfg.keep_recent;
        let ghost old = messages@.take(end as int);
        let mut transcript: String = String::new();
        let mut i: usize = 0;
        assert(transcript@ =~= transcript_of(old.take(0)));
        while i < end
            invariant
                end <= messages@.len(),
                old == messages@.take(end as int),
                i <= end,
                transcript@ == transcript_of(old.take(i as int)),
            decreases end - i,
        {
            let ghost before = transcript@;
            proof {
                assert(old.take(i + 1).drop_last() =~= old.take(i as int));
                assert(old.take(i + 1).last() == messages@[i as int]);
            }
            match &messages[i] {
                Stored::User(t) => {
                    transcript.append("User: ");
                    transcript.append(t.as_str());
                },
                Stored::Assistant(t) => {
                    transcript.append("Assistant: ");
                    transcript.append(t.as_str());
                },
            }
            transcript.append("\n");
            assert(transcript@ =~= before + line_of(messages@[i as int]));
            i = i + 1;
        }
        assert(old.take(end as int) =~= old);
        Some(
            SummaryRequest {
                model: self.model.clone(),
                system: cat(
                    &cat("You are a conversation summarizer. ", &self.cfg.prompt),
                    " Reply with only the summary — no preamble.",
                ),
                transcript,
                max_tokens: SUMMARY_TOKENS,
            },
        )
    }

    /// Replaces all but the most recent messages by their summary. Whether it did:
    /// not before compaction is due, and not with an empty summary.
    pub fn compact(&self, messages: &mut Vec<Stored>, summary: &str) -> (r: bool)
        ensures
            r == (due(self.settings(), old(messages)@.len()) && summary@.len() > 0),
            if r {
                exists|text: String|
                    text@ == summary_text(summary@) && final(messages)@ == #[trigger] compacted(
                        old(messages)@,
                        self.settings().keep_recent as nat,
                        Stored::Assistant(text),
                    )
            } else {
                final(messages)@ == old(messages)@
            },
    {
        let n: usize = messages.len();
        if !self.should_compact(n) {
            return false;
        }
        if summary.is_empty() {
            return false;
        }
        let text: String = cat("[summary of earlier conversation]\n", summary);
        let entry: Stored = Stored::Assistant(text);
        let ghost all = messages@;
        let mut tail: Vec<Stored> = messages.split_off(n - self.cfg.keep_recent);
        tail.insert(0, entry);
        *messages = tail;
        assert(messages@ =~= compacted(all, self.cfg.keep_recent as nat, entry));
        true
    }
}

// ---- laws --------------------------------------------------------------------------

/// Compaction keeps the most recent messages word for word, and makes the history
/// no longer than one more than these.
pub proof fn compaction_keeps_the_tail(v: Seq<Stored>, keep: nat, entry: Stored)
    requires
        keep < v.len(),
    ensures
        compacted(v, keep, entry).len() == keep + 1 <= v.len(),
        compacted(v, keep, entry)[0] == entry,
        compacted(v, keep, entry).skip(1) == v.skip(v.len() - keep),
{
    assert(compacted(v, keep, entry).skip(1) =~= v.skip(v.len() - keep));
}

/// The summarized messages and the kept ones are all of the history.
pub proof fn nothing_is_lost_unsummarized(v: Seq<Stored>, keep: nat)
    requires
        keep < v.len(),
    ensures
        old_part(v, keep) + v.skip(v.len() - keep) == v,
{
    assert(old_part(v, keep) + v.skip(v.len() - keep) =~= v);
}

/// A history is compacted once it has reached the threshold, where compaction is on, has a
/// threshold, and leaves something to summarize.
pub proof fn compaction_is_due_at_the_threshold(c: &Compactor, len: usize, r: bool)
    requires
        call_ensures(Compactor::should_compact, (c, len), r),
    ensures
        r <==> (c.settings().enabled && c.settings().threshold_messages >= 1 && len
            >= c.settings().threshold_messages && len > c.settings().keep_recent),
{
}

/// A transcript tells the messages in their order, each on a line with who wrote it.
pub proof fn transcripts_tell_who_wrote_what(v: Seq<Stored>, m: Stored)
    ensures
        transcript_of(Seq::empty()) == Seq::<char>::empty(),
        transcript_of(v.push(m)) == transcript_of(v) + (match m {
            Stored::User(t) => "User: "@ + t@ + "\n"@,
            Stored::Assistant(t) => "Assistant: "@ + t@ + "\n"@,
        }),
{
    assert(v.push(m).drop_last() =~= v);
}

/// What is summarized is everything but the most recent messages, and nothing where there is
/// no more than these.
pub proof fn all_but_the_recent_is_summarized(
    c: &Compactor,
    messages: &Vec<Stored>,
    r: Option<SummaryRequest>,
    n: int,
)
    requires
        call_ensures(Compactor::summarize, (c, messages), r),
        n == messages@.len() - c.settings().keep_recent,
    ensures
        n <= 0 ==> r is None,
        n > 0 ==> {
            &&& r matches Some(q)
            &&& q.transcript@ == transcript_of(messages@.take(n))
            &&& q.model@ == c.model_id()
            &&& q.system@ == "You are a conversation summarizer. "@ + c.settings().prompt@
                + " Reply with only the summary — no preamble."@
        },
{
}

/// A compacted history is the summary, told as the assistant's and marked as one, and behind
/// it the most recent messages.
pub proof fn summaries_stand_for_the_past(v: Seq<Stored>, keep: nat, text: String, summary: Seq<char>)
    requires
        keep < v.len(),
        text@ == summary_text(summary),
    ensures
        text@ == "[summary of earlier conversation]\n"@ + summary,
        compacted(v, keep, Stored::Assistant(text)) == seq![Stored::Assistant(text)] + v.subrange(
            v.len() - keep,
            v.len() as int,
        ),
{
    assert(v.skip(v.len() - keep) =~= v.subrange(v.len() - keep, v.len() as int));
}

/// A history that is due is cut to the summary and the recent messages; one that is not, or that
/// has no summary, stays as it is.
pub proof fn due_histories_are_cut(
    c: &Compactor,
    v: &mut Vec<Stored>,
    summary: &str,
    r: bool,
    i: int,
)
    requires
        call_ensures(Compactor::compact, (c, v, summary), r),
    ensures
        r <==> c.settings().enabled && c.settings().threshold_messages >= 1 && old(v)@.len()
            >= c.settings().threshold_messages && old(v)@.len() > c.settings().keep_recent
            && summary@.len() > 0,
        !r ==> final(v)@ == old(v)@,
        r ==> {
            &&& final(v)@.len() == c.settings().keep_recent + 1
            &&& final(v)@[0] matches Stored::Assistant(t)
            &&& t@ == "[summary of earlier conversation]\n"@ + summary@
            &&& 0 < i < final(v)@.len() ==> final(v)@[i] == old(v)@[old(v)@.len() - final(v)@.len()
                + i]
        },
{
}

} // verus!
