//! Replacing a conversation by a summary that a model writes.

use vstd::prelude::*;
use crate::messages;
use crate::messages::{copy_messages, make_message, Message, Msg};
use crate::numbers;
use crate::numbers::usize_text;
use crate::replacing;
use crate::text;
use crate::text::{from_chars, piece, same, str_starts_with, to_chars};
use crate::words;
use crate::words::trim_text;

verus! {

/// The start of a system message that carries a summary.
pub const SUMMARY_PREFIX: &'static str = "Summary of the conversation so far:\n";

/// What the model is told when it is asked for a summary.
pub const SUMMARY_INSTRUCTIONS: &'static str = "You are summarizing a conversation between a user and an AI assistant so that the conversation can continue with a much shorter history.  Write a summary that lets the assistant carry on without the original messages.  Include: the user's goals and the task currently in progress, decisions made, facts learned (file paths, names, values, commands and their results), work already completed, and what remains to be done.  Be concise and factual, do not address the user, and do not call any tools.";

/// The longest rendering of a single message in a transcript, in characters.
pub const MAX_MESSAGE_CHARS: usize = 2000;

/// How many times a transcript is halved when it does not fit.
pub const MAX_SHRINK_ATTEMPTS: usize = 6;

/// A message that carries a summary.
pub open spec fn summary_msg(m: Msg) -> bool {
    m.role == "system"@ && (m.content matches Some(c) && text::begins(c, SUMMARY_PREFIX@))
}

/// Whether a message carries a summary.
pub fn is_summary(msg: &Message) -> (r: bool)
    ensures
        r == summary_msg(msg@),
{
    if !same(msg.role.as_str(), "system") {
        return false;
    }
    match &msg.content {
        Some(c) => str_starts_with(c.as_str(), SUMMARY_PREFIX),
        None => false,
    }
}

/// A text of at most `max` characters, with a note of how many were left out.
pub open spec fn truncated(t: Seq<char>, max: int) -> Seq<char> {
    if t.len() > max {
        t.take(max) + "... ["@ + numbers::decimal((t.len() - max) as nat) + " more characters]"@
    } else {
        t
    }
}

/// Shortens a text to `max_chars` characters, with a note of how many were left out.
pub fn truncate(text: &str, max_chars: usize) -> (r: String)
    ensures
        r@ == truncated(text@, max_chars as int),
{
    let c = to_chars(text);
    if c.len() > max_chars {
        let head = piece(c.as_slice(), 0, max_chars);
        assert(head@ =~= text@.take(max_chars as int));
        let mut s = from_chars(head.as_slice());
        s.append("... [");
        s.append(usize_text(c.len() - max_chars).as_str());
        s.append(" more characters]");
        s
    } else {
        text.to_owned()
    }
}

/// The content of a message, or nothing.
pub open spec fn content_or_empty(m: Msg) -> Seq<char> {
    match m.content {
        Some(c) => c,
        None => ""@,
    }
}

/// The rendered tool calls of a message.
pub open spec fn rendered_calls(v: Seq<messages::Call>) -> Seq<char>
    decreases v.len(),
{
    if v.len() == 0 {
        Seq::empty()
    } else {
        rendered_calls(v.drop_last()) + ("(called tool "@ + v.last().name + " with "@ + truncated(
            v.last().arguments,
            MAX_MESSAGE_CHARS as int,
        ) + ")\n"@)
    }
}

/// A message as it stands in a transcript.
pub open spec fn rendered(m: Msg) -> Seq<char> {
    let content = content_or_empty(m);
    if m.role == "tool"@ {
        "[tool result: "@ + (match m.name {
            Some(n) => n,
            None => "unknown"@,
        }) + "]\n"@ + truncated(content, MAX_MESSAGE_CHARS as int) + "\n\n"@
    } else {
        "["@ + m.role + "]\n"@ + (if content.len() > 0 {
            truncated(content, MAX_MESSAGE_CHARS as int) + "\n"@
        } else {
            ""@
        }) + (match m.calls {
            Some(c) => rendered_calls(c),
            None => ""@,
        }) + "\n"@
    }
}

fn render_calls(v: &[messages::ToolCall]) -> (r: String)
    ensures
        r@ == rendered_calls(messages::call_views(v@)),
{
    let mut out = String::new();
    let ghost c = messages::call_views(v@);
    let mut i: usize = 0;
    while i < v.len()
        invariant
            i <= v@.len(),
            c == messages::call_views(v@),
            out@ == rendered_calls(c.take(i as int)),
        decreases v@.len() - i,
    {
        assert(c.take(i + 1).drop_last() =~= c.take(i as int));
        assert(c.take(i + 1).last() == v@[i as int]@);
        let mut line = "(called tool ".to_owned();
        line.append(v[i].function.name.as_str());
        line.append(" with ");
        line.append(truncate(v[i].function.arguments.as_str(), MAX_MESSAGE_CHARS).as_str());
        line.append(")\n");
        out.append(line.as_str());
        i += 1;
    }
    assert(c.take(c.len() as int) =~= c);
    out
}

/// Appends a message to a transcript.
pub fn render_message(out: &mut String, msg: &Message)
    ensures
        final(out)@ == old(out)@ + rendered(msg@),
{
    let content: &str = match &msg.content {
        Some(c) => c.as_str(),
        None => "",
    };
    assert(content@ == content_or_empty(msg@));
    let line: String;
    if same(msg.role.as_str(), "tool") {
        let mut s = "[tool result: ".to_owned();
        match &msg.name {
            Some(n) => {
                s.append(n.as_str());
            },
            None => {
                s.append("unknown");
            },
        }
        s.append("]\n");
        s.append(truncate(content, MAX_MESSAGE_CHARS).as_str());
        s.append("\n\n");
        line = s;
    } else {
        let mut s = "[".to_owned();
        s.append(msg.role.as_str());
        s.append("]\n");
        if !content.is_empty() {
            let mut t = truncate(content, MAX_MESSAGE_CHARS);
            t.append("\n");
            s.append(t.as_str());
        } else {
            s.append("");
        }
        match &msg.tool_calls {
            Some(c) => {
                s.append(render_calls(c.as_slice()).as_str());
            },
            None => {
                s.append("");
            },
        }
        s.append("\n");
        line = s;
    }
    assert(line@ == rendered(msg@));
    out.append(line.as_str());
}

/// A message, or an earlier summary, as it stands in a transcript.
pub open spec fn transcribed(m: Msg) -> Seq<char> {
    if summary_msg(m) {
        "[earlier summary]\n"@ + content_or_empty(m).skip(SUMMARY_PREFIX@.len() as int) + "\n\n"@
    } else {
        rendered(m)
    }
}

/// The transcript of a conversation.
pub open spec fn transcript(v: Seq<Msg>) -> Seq<char>
    decreases v.len(),
{
    if v.len() == 0 {
        Seq::empty()
    } else {
        transcript(v.drop_last()) + transcribed(v.last())
    }
}

/// Writes the transcript of a conversation.
pub fn render_transcript(list: &[Message]) -> (r: String)
    ensures
        r@ == transcript(messages::msg_views(list@)),
{
    let mut out = String::new();
    let ghost v = messages::msg_views(list@);
    let prefix_len: usize = to_chars(SUMMARY_PREFIX).len();
    let mut i: usize = 0;
    while i < list.len()
        invariant
            i <= list@.len(),
            v == messages::msg_views(list@),
            prefix_len == SUMMARY_PREFIX@.len(),
            out@ == transcript(v.take(i as int)),
        decreases list@.len() - i,
    {
        assert(v.take(i + 1).drop_last() =~= v.take(i as int));
        assert(v.take(i + 1).last() == list@[i as int]@);
        let msg = &list[i];
        if is_summary(msg) {
            let mut s = "[earlier summary]\n".to_owned();
            match &msg.content {
                Some(c) => {
                    let chars = to_chars(c.as_str());
                    let rest = piece(chars.as_slice(), prefix_len, chars.len());
                    assert(rest@ =~= c@.skip(SUMMARY_PREFIX@.len() as int));
                    s.append(from_chars(rest.as_slice()).as_str());
                },
                None => {},
            }
            s.append("\n\n");
            assert(s@ == transcribed(msg@));
            out.append(s.as_str());
        } else {
            render_message(&mut out, msg);
        }
        i += 1;
    }
    assert(v.take(v.len() as int) =~= v);
    out
}

// ---------------------------------------------------------------------------
// The course of a summarization
// ---------------------------------------------------------------------------

/// A prompt: a system message that carries no summary. Prompts are kept as they are.
pub open spec fn prompt_msg(m: Msg) -> bool {
    m.role == "system"@ && !summary_msg(m)
}

/// The prompts among the messages.
pub open spec fn prompts_of(v: Seq<Msg>) -> Seq<Msg>
    decreases v.len(),
{
    if v.len() == 0 {
        Seq::empty()
    } else if prompt_msg(v.last()) {
        prompts_of(v.drop_last()).push(v.last())
    } else {
        prompts_of(v.drop_last())
    }
}

/// The earlier summaries among the messages.
pub open spec fn summaries_of(v: Seq<Msg>) -> Seq<Msg>
    decreases v.len(),
{
    if v.len() == 0 {
        Seq::empty()
    } else if summary_msg(v.last()) {
        summaries_of(v.drop_last()).push(v.last())
    } else {
        summaries_of(v.drop_last())
    }
}

/// The messages that are neither prompts nor earlier summaries.
pub open spec fn talk_of(v: Seq<Msg>) -> Seq<Msg>
    decreases v.len(),
{
    if v.len() == 0 {
        Seq::empty()
    } else if v.last().role == "system"@ {
        talk_of(v.drop_last())
    } else {
        talk_of(v.drop_last()).push(v.last())
    }
}

/// The last message of the user.
pub open spec fn last_user(v: Seq<Msg>) -> Option<Msg>
    decreases v.len(),
{
    if v.len() == 0 {
        None
    } else if v.last().role == "user"@ {
        Some(v.last())
    } else {
        last_user(v.drop_last())
    }
}

/// A summarization under way: what is kept, what is summarized, and how often it was shortened.
pub struct SummaryJob {
    pub prompts: Vec<Message>,
    pub earlier: Vec<Message>,
    pub recent: Vec<Message>,
    pub pending_user: Option<Message>,
    pub attempt: usize,
}

/// What a summarization holds.
pub ghost struct Job {
    pub prompts: Seq<Msg>,
    pub earlier: Seq<Msg>,
    pub recent: Seq<Msg>,
    pub pending_user: Option<Msg>,
    pub attempt: nat,
}

/// What an optional message holds.
pub open spec fn opt_msg(m: Option<Message>) -> Option<Msg> {
    match m {
        Some(x) => Some(x@),
        None => None,
    }
}

impl View for SummaryJob {
    type V = Job;

    open spec fn view(&self) -> Job {
        Job {
            prompts: messages::msg_views(self.prompts@),
            earlier: messages::msg_views(self.earlier@),
            recent: messages::msg_views(self.recent@),
            pending_user: opt_msg(self.pending_user),
            attempt: self.attempt as nat,
        }
    }
}

/// The summarization of `v` before anything is asked of the model.
pub open spec fn job_of(v: Seq<Msg>, keep_last_user: bool) -> Job {
    Job {
        prompts: prompts_of(v),
        earlier: summaries_of(v),
        recent: talk_of(v),
        pending_user: if keep_last_user {
            last_user(v)
        } else {
            None
        },
        attempt: 0,
    }
}

/// Begins to summarize a conversation. There has to be something besides prompts. With
/// `keep_last_user` the last user message is kept to be sent again after the summary.
pub fn summarize_conversation(list: &[Message], keep_last_user: bool) -> (r: Result<SummaryJob, String>)
    ensures
        match r {
            Ok(job) => {
                let v = messages::msg_views(list@);
                &&& summaries_of(v).len() + talk_of(v).len() > 0
                &&& job@ == job_of(v, keep_last_user)
            },
            Err(e) => {
                let v = messages::msg_views(list@);
                &&& summaries_of(v).len() + talk_of(v).len() == 0
                &&& e@ == "Nothing to summarize."@
            },
        },
{
    let ghost v = messages::msg_views(list@);
    let mut prompts: Vec<Message> = Vec::new();
    let mut earlier: Vec<Message> = Vec::new();
    let mut recent: Vec<Message> = Vec::new();
    let mut user: Option<Message> = None;
    let mut i: usize = 0;
    proof {
        assert(messages::msg_views(prompts@) =~= prompts_of(v.take(0)));
        assert(messages::msg_views(earlier@) =~= summaries_of(v.take(0)));
        assert(messages::msg_views(recent@) =~= talk_of(v.take(0)));
    }
    while i < list.len()
        invariant
            i <= list@.len(),
            v == messages::msg_views(list@),
            messages::msg_views(prompts@) == prompts_of(v.take(i as int)),
            messages::msg_views(earlier@) == summaries_of(v.take(i as int)),
            messages::msg_views(recent@) == talk_of(v.take(i as int)),
            opt_msg(user) == last_user(v.take(i as int)),
        decreases list@.len() - i,
    {
        assert(v.take(i + 1).drop_last() =~= v.take(i as int));
        assert(v.take(i + 1).last() == list@[i as int]@);
        let m = list[i].clone();
        if same(m.role.as_str(), "user") {
            user = Some(m.clone());
        }
        if is_summary(&m) {
            proof {
                messages::msg_views_push(earlier@, m);
            }
            earlier.push(m);
        } else if same(m.role.as_str(), "system") {
            proof {
                messages::msg_views_push(prompts@, m);
            }
            prompts.push(m);
        } else {
            proof {
                messages::msg_views_push(recent@, m);
            }
            recent.push(m);
        }
        i += 1;
    }
    assert(v.take(v.len() as int) =~= v);
    assert(messages::msg_views(earlier@).len() == earlier@.len());
    assert(messages::msg_views(recent@).len() == recent@.len());
    if earlier.len() == 0 && recent.len() == 0 {
        return Err("Nothing to summarize.".to_owned());
    }
    let pending_user = if keep_last_user {
        user
    } else {
        None
    };
    Ok(SummaryJob { prompts, earlier, recent, pending_user, attempt: 0 })
}

/// The messages that ask the model for a summary of `v`.
pub open spec fn summary_request(v: Seq<Msg>) -> Seq<Msg> {
    seq![
        messages::plain_msg("system"@, SUMMARY_INSTRUCTIONS@),
        messages::plain_msg("user"@, "Summarize this conversation:\n\n"@ + transcript(v)),
    ]
}

/// What came of a request for a summary.
pub enum SummaryReply {
    /// The request did not fit in the model's context window.
    TooLong(String),
    /// The request failed for another reason.
    Failed(String),
    /// The model answered, perhaps without a text.
    Answered(Option<String>),
}

/// What follows from a reply.
pub enum SummaryStep {
    /// The transcript was shortened: ask again.
    Again,
    /// The new history.
    Done(Vec<Message>),
    /// The summarization failed.
    Failed(String),
}

/// What follows from a reply.
pub ghost enum Step {
    Again,
    Done(Seq<Msg>),
    Failed(Seq<char>),
}

impl View for SummaryStep {
    type V = Step;

    open spec fn view(&self) -> Step {
        match self {
            SummaryStep::Again => Step::Again,
            SummaryStep::Done(v) => Step::Done(messages::msg_views(v@)),
            SummaryStep::Failed(e) => Step::Failed(e@),
        }
    }
}

/// The history after a summary: the prompts, the summary, and the user message that waits.
pub open spec fn summarized(job: Job, summary: Seq<char>) -> Seq<Msg> {
    let head = job.prompts.push(messages::plain_msg("system"@, SUMMARY_PREFIX@ + summary));
    match job.pending_user {
        Some(m) => head.push(m),
        None => head,
    }
}

/// Whether a transcript that did not fit is shortened once more.
pub open spec fn may_shrink(job: Job) -> bool {
    job.recent.len() > 1 && job.attempt < MAX_SHRINK_ATTEMPTS
}

/// A summarization with the older half of its recent messages left out.
pub open spec fn shrunk(job: Job) -> Job {
    Job {
        recent: job.recent.skip(job.recent.len() as int / 2),
        attempt: job.attempt + 1,
        ..job
    }
}

/// What follows from a reply.
pub open spec fn summary_step(job: Job, reply: SummaryReply) -> Step {
    match reply {
        SummaryReply::TooLong(e) => if may_shrink(job) {
            Step::Again
        } else {
            Step::Failed(e@)
        },
        SummaryReply::Failed(e) => Step::Failed(e@),
        SummaryReply::Answered(t) => {
            let s = match t {
                Some(x) => words::trimmed(x@),
                None => Seq::empty(),
            };
            if s.len() == 0 {
                Step::Failed("The model returned an empty summary."@)
            } else {
                Step::Done(summarized(job, s))
            }
        },
    }
}

impl SummaryJob {
    /// The messages that ask the model for the summary: earlier summaries first, then the recent
    /// messages.
    pub fn request(&self) -> (r: Vec<Message>)
        ensures
            messages::msg_views(r@) == summary_request(self@.earlier + self@.recent),
    {
        let mut all = copy_messages(self.earlier.as_slice(), 0, self.earlier.len());
        let mut recent = copy_messages(self.recent.as_slice(), 0, self.recent.len());
        let ghost a = messages::msg_views(all@);
        let ghost b = messages::msg_views(recent@);
        proof {
            assert(a =~= self@.earlier);
            assert(b =~= self@.recent);
        }
        all.append(&mut recent);
        assert(messages::msg_views(all@) =~= a + b);
        let mut ask = "Summarize this conversation:\n\n".to_owned();
        ask.append(render_transcript(all.as_slice()).as_str());
        let mut r: Vec<Message> = Vec::new();
        r.push(make_message("system", SUMMARY_INSTRUCTIONS.to_owned()));
        r.push(make_message("user", ask));
        assert(messages::msg_views(r@) =~= summary_request(self@.earlier + self@.recent));
        r
    }

    /// Takes the reply to a request. A request that did not fit is asked again with the older half
    /// of the recent messages left out, up to a number of times.
    pub fn step(&mut self, reply: SummaryReply) -> (r: SummaryStep)
        ensures
            r@ == summary_step(old(self)@, reply),
            final(self)@ == (if r@ is Again {
                shrunk(old(self)@)
            } else {
                old(self)@
            }),
    {
        assert(self@.recent.len() == self.recent@.len());
        match reply {
            SummaryReply::TooLong(e) => {
                let n: usize = self.recent.len();
                if n > 1 && self.attempt < MAX_SHRINK_ATTEMPTS {
                    let ghost before = self@;
                    self.recent = copy_messages(self.recent.as_slice(), n / 2, n);
                    self.attempt = self.attempt + 1;
                    proof {
                        assert(self@.recent =~= before.recent.skip(before.recent.len() as int / 2));
                        assert(self@ == shrunk(before));
                    }
                    SummaryStep::Again
                } else {
                    SummaryStep::Failed(e)
                }
            },
            SummaryReply::Failed(e) => SummaryStep::Failed(e),
            SummaryReply::Answered(t) => {
                let s = match t {
                    Some(x) => trim_text(x.as_str()),
                    None => String::new(),
                };
                if s.as_str().is_empty() {
                    return SummaryStep::Failed("The model returned an empty summary.".to_owned());
                }
                let mut v = copy_messages(self.prompts.as_slice(), 0, self.prompts.len());
                let mut content = SUMMARY_PREFIX.to_owned();
                content.append(s.as_str());
                assert(messages::msg_views(v@) =~= self@.prompts);
                let head = make_message("system", content);
                proof {
                    messages::msg_views_push(v@, head);
                }
                v.push(head);
                match &self.pending_user {
                    Some(m) => {
                        let user = m.clone();
                        proof {
                            messages::msg_views_push(v@, user);
                        }
                        v.push(user);
                    },
                    None => {},
                }
                SummaryStep::Done(v)
            },
        }
    }
}

/// A summarization is shortened only a limited number of times, and it always keeps a recent
/// message: it comes to an end whatever the model replies.
pub proof fn shrinking_ends(job: Job)
    requires
        may_shrink(job),
    ensures
        0 < shrunk(job).recent.len() < job.recent.len(),
        shrunk(job).attempt == job.attempt + 1,
        shrunk(job).attempt <= MAX_SHRINK_ATTEMPTS,
        shrunk(job).earlier == job.earlier,
        shrunk(job).prompts == job.prompts,
        shrunk(job).pending_user == job.pending_user,
{
}

proof fn kinds_of_prompts(v: Seq<Msg>)
    ensures
        forall|i: int| 0 <= i < prompts_of(v).len() ==> prompt_msg(#[trigger] prompts_of(v)[i]),
    decreases v.len(),
{
    if v.len() > 0 {
        let rest = prompts_of(v.drop_last());
        kinds_of_prompts(v.drop_last());
        assert forall|i: int| 0 <= i < prompts_of(v).len() implies prompt_msg(
            #[trigger] prompts_of(v)[i],
        ) by {
            if i < rest.len() {
                assert(prompts_of(v)[i] == rest[i]);
            }
        }
    }
}

proof fn last_user_is_user(v: Seq<Msg>)
    ensures
        last_user(v) matches Some(m) ==> m.role == "user"@,
    decreases v.len(),
{
    if v.len() > 0 {
        last_user_is_user(v.drop_last());
    }
}

/// A new history begins with the prompts of the old one, in order, and carries exactly one summary:
/// earlier summaries are folded into it.
pub proof fn one_summary_remains(v: Seq<Msg>, keep_last_user: bool, summary: Seq<char>)
    ensures
        ({
            let h = summarized(job_of(v, keep_last_user), summary);
            let n = prompts_of(v).len() as int;
            &&& h.take(n) == prompts_of(v)
            &&& h.len() <= n + 2
            &&& forall|i: int| 0 <= i < h.len() ==> (summary_msg(#[trigger] h[i]) <==> i == n)
        }),
{
    let h = summarized(job_of(v, keep_last_user), summary);
    let n = prompts_of(v).len() as int;
    kinds_of_prompts(v);
    last_user_is_user(v);
    reveal_strlit("user");
    reveal_strlit("system");
    assert("user"@ != "system"@) by {
        assert("user"@.len() != "system"@.len());
    }
    assert(h.take(n) =~= prompts_of(v));
    assert(text::begins(SUMMARY_PREFIX@ + summary, SUMMARY_PREFIX@)) by {
        assert((SUMMARY_PREFIX@ + summary).take(SUMMARY_PREFIX@.len() as int) =~= SUMMARY_PREFIX@);
    }
    assert forall|i: int| 0 <= i < h.len() implies (summary_msg(#[trigger] h[i]) <==> i == n) by {
        if i < n {
            assert(h[i] == prompts_of(v)[i]);
        }
    }
}

/// The last message of the user, where it is to be kept, ends the new history as it was.
pub proof fn the_last_message_is_kept(v: Seq<Msg>, summary: Seq<char>)
    requires
        last_user(v) is Some,
    ensures
        summarized(job_of(v, true), summary).last() == last_user(v)->0,
        summarized(job_of(v, true), summary).len() == prompts_of(v).len() + 2,
{
}

/// Every message that is no prompt is part of what is summarized: the work of tools as well.
pub proof fn nothing_is_left_out(v: Seq<Msg>, keep_last_user: bool, i: int)
    requires
        0 <= i < v.len(),
    ensures
        prompt_msg(v[i]) || ({
            let job = job_of(v, keep_last_user);
            (job.earlier + job.recent).contains(v[i])
        }),
    decreases v.len(),
{
    let w = v.drop_last();
    let m = v[i];
    let old_parts = summaries_of(w) + talk_of(w);
    let parts = summaries_of(v) + talk_of(v);
    if i < w.len() {
        nothing_is_left_out(w, keep_last_user, i);
        assert(w[i] == m);
        if !prompt_msg(m) {
            let j = choose|j: int| 0 <= j < old_parts.len() && old_parts[j] == m;
            if j < summaries_of(w).len() {
                assert(parts[j] == m);
            } else {
                let k = j - summaries_of(w).len() + summaries_of(v).len();
                assert(parts[k] == m);
            }
        }
    } else if summary_msg(m) {
        assert(parts[summaries_of(v).len() - 1] == m);
    } else if m.role != "system"@ {
        assert(parts[parts.len() - 1] == m);
    }
}

// ---------------------------------------------------------------------------
// What the model is told, and what remains
// ---------------------------------------------------------------------------

/// The text `x` stands somewhere in `t`.
pub open spec fn tells(t: Seq<char>, x: Seq<char>) -> bool {
    exists|p: int| #[trigger] replacing::stands(t, x, p)
}

/// The start of a text, as far as a transcript shows it.
pub open spec fn shown_part(c: Seq<char>) -> Seq<char> {
    c.take(
        if c.len() < 2000 {
            c.len() as int
        } else {
            2000
        },
    )
}

pub(crate) proof fn tells_inside(a: Seq<char>, x: Seq<char>, b: Seq<char>)
    ensures
        replacing::stands(a + x + b, x, a.len() as int),
        tells(a + x + b, x),
{
    let t = a + x + b;
    assert forall|k: int| 0 <= k < x.len() implies t[a.len() + k] == #[trigger] x[k] by {}
    assert(replacing::stands(t, x, a.len() as int));
}

pub(crate) proof fn tells_further(a: Seq<char>, t: Seq<char>, b: Seq<char>, x: Seq<char>)
    requires
        tells(t, x),
    ensures
        tells(a + t + b, x),
{
    let p = choose|p: int| #[trigger] replacing::stands(t, x, p);
    let u = a + t + b;
    assert forall|k: int| 0 <= k < x.len() implies u[a.len() + p + k] == #[trigger] x[k] by {
        assert(t[p + k] == x[k]);
    }
    assert(replacing::stands(u, x, a.len() + p));
}

proof fn shortened_texts_begin_the_same(c: Seq<char>)
    ensures
        replacing::stands(truncated(c, MAX_MESSAGE_CHARS as int), shown_part(c), 0),
        tells(truncated(c, MAX_MESSAGE_CHARS as int), shown_part(c)),
{
    let t = truncated(c, MAX_MESSAGE_CHARS as int);
    let x = shown_part(c);
    assert forall|k: int| 0 <= k < x.len() implies t[0 + k] == #[trigger] x[k] by {}
    assert(replacing::stands(t, x, 0));
}

proof fn calls_are_told(v: Seq<messages::Call>, k: int)
    requires
        0 <= k < v.len(),
    ensures
        tells(rendered_calls(v), v[k].name),
        tells(rendered_calls(v), shown_part(v[k].arguments)),
    decreases v.len(),
{
    let before = rendered_calls(v.drop_last());
    let c = v.last();
    let args = truncated(c.arguments, MAX_MESSAGE_CHARS as int);
    let none = Seq::<char>::empty();
    if k == v.len() - 1 {
        tells_inside(before + "(called tool "@, c.name, " with "@ + args + ")\n"@);
        assert(before + "(called tool "@ + c.name + (" with "@ + args + ")\n"@)
            =~= rendered_calls(v));
        shortened_texts_begin_the_same(c.arguments);
        tells_further(
            before + "(called tool "@ + c.name + " with "@,
            args,
            ")\n"@,
            shown_part(c.arguments),
        );
        assert(before + "(called tool "@ + c.name + " with "@ + args + ")\n"@
            =~= rendered_calls(v));
    } else {
        calls_are_told(v.drop_last(), k);
        let line = "(called tool "@ + c.name + " with "@ + args + ")\n"@;
        tells_further(none, before, line, v[k].name);
        tells_further(none, before, line, shown_part(v[k].arguments));
        assert(none + before + line =~= rendered_calls(v));
    }
}

proof fn messages_are_told(m: Msg)
    requires
        !summary_msg(m),
    ensures
        m.content matches Some(c) ==> tells(transcribed(m), shown_part(c)),
        m.role != "tool"@ ==> tells(transcribed(m), seq!['['] + m.role + seq![']']),
        m.role == "tool"@ ==> (m.name matches Some(n) ==> tells(transcribed(m), n)),
        m.role != "tool"@ ==> (m.calls matches Some(v) ==> forall|k: int|
            #![trigger v[k]]
            0 <= k < v.len() ==> tells(transcribed(m), v[k].name) && tells(
                transcribed(m),
                shown_part(v[k].arguments),
            )),
{
    let content = content_or_empty(m);
    let shown = truncated(content, MAX_MESSAGE_CHARS as int);
    let none = Seq::<char>::empty();
    reveal_strlit("");
    shortened_texts_begin_the_same(content);
    if m.role == "tool"@ {
        let name = match m.name {
            Some(n) => n,
            None => "unknown"@,
        };
        tells_inside("[tool result: "@, name, "]\n"@ + shown + "\n\n"@);
        assert("[tool result: "@ + name + ("]\n"@ + shown + "\n\n"@) =~= rendered(m));
        tells_further("[tool result: "@ + name + "]\n"@, shown, "\n\n"@, shown_part(content));
        assert("[tool result: "@ + name + "]\n"@ + shown + "\n\n"@ =~= rendered(m));
    } else {
        let calls = match m.calls {
            Some(c) => rendered_calls(c),
            None => ""@,
        };
        let body = if content.len() > 0 {
            shown + "\n"@
        } else {
            ""@
        };
        let label = seq!['['] + m.role + seq![']'];
        assert("["@ + m.role + "]\n"@ =~= label + seq!['\n']) by {
            reveal_strlit("[");
            reveal_strlit("]\n");
        }
        tells_inside(none, label, seq!['\n'] + body + calls + "\n"@);
        assert(none + label + (seq!['\n'] + body + calls + "\n"@) =~= rendered(m));
        if content.len() > 0 {
            tells_further(label + seq!['\n'], shown, "\n"@ + calls + "\n"@, shown_part(content));
            assert(label + seq!['\n'] + shown + ("\n"@ + calls + "\n"@) =~= rendered(m));
        } else {
            assert(shown_part(content) =~= none);
            tells_inside(none, none, rendered(m));
            assert(none + none + rendered(m) =~= rendered(m));
        }
        if let Some(v) = m.calls {
            assert forall|k: int| #![trigger v[k]] 0 <= k < v.len() implies tells(
                rendered(m),
                v[k].name,
            ) && tells(rendered(m), shown_part(v[k].arguments)) by {
                calls_are_told(v, k);
                let head = label + seq!['\n'] + body;
                tells_further(head, calls, "\n"@, v[k].name);
                tells_further(head, calls, "\n"@, shown_part(v[k].arguments));
                assert(head + calls + "\n"@ =~= rendered(m));
            }
        }
    }
}

proof fn transcripts_are_blocks(v: Seq<Msg>, i: int)
    requires
        0 <= i < v.len(),
    ensures
        transcript(v.take(i)).len() <= transcript(v.take(i + 1)).len() <= transcript(v).len(),
        transcript(v).subrange(
            transcript(v.take(i)).len() as int,
            transcript(v.take(i + 1)).len() as int,
        ) == transcribed(v[i]),
    decreases v.len(),
{
    let w = v.drop_last();
    let t = transcript(v);
    assert(v.take(i + 1).drop_last() =~= v.take(i));
    if i < w.len() {
        transcripts_are_blocks(w, i);
        assert(w.take(i) =~= v.take(i));
        assert(w.take(i + 1) =~= v.take(i + 1));
        let a = transcript(v.take(i)).len() as int;
        let b = transcript(v.take(i + 1)).len() as int;
        assert(t.subrange(a, b) =~= transcript(w).subrange(a, b));
    } else {
        assert(v.take(i) =~= w);
        assert(v.take(i + 1) =~= v);
        assert(t.subrange(transcript(w).len() as int, t.len() as int) =~= transcribed(v[i]));
    }
}

/// A transcript tells of every message, whatever its role, and in the order of the messages: of
/// each there is a block, behind those of the messages before it, that says who speaks and holds
/// the start of what is said, up to two thousand characters, with the name and the start of the
/// arguments of each tool that is called, or the name of the tool that answers. Of an earlier
/// summary it holds all but the heading.
pub proof fn transcripts_tell_of_every_message(v: Seq<Msg>, i: int)
    requires
        0 <= i < v.len(),
    ensures
        MAX_MESSAGE_CHARS == 2000,
        ({
            let from = transcript(v.take(i)).len() as int;
            let to = transcript(v.take(i + 1)).len() as int;
            let block = transcript(v).subrange(from, to);
            let m = v[i];
            &&& from <= to <= transcript(v).len()
            &&& m.role != "system"@ && m.content is Some ==> tells(block, shown_part(m.content->0))
            &&& m.role != "system"@ && m.role != "tool"@ ==> tells(
                block,
                seq!['['] + m.role + seq![']'],
            )
            &&& m.role == "tool"@ && m.name is Some ==> tells(block, m.name->0)
            &&& m.role != "system"@ && m.role != "tool"@ && m.calls is Some ==> forall|k: int|
                #![trigger m.calls->0[k]]
                0 <= k < m.calls->0.len() ==> tells(block, m.calls->0[k].name) && tells(
                    block,
                    shown_part(m.calls->0[k].arguments),
                )
            &&& m.role == "system"@ && m.content is Some && replacing::stands(
                m.content->0,
                SUMMARY_PREFIX@,
                0,
            ) ==> tells(block, m.content->0.skip(SUMMARY_PREFIX@.len() as int))
        }),
{
    transcripts_are_blocks(v, i);
    let m = v[i];
    prefix_stands(m);
    if m.role == "tool"@ {
        reveal_strlit("tool");
        reveal_strlit("system");
        assert("tool"@.len() != "system"@.len());
    }
    if summary_msg(m) {
        let rest = m.content->0.skip(SUMMARY_PREFIX@.len() as int);
        tells_inside("[earlier summary]\n"@, rest, "\n\n"@);
    } else {
        messages_are_told(m);
    }
}

pub(crate) proof fn prefix_stands(m: Msg)
    ensures
        summary_msg(m) <==> carries_summary(m),
{
    if let Some(c) = m.content {
        let p = SUMMARY_PREFIX@;
        if text::begins(c, p) {
            assert forall|k: int| 0 <= k < p.len() implies c[0 + k] == #[trigger] p[k] by {
                assert(c.take(p.len() as int)[k] == p[k]);
            }
        }
        if replacing::stands(c, p, 0) {
            assert forall|k: int| 0 <= k < p.len() implies c.take(p.len() as int)[k] == p[k] by {
                assert(c[0 + k] == p[k]);
            }
            assert(c.take(p.len() as int) =~= p);
        }
    }
}

/// A system message that begins with the heading of a summary.
pub open spec fn carries_summary(m: Msg) -> bool {
    m.role == "system"@ && (m.content matches Some(c) && replacing::stands(c, SUMMARY_PREFIX@, 0))
}

/// A conversation is sorted out without loss and in order: system messages are prompts, but for
/// those that carry a summary, and all other messages are what is to be summarized.
pub proof fn conversations_are_sorted_out(v: Seq<Msg>, keep_last_user: bool)
    ensures
        ({
            let job = job_of(v, keep_last_user);
            &&& job.prompts == v.filter(|m: Msg| m.role == "system"@ && !carries_summary(m))
            &&& job.earlier == v.filter(|m: Msg| carries_summary(m))
            &&& job.recent == v.filter(|m: Msg| m.role != "system"@)
        }),
    decreases v.len(),
{
    let a = |m: Msg| m.role == "system"@ && !carries_summary(m);
    let b = |m: Msg| carries_summary(m);
    let c = |m: Msg| m.role != "system"@;
    reveal(Seq::filter);
    if v.len() > 0 {
        conversations_are_sorted_out(v.drop_last(), keep_last_user);
        prefix_stands(v.last());
    }
    assert(prompts_of(v) =~= v.filter(a));
    assert(summaries_of(v) =~= v.filter(b));
    assert(talk_of(v) =~= v.filter(c));
}

/// The user message that is kept is the last one that there is, and it is kept just where that is
/// asked for.
pub proof fn the_kept_message_is_the_last_of_the_user(v: Seq<Msg>, keep_last_user: bool)
    ensures
        match job_of(v, keep_last_user).pending_user {
            Some(m) => keep_last_user && exists|i: int|
                0 <= i < v.len() && #[trigger] v[i] == m && m.role == "user"@ && forall|j: int|
                    i < j < v.len() ==> (#[trigger] v[j]).role != "user"@,
            None => keep_last_user ==> forall|j: int|
                0 <= j < v.len() ==> (#[trigger] v[j]).role != "user"@,
        },
    decreases v.len(),
{
    if v.len() > 0 && v.last().role != "user"@ {
        let w = v.drop_last();
        the_kept_message_is_the_last_of_the_user(w, keep_last_user);
        if let Some(m) = job_of(v, keep_last_user).pending_user {
            let i = choose|i: int|
                0 <= i < w.len() && #[trigger] w[i] == m && m.role == "user"@ && forall|j: int|
                    i < j < w.len() ==> (#[trigger] w[j]).role != "user"@;
            assert(v[i] == m);
            assert forall|j: int| i < j < v.len() implies (#[trigger] v[j]).role != "user"@ by {
                if j < w.len() {
                    assert(v[j] == w[j]);
                }
            }
        } else if keep_last_user {
            assert forall|j: int| 0 <= j < v.len() implies (#[trigger] v[j]).role != "user"@ by {
                if j < w.len() {
                    assert(v[j] == w[j]);
                }
            }
        }
    } else if v.len() > 0 {
        assert(v[v.len() - 1] == v.last());
    }
}

/// The request for a summary tells the model of every message of the conversation that is no
/// prompt: of all that was said, called and answered.
pub proof fn the_model_is_told_of_every_message(v: Seq<Msg>, keep_last_user: bool, i: int)
    requires
        0 <= i < v.len(),
        v[i].role != "system"@,
        v[i].content is Some,
    ensures
        ({
            let job = job_of(v, keep_last_user);
            let request = summary_request(job.earlier + job.recent);
            exists|k: int|
                0 <= k < request.len() && (#[trigger] request[k]).role == "user"@
                    && request[k].content is Some && tells(
                    request[k].content->0,
                    shown_part(v[i].content->0),
                )
        }),
{
    let job = job_of(v, keep_last_user);
    let all = job.earlier + job.recent;
    nothing_is_left_out(v, keep_last_user, i);
    let j = choose|j: int| 0 <= j < all.len() && all[j] == v[i];
    let x = shown_part(v[i].content->0);
    transcripts_tell_of_every_message(all, j);
    let t = transcript(all);
    let a = transcript(all.take(j)).len() as int;
    let b = transcript(all.take(j + 1)).len() as int;
    tells_further(t.take(a), t.subrange(a, b), t.skip(b), x);
    assert(t.take(a) + t.subrange(a, b) + t.skip(b) =~= t);
    let head = "Summarize this conversation:\n\n"@;
    let none = Seq::<char>::empty();
    tells_further(head, t, none, x);
    assert(head + t + none =~= head + t);
    let request = summary_request(all);
    assert(request[1].role == "user"@);
}

/// Where the model answers with a text, the conversation becomes its prompts, one system message
/// with the heading and the text, without the white space around it, and the user message that is
/// kept. Without a text there is no new conversation.
pub proof fn the_summary_takes_the_place(job: Job, reply: SummaryReply)
    ensures
        reply matches SummaryReply::Answered(Some(t)) ==> ({
            let s = words::trimmed(t@);
            let head = Msg {
                role: "system"@,
                content: Some(SUMMARY_PREFIX@ + s),
                tool_call_id: None,
                name: None,
                calls: None,
            };
            let kept = match job.pending_user {
                Some(m) => seq![m],
                None => Seq::empty(),
            };
            match summary_step(job, reply) {
                Step::Done(h) => s.len() > 0 && h == job.prompts + seq![head] + kept,
                Step::Failed(_) => s.len() == 0,
                Step::Again => false,
            }
        }),
        !(reply is Answered) || (reply matches SummaryReply::Answered(None)) ==> !(summary_step(
            job,
            reply,
        ) is Done),
{
    if let SummaryReply::Answered(Some(t)) = reply {
        let s = words::trimmed(t@);
        if s.len() > 0 {
            let h = summarized(job, s);
            let kept = match job.pending_user {
                Some(m) => seq![m],
                None => Seq::empty(),
            };
            let head = Msg {
                role: "system"@,
                content: Some(SUMMARY_PREFIX@ + s),
                tool_call_id: None,
                name: None,
                calls: None,
            };
            assert(h =~= job.prompts + seq![head] + kept);
        }
    }
}

/// What does not fit is asked again without the older half of the recent messages: the newer half
/// stays, in order.
pub proof fn shrinking_keeps_the_newer_half(job: Job, k: int)
    requires
        may_shrink(job),
        0 <= k < job.recent.len() - job.recent.len() / 2,
    ensures
        shrunk(job).recent.len() == job.recent.len() - job.recent.len() / 2,
        shrunk(job).recent[k] == job.recent[job.recent.len() / 2 + k],
{
}

/// A message as it is told: whole, or its start and how much more there is of it.
pub open spec fn told(t: Seq<char>) -> Seq<char> {
    if t.len() <= 2000 {
        t
    } else {
        t.take(2000) + "... ["@ + numbers::decimal(
            (t.len() - 2000) as nat,
        ) + " more characters]"@
    }
}

/// Every call is told on a line of its own, in order: the tool, and what it was called with.
pub proof fn every_call_is_told(calls: Seq<messages::Call>, c: messages::Call)
    ensures
        rendered_calls(calls.push(c)) == rendered_calls(calls) + "(called tool "@ + c.name
            + " with "@ + told(c.arguments) + ")\n"@,
{
    assert(calls.push(c).drop_last() =~= calls);
    assert(rendered_calls(calls.push(c)) =~= rendered_calls(calls) + "(called tool "@ + c.name
        + " with "@ + told(c.arguments) + ")\n"@);
}

/// A conversation is told message by message, in order and each under its role: what a tool gave
/// under the name of the tool, a summary without its heading, and any other message with its
/// content, where it has one, and one line for each call that it makes.
pub proof fn conversations_are_told_in_order(v: Seq<Msg>, m: Msg, c: Seq<char>, call: messages::Call)
    requires
        m.content == Some(c),
        c.len() > 0,
    ensures
        ({
            let before = transcript(v);
            let after = transcript(v.push(m));
            let named = m.name matches Some(_);
            let tool = m.role == "tool"@;
            let plain = !tool && !carries_summary(m);
            &&& tool && named ==> after == before + "[tool result: "@ + m.name->0 + "]\n"@ + told(c)
                + "\n\n"@
            &&& tool && !named ==> after == before + "[tool result: "@ + "unknown"@ + "]\n"@ + told(
                c,
            ) + "\n\n"@
            &&& carries_summary(m) ==> after == before + "[earlier summary]\n"@ + c.skip(
                SUMMARY_PREFIX@.len() as int,
            ) + "\n\n"@
            &&& plain && m.calls is None ==> after == before + "["@ + m.role + "]\n"@ + told(c)
                + "\n"@ + "\n"@
            &&& plain && m.calls == Some(seq![call]) ==> after == before + "["@ + m.role + "]\n"@
                + told(c) + "\n"@ + "(called tool "@ + call.name + " with "@ + told(call.arguments)
                + ")\n"@ + "\n"@
        }),
{
    if m.role == "tool"@ {
        tool_results_are_told(v, m, c);
        reveal_strlit("tool");
        reveal_strlit("system");
        assert("tool"@.len() == 4 && "system"@.len() == 6);
    } else if carries_summary(m) {
        summaries_are_told(v, m, c);
    } else {
        words_are_told(v, m, c);
        if m.calls == Some(seq![call]) {
            let none = Seq::<messages::Call>::empty();
            every_call_is_told(none, call);
            assert(none.push(call) =~= seq![call]);
            assert(rendered_calls(none) =~= Seq::<char>::empty());
            let line = "(called tool "@ + call.name + " with "@ + told(call.arguments) + ")\n"@;
            assert(rendered_calls(seq![call]) =~= line);
            let head = transcript(v) + "["@ + m.role + "]\n"@ + told(c) + "\n"@;
            assert(head + line + "\n"@ =~= head + "(called tool "@ + call.name + " with "@ + told(
                call.arguments,
            ) + ")\n"@ + "\n"@);
        }
    }
}

proof fn tool_results_are_told(v: Seq<Msg>, m: Msg, c: Seq<char>)
    requires
        m.content == Some(c),
        m.role == "tool"@,
    ensures
        transcript(v.push(m)) == transcript(v) + "[tool result: "@ + (match m.name {
            Some(n) => n,
            None => "unknown"@,
        }) + "]\n"@ + told(c) + "\n\n"@,
{
    reveal_strlit("tool");
    reveal_strlit("system");
    assert("tool"@.len() == 4 && "system"@.len() == 6);
    assert(v.push(m).drop_last() =~= v);
    assert(truncated(c, MAX_MESSAGE_CHARS as int) =~= told(c));
    let name = match m.name {
        Some(n) => n,
        None => "unknown"@,
    };
    let a = transcript(v);
    let b = "[tool result: "@;
    assert(a + (b + name + "]\n"@ + told(c) + "\n\n"@) =~= a + b + name + "]\n"@ + told(c)
        + "\n\n"@);
}

proof fn summaries_are_told(v: Seq<Msg>, m: Msg, c: Seq<char>)
    requires
        m.content == Some(c),
        carries_summary(m),
    ensures
        transcript(v.push(m)) == transcript(v) + "[earlier summary]\n"@ + c.skip(
            SUMMARY_PREFIX@.len() as int,
        ) + "\n\n"@,
{
    prefix_stands(m);
    assert(v.push(m).drop_last() =~= v);
    let t = c.skip(SUMMARY_PREFIX@.len() as int);
    let a = transcript(v);
    assert(a + ("[earlier summary]\n"@ + t + "\n\n"@) =~= a + "[earlier summary]\n"@ + t
        + "\n\n"@);
}

proof fn words_are_told(v: Seq<Msg>, m: Msg, c: Seq<char>)
    requires
        m.content == Some(c),
        c.len() > 0,
        m.role != "tool"@,
        !carries_summary(m),
    ensures
        m.calls is None ==> transcript(v.push(m)) == transcript(v) + "["@ + m.role + "]\n"@ + told(c)
            + "\n"@ + "\n"@,
        m.calls matches Some(calls) ==> transcript(v.push(m)) == transcript(v) + "["@ + m.role
            + "]\n"@ + told(c) + "\n"@ + rendered_calls(calls) + "\n"@,
{
    prefix_stands(m);
    reveal_strlit("");
    assert(v.push(m).drop_last() =~= v);
    assert(truncated(c, MAX_MESSAGE_CHARS as int) =~= told(c));
    let a = transcript(v);
    let t = told(c);
    let x = match m.calls {
        Some(calls) => rendered_calls(calls),
        None => ""@,
    };
    assert(a + ("["@ + m.role + "]\n"@ + (t + "\n"@) + x + "\n"@) =~= a + "["@ + m.role + "]\n"@ + t
        + "\n"@ + x + "\n"@);
    if m.calls is None {
        let head = a + "["@ + m.role + "]\n"@ + t + "\n"@;
        assert(head + x =~= head);
    }
}

} // verus!
