//! Answers with their sources, and the conversation of a chat.

use crate::config::prompts::{rendered, with_entries, Prompts, Variables};
use crate::error::LyttError;
use crate::rag::context::{
    format_context_for_prompt, prompt_context, push_score, score_text, ContextBuilder,
};
use crate::rag::{context_views, ContextChunk, ContextView};
use crate::text::{append_str, from_chars, string_of};
use vstd::prelude::*;

verus! {

/// The most messages that a conversation keeps, the system message among them.
pub const HISTORY_LIMIT: usize = 20;

/// Who speaks a message.
#[derive(Debug, Clone, Copy, PartialEq, Eq)]
pub enum ChatRole {
    System,
    User,
    Assistant,
}

/// One message of a conversation.
#[derive(Debug, Clone)]
pub struct ChatMessage {
    pub role: ChatRole,
    pub content: String,
}

/// What a `ChatMessage` holds.
pub struct ChatMessageView {
    pub role: ChatRole,
    pub content: Seq<char>,
}

impl View for ChatMessage {
    type V = ChatMessageView;

    open spec fn view(&self) -> ChatMessageView {
        ChatMessageView { role: self.role, content: self.content@ }
    }
}

/// The views of messages, in order.
pub open spec fn chat_views(messages: Seq<ChatMessage>) -> Seq<ChatMessageView> {
    Seq::new(messages.len(), |i: int| messages[i]@)
}

/// An answer with the passages it rests on.
#[derive(Debug, Clone)]
pub struct RagResponse {
    pub answer: String,
    pub sources: Vec<ContextChunk>,
}

/// What answers questions: the model, what is asked of a search, the
/// prompts, and the conversation so far, which starts with the system message.
#[derive(Debug, Clone)]
pub struct RagEngine {
    pub model: String,
    pub context_builder: ContextBuilder,
    pub prompts: Prompts,
    pub conversation_history: Vec<ChatMessage>,
}

/// What is to be done for a question once its passages are known.
#[derive(Debug)]
pub enum AskPlan {
    /// Nothing to ask: this is the answer.
    Answer(RagResponse),
    /// Ask the model with these two messages.
    AskModel { system: String, user: String },
}

/// What is answered where no passage goes with the question.
pub open spec fn nothing_found() -> Seq<char> {
    "I couldn't find any relevant information in your video library for this question."@
}

/// What a question and its passages fill in.
pub open spec fn answer_variables(question: Seq<char>, chunks: Seq<ContextView>) -> Seq<
    (Seq<char>, Seq<char>),
> {
    seq![("question"@, question), ("context"@, prompt_context(chunks))]
}

/// What a user says in a chat, with the passages that go with it.
pub open spec fn chat_turn(message: Seq<char>, chunks: Seq<ContextView>) -> Seq<char> {
    if chunks.len() == 0 {
        "Question: "@ + message + "\n\n(No relevant context found in video library)"@
    } else {
        "Question: "@ + message + "\n\nRelevant context from videos:\n"@ + prompt_context(chunks)
    }
}

/// The conversation held to its limit: the first message and the latest
/// ones, as many as the limit leaves room for.
pub open spec fn trimmed(history: Seq<ChatMessageView>) -> Seq<ChatMessageView> {
    if history.len() > HISTORY_LIMIT {
        seq![history[0]] + history.subrange(
            history.len() - (HISTORY_LIMIT - 1),
            history.len() as int,
        )
    } else {
        history
    }
}

/// A source as a line under an answer.
pub open spec fn source_line(c: ContextView) -> Seq<char> {
    "\n"@ + c.video_title + " @ "@ + c.timestamp + " (score: "@ + score_text(c.score) + ")"@ + (
    match c.url {
        Some(u) => "\n  "@ + u,
        None => Seq::<char>::empty(),
    })
}

/// The sources as lines, one after the other.
pub open spec fn source_lines(chunks: Seq<ContextView>) -> Seq<char>
    decreases chunks.len(),
{
    if chunks.len() == 0 {
        Seq::<char>::empty()
    } else {
        source_lines(chunks.drop_last()) + source_line(chunks.last())
    }
}

/// An answer as it is shown: the answer, and under it the sources, where
/// there are any.
pub open spec fn shown(answer: Seq<char>, chunks: Seq<ContextView>) -> Seq<char> {
    if chunks.len() == 0 {
        answer
    } else {
        answer + "\n\n--- Sources ---\n"@ + source_lines(chunks)
    }
}

fn copy_message(m: &ChatMessage) -> (out: ChatMessage)
    ensures
        out@ == m@,
{
    ChatMessage { role: m.role, content: m.content.clone() }
}

impl RagEngine {
    /// Whether the conversation is in order: it starts with the system
    /// message and holds no more messages than the limit.
    pub open spec fn well_formed(&self) -> bool {
        &&& 1 <= self.conversation_history@.len() <= HISTORY_LIMIT
        &&& self.conversation_history@[0].role == ChatRole::System
    }

    /// An engine on the given model that asks a search for so many passages,
    /// with the default prompts. The conversation holds the system message of
    /// a chat.
    pub fn new(model: &str, max_context_chunks: usize) -> (e: RagEngine)
        ensures
            e.model@ == model@,
            e.context_builder.max_chunks == max_context_chunks,
            e.context_builder.min_score == crate::rag::context::DEFAULT_MIN_SCORE,
            e.well_formed(),
            e.conversation_history@.len() == 1,
            e.conversation_history@[0].content@ == e.prompts.rag.chat_system@,
    {
        let prompts = Prompts::default();
        let mut history: Vec<ChatMessage> = Vec::new();
        history.push(ChatMessage { role: ChatRole::System, content: prompts.rag.chat_system.clone() });
        RagEngine {
            model: string_of(model),
            context_builder: ContextBuilder::new().with_max_chunks(max_context_chunks),
            prompts,
            conversation_history: history,
        }
    }

    /// The same engine with other prompts, and a conversation that starts
    /// anew with their system message.
    pub fn with_prompts(self, prompts: Prompts) -> (e: RagEngine)
        ensures
            e.model == self.model,
            e.context_builder == self.context_builder,
            e.prompts == prompts,
            e.well_formed(),
            e.conversation_history@.len() == 1,
            e.conversation_history@[0].content@ == prompts.rag.chat_system@,
    {
        let mut history: Vec<ChatMessage> = Vec::new();
        history.push(ChatMessage { role: ChatRole::System, content: prompts.rag.chat_system.clone() });
        RagEngine {
            model: self.model,
            context_builder: self.context_builder,
            prompts,
            conversation_history: history,
        }
    }

    /// Decides how a question is answered, given the passages that go with
    /// it: without passages, with the words that nothing was found; else by
    /// the model, which is given the system prompt and the user prompt with
    /// question and passages filled in.
    pub fn plan_ask(&self, question: &str, chunks: Vec<ContextChunk>) -> (plan: AskPlan)
        ensures
            chunks@.len() == 0 ==> (plan matches AskPlan::Answer(r) && r.answer@ == nothing_found()
                && r.sources@.len() == 0),
            chunks@.len() > 0 ==> (plan matches AskPlan::AskModel { system, user } && system@
                == self.prompts.rag.system@ && user@ == rendered(
                self.prompts.rag.user@,
                with_entries(
                    self.prompts.variables@,
                    answer_variables(question@, context_views(chunks@)),
                ),
            )),
    {
        if chunks.len() == 0 {
            return AskPlan::Answer(
                RagResponse {
                    answer: string_of(
                        "I couldn't find any relevant information in your video library for this question.",
                    ),
                    sources: Vec::new(),
                },
            );
        }
        let context_text = format_context_for_prompt(&chunks);
        let mut vars = Variables::new();
        proof {
            assert(vars@ =~= Seq::<(Seq<char>, Seq<char>)>::empty());
        }
        vars.entries.push((string_of("question"), string_of(question)));
        vars.entries.push((string_of("context"), context_text));
        assert(vars@ =~= answer_variables(question@, context_views(chunks@)));
        let user = self.prompts.render_with_custom(self.prompts.rag.user.as_str(), &vars);
        AskPlan::AskModel { system: self.prompts.rag.system.clone(), user }
    }

    /// The response to a question that the model answered.
    pub fn finish_ask(answer: String, chunks: Vec<ContextChunk>) -> (r: RagResponse)
        ensures
            r.answer == answer,
            r.sources == chunks,
    {
        RagResponse { answer, sources: chunks }
    }

    /// Takes in what a user says in a chat, with the passages that go with
    /// it, and returns the messages for the model: the whole conversation,
    /// with the new message of the user at its end.
    pub fn begin_chat(&mut self, message: &str, chunks: &Vec<ContextChunk>) -> (messages: Vec<
        ChatMessage,
    >)
        requires
            old(self).well_formed(),
        ensures
            chat_views(final(self).conversation_history@) == chat_views(
                old(self).conversation_history@,
            ).push(
                ChatMessageView {
                    role: ChatRole::User,
                    content: chat_turn(message@, context_views(chunks@)),
                },
            ),
            chat_views(messages@) == chat_views(final(self).conversation_history@),
            final(self).model == old(self).model,
            final(self).prompts == old(self).prompts,
            final(self).context_builder == old(self).context_builder,
    {
        let mut text: Vec<char> = Vec::new();
        append_str(&mut text, "Question: ");
        append_str(&mut text, message);
        if chunks.len() == 0 {
            append_str(&mut text, "\n\n(No relevant context found in video library)");
        } else {
            append_str(&mut text, "\n\nRelevant context from videos:\n");
            append_str(&mut text, format_context_for_prompt(chunks).as_str());
        }
        let turn = ChatMessage { role: ChatRole::User, content: from_chars(&text) };
        let ghost before = self.conversation_history@;
        self.conversation_history.push(turn);
        assert(chat_views(self.conversation_history@) =~= chat_views(before).push(turn@));
        let mut messages: Vec<ChatMessage> = Vec::new();
        let mut i: usize = 0;
        while i < self.conversation_history.len()
            invariant
                i <= self.conversation_history.len(),
                chat_views(messages@) == chat_views(self.conversation_history@).take(i as int),
            decreases self.conversation_history.len() - i,
        {
            let m = copy_message(&self.conversation_history[i]);
            let ghost prior = messages@;
            messages.push(m);
            assert(chat_views(messages@) =~= chat_views(prior).push(m@));
            assert(chat_views(self.conversation_history@).take(i + 1) =~= chat_views(
                self.conversation_history@,
            ).take(i as int).push(m@));
            i = i + 1;
        }
        assert(chat_views(self.conversation_history@).take(
            self.conversation_history.len() as int,
        ) == chat_views(self.conversation_history@));
        messages
    }

    /// Takes in the answer of the model to what the user said last: the
    /// answer joins the conversation, which is then held to its limit; the
    /// system message always stays.
    pub fn finish_chat(&mut self, answer: String, chunks: Vec<ContextChunk>) -> (r: RagResponse)
        requires
            old(self).conversation_history@.len() >= 1,
            old(self).conversation_history@[0].role == ChatRole::System,
        ensures
            chat_views(final(self).conversation_history@) == trimmed(
                chat_views(old(self).conversation_history@).push(
                    ChatMessageView { role: ChatRole::Assistant, content: answer@ },
                ),
            ),
            final(self).well_formed(),
            r.answer == answer,
            r.sources == chunks,
            final(self).model == old(self).model,
            final(self).prompts == old(self).prompts,
            final(self).context_builder == old(self).context_builder,
    {
        let reply = ChatMessage { role: ChatRole::Assistant, content: answer.clone() };
        let ghost before = self.conversation_history@;
        self.conversation_history.push(reply);
        let ghost grown = self.conversation_history@;
        assert(chat_views(grown) =~= chat_views(before).push(reply@));
        let n = self.conversation_history.len();
        if n > HISTORY_LIMIT {
            let mut kept: Vec<ChatMessage> = Vec::new();
            kept.push(copy_message(&self.conversation_history[0]));
            let from: usize = n - (HISTORY_LIMIT - 1);
            let mut i: usize = from;
            assert(chat_views(kept@) =~= seq![chat_views(grown)[0]] + chat_views(grown).subrange(
                from as int,
                from as int,
            ));
            while i < n
                invariant
                    from <= i <= n,
                    n == grown.len(),
                    from == n - (HISTORY_LIMIT - 1),
                    grown == self.conversation_history@,
                    chat_views(kept@) == seq![chat_views(grown)[0]] + chat_views(grown).subrange(
                        from as int,
                        i as int,
                    ),
                decreases n - i,
            {
                let m = copy_message(&self.conversation_history[i]);
                let ghost prior = kept@;
                kept.push(m);
                assert(chat_views(kept@) =~= chat_views(prior).push(m@));
                assert(chat_views(grown).subrange(from as int, i + 1) =~= chat_views(grown).subrange(
                    from as int,
                    i as int,
                ).push(m@));
                assert(seq![chat_views(grown)[0]] + chat_views(grown).subrange(from as int, i + 1)
                    =~= (seq![chat_views(grown)[0]] + chat_views(grown).subrange(
                    from as int,
                    i as int,
                )).push(m@));
                i = i + 1;
            }
            assert(chat_views(kept@).len() == HISTORY_LIMIT);
            assert(chat_views(kept@)[0] == kept@[0]@);
            assert(chat_views(grown)[0] == grown[0]@);
            assert(grown[0] == before[0]);
            self.conversation_history = kept;
        } else {
            assert(grown[0] == before[0]);
        }
        RagResponse { answer, sources: chunks }
    }

    /// Starts the conversation anew: only the system message stays.
    pub fn clear_history(&mut self)
        requires
            old(self).conversation_history@.len() >= 1,
            old(self).conversation_history@[0].role == ChatRole::System,
        ensures
            chat_views(final(self).conversation_history@) == seq![
                chat_views(old(self).conversation_history@)[0],
            ],
            final(self).well_formed(),
            final(self).model == old(self).model,
            final(self).prompts == old(self).prompts,
    {
        self.conversation_history.truncate(1);
        assert(chat_views(self.conversation_history@) =~= seq![
            chat_views(old(self).conversation_history@)[0],
        ]);
    }

    /// The error of a call to the model that failed.
    pub fn response_failed(reason: &str) -> (e: LyttError)
        ensures
            e matches LyttError::OpenAI(m) && m@ == "Failed to generate response: "@ + reason@,
    {
        let mut m: Vec<char> = Vec::new();
        append_str(&mut m, "Failed to generate response: ");
        append_str(&mut m, reason);
        LyttError::OpenAI(from_chars(&m))
    }

    /// The error of an answer without content.
    pub fn empty_response() -> (e: LyttError)
        ensures
            e matches LyttError::Rag(m) && m@ == "Empty response from LLM"@,
    {
        LyttError::Rag(string_of("Empty response from LLM"))
    }
}

impl RagResponse {
    /// The answer as it is shown: under it the sources, each with title,
    /// time and score, and its address where it has one.
    pub fn format_for_display(&self) -> (out: String)
        ensures
            out@ == shown(self.answer@, context_views(self.sources@)),
    {
        let mut out: Vec<char> = Vec::new();
        append_str(&mut out, self.answer.as_str());
        if self.sources.len() == 0 {
            return from_chars(&out);
        }
        append_str(&mut out, "\n\n--- Sources ---\n");
        let ghost head = out@;
        let ghost all = context_views(self.sources@);
        let mut i: usize = 0;
        assert(all.take(0) == Seq::<ContextView>::empty());
        assert(head + Seq::<char>::empty() == head);
        while i < self.sources.len()
            invariant
                i <= self.sources.len(),
                all == context_views(self.sources@),
                out@ == head + source_lines(all.take(i as int)),
            decreases self.sources.len() - i,
        {
            let c = &self.sources[i];
            let mut line: Vec<char> = Vec::new();
            append_str(&mut line, "\n");
            append_str(&mut line, c.video_title.as_str());
            append_str(&mut line, " @ ");
            append_str(&mut line, c.timestamp.as_str());
            append_str(&mut line, " (score: ");
            push_score(&mut line, c.score);
            append_str(&mut line, ")");
            let ghost front = line@;
            match &c.url {
                Some(u) => {
                    append_str(&mut line, "\n  ");
                    append_str(&mut line, u.as_str());
                    assert(line@ == front + ("\n  "@ + u@));
                },
                None => {
                    assert(line@ == front + Seq::<char>::empty());
                },
            }
            assert(line@ == source_line(c@));
            crate::text::append_chars(&mut out, &line);
            assert(all.take(i + 1).drop_last() == all.take(i as int));
            assert(all.take(i + 1).last() == c@);
            assert(head + (source_lines(all.take(i as int)) + source_line(c@)) == (head
                + source_lines(all.take(i as int))) + source_line(c@));
            i = i + 1;
        }
        assert(all.take(self.sources.len() as int) == all);
        from_chars(&out)
    }
}

/// A conversation that is held to its limit is no longer than the limit and
/// starts with the message it started with.
pub proof fn lemma_trimmed(history: Seq<ChatMessageView>)
    requires
        history.len() >= 1,
    ensures
        trimmed(history).len() <= HISTORY_LIMIT,
        trimmed(history).len() >= 1,
        trimmed(history)[0] == history[0],
        trimmed(history).last() == history.last(),
{
}

} // verus!
