//! A conversation with the assistant at the terminal, as steps: what to do
//! next for what the user said last, and what a reply of the model or the
//! result of a tool changes. The conversation outlives the answers; whoever
//! drives it reads the terminal, asks the model and runs the tools.

use crate::agent::runner::{
    answered, copy_message, copy_requests, message_views, outcome_text, request_views,
    unread_request, Agent, AgentMessage, AgentMessageView, AgentRun, AgentRunView, AgentStep,
    ToolCallRecordView, ToolRequest, ToolRequestView,
};
use crate::agent::tools::tool_call_of;
use crate::error::LyttError;
use crate::json::json_of_text;
use crate::text::{append_str, from_chars, string_of};
use vstd::prelude::*;

verus! {

/// What the assistant is told of its task in a conversation.
pub const CHAT_SYSTEM_PROMPT: &'static str = "You are a helpful assistant for exploring video and audio content. You have access to the user's media knowledge base.\n\nYou have tools to search, get transcripts, and retrieve information. Use them to answer questions accurately.\n\nGuidelines:\n- Use 'list_videos' to see what content is available\n- Use 'search' to find specific topics across all media\n- Use 'get_transcript' to get a full transcript for summaries or deep analysis\n- Use 'get_segment' to get content from a specific time range\n- Use 'get_video_info' to get metadata about a video\n\nAlways cite your sources with titles and timestamps when relevant.\nBe conversational and helpful. Remember context from earlier in the conversation.";

/// How often the model may be asked for one message of the user.
pub const MAX_TOOL_ITERATIONS: usize = 10;

/// The most messages that a conversation keeps once an answer is given.
pub const CHAT_HISTORY_LIMIT: usize = 30;

/// A conversation: the assistant that holds it, and the conversation so far
/// with where the answer to the last message of the user stands.
#[derive(Debug)]
pub struct ChatSession {
    pub agent: Agent,
    pub run: AgentRun,
}

/// A conversation held to `limit` messages: the first message and the latest
/// ones, as many as the limit leaves room for.
pub open spec fn held(messages: Seq<AgentMessageView>, limit: int) -> Seq<AgentMessageView> {
    if limit >= 1 && messages.len() > limit {
        seq![messages[0]] + messages.subrange(
            messages.len() - (limit - 1),
            messages.len() as int,
        )
    } else {
        messages
    }
}

/// What a reply says: its content, or nothing where it has none.
pub open spec fn said(content: Option<String>) -> Seq<char> {
    match content {
        Some(c) => c@,
        None => Seq::<char>::empty(),
    }
}

/// What is said when the model was asked too often for one message.
pub open spec fn too_many() -> Seq<char> {
    "Too many tool iterations"@
}

/// Holds a conversation to `limit` messages.
fn hold(messages: &mut Vec<AgentMessage>, limit: usize)
    requires
        limit >= 1,
    ensures
        message_views(final(messages)@) == held(message_views(old(messages)@), limit as int),
{
    let n = messages.len();
    if n > limit {
        let ghost all = messages@;
        let mut kept: Vec<AgentMessage> = Vec::new();
        kept.push(copy_message(&messages[0]));
        let from: usize = n - (limit - 1);
        let mut i: usize = from;
        assert(message_views(kept@) =~= seq![message_views(all)[0]] + message_views(all).subrange(
            from as int,
            from as int,
        ));
        while i < n
            invariant
                from <= i <= n,
                n == all.len(),
                1 <= from,
                all == messages@,
                message_views(kept@) == seq![message_views(all)[0]] + message_views(all).subrange(
                    from as int,
                    i as int,
                ),
            decreases n - i,
        {
            let m = copy_message(&messages[i]);
            let ghost prior = kept@;
            kept.push(m);
            assert(message_views(kept@) =~= message_views(prior).push(m@));
            assert(message_views(all).subrange(from as int, i + 1) =~= message_views(all).subrange(
                from as int,
                i as int,
            ).push(m@));
            assert(seq![message_views(all)[0]] + message_views(all).subrange(from as int, i + 1)
                =~= (seq![message_views(all)[0]] + message_views(all).subrange(
                from as int,
                i as int,
            )).push(m@));
            i = i + 1;
        }
        *messages = kept;
    }
}

impl ChatSession {
    /// A conversation on the given model, in which nothing is said yet but
    /// what the assistant is told of its task.
    pub fn new(model: &str) -> (s: ChatSession)
        ensures
            s.agent.model@ == model@,
            s.agent.max_iterations == MAX_TOOL_ITERATIONS,
            s.agent.system_prompt@ == CHAT_SYSTEM_PROMPT@,
            s.run@ == (AgentRunView {
                messages: seq![AgentMessageView::System(CHAT_SYSTEM_PROMPT@)],
                iterations: 0,
                tool_calls_made: Seq::<ToolCallRecordView>::empty(),
                pending: Seq::<ToolRequestView>::empty(),
                next: 0,
            }),
    {
        let mut messages: Vec<AgentMessage> = Vec::new();
        messages.push(AgentMessage::System(string_of(CHAT_SYSTEM_PROMPT)));
        let run = AgentRun {
            messages,
            iterations: 0,
            tool_calls_made: Vec::new(),
            pending: Vec::new(),
            next: 0,
        };
        assert(run@.messages =~= seq![AgentMessageView::System(CHAT_SYSTEM_PROMPT@)]);
        assert(run@.tool_calls_made =~= Seq::<ToolCallRecordView>::empty());
        assert(run@.pending =~= Seq::<ToolRequestView>::empty());
        ChatSession {
            agent: Agent {
                model: string_of(model),
                max_iterations: MAX_TOOL_ITERATIONS,
                system_prompt: string_of(CHAT_SYSTEM_PROMPT),
            },
            run,
        }
    }

    /// Starts the conversation anew: only its first message stays.
    pub fn clear_history(&mut self)
        ensures
            final(self).agent == old(self).agent,
            final(self).run@ == (AgentRunView {
                messages: if old(self).run@.messages.len() >= 1 {
                    seq![old(self).run@.messages[0]]
                } else {
                    old(self).run@.messages
                },
                ..old(self).run@
            }),
    {
        self.run.messages.truncate(1);
        assert(self.run@.messages =~= if old(self).run@.messages.len() >= 1 {
            seq![old(self).run@.messages[0]]
        } else {
            old(self).run@.messages
        });
    }

    /// Takes in what the user says: it joins the conversation, and the
    /// answering starts from nothing.
    pub fn send(&mut self, user_input: &str)
        ensures
            final(self).agent == old(self).agent,
            final(self).run@ == (AgentRunView {
                messages: old(self).run@.messages.push(AgentMessageView::User(user_input@)),
                iterations: 0,
                tool_calls_made: Seq::<ToolCallRecordView>::empty(),
                pending: Seq::<ToolRequestView>::empty(),
                next: 0,
            }),
    {
        self.run.messages.push(AgentMessage::User(string_of(user_input)));
        self.run.iterations = 0;
        self.run.tool_calls_made = Vec::new();
        self.run.pending = Vec::new();
        self.run.next = 0;
        assert(self.run@.messages =~= old(self).run@.messages.push(
            AgentMessageView::User(user_input@),
        ));
        assert(self.run@.tool_calls_made =~= Seq::<ToolCallRecordView>::empty());
        assert(self.run@.pending =~= Seq::<ToolRequestView>::empty());
    }

    /// Decides what comes next.
    ///
    /// While a tool call of the last reply is unanswered, the next of them is
    /// read: one that can be read is to be run; one that cannot is answered
    /// with what is wrong with it. With none unanswered, the model is to be
    /// asked, unless it was asked as often as is allowed for one message:
    /// then the answering has failed, and the conversation stays as it is.
    pub fn advance(&mut self) -> (step: AgentStep)
        ensures
            final(self).agent == old(self).agent,
            old(self).run.next < old(self).run.pending@.len() ==> {
                let request = old(self).run@.pending[old(self).run.next as int];
                match json_of_text(request.arguments) {
                    Some(args) => match tool_call_of(request.name, args) {
                        Ok(call) => step matches AgentStep::RunTool(t) && t@ == call && final(self).run@ == old(self).run@,
                        Err(detail) => step is Continue && final(self).run@ == answered(
                            old(self).run@,
                            unread_request(detail),
                        ),
                    },
                    None => step is Continue && exists|detail: Seq<char>|
                        "Invalid tool arguments: "@.is_prefix_of(detail) && #[trigger] answered(
                            old(self).run@,
                            unread_request(detail),
                        ) == final(self).run@,
                }
            },
            old(self).run.next >= old(self).run.pending@.len() && old(self).run.iterations < old(self).agent.max_iterations ==> step is CallModel && final(self).run@ == (AgentRunView {
                iterations: (old(self).run.iterations + 1) as usize,
                ..old(self).run@
            }),
            old(self).run.next >= old(self).run.pending@.len() && old(self).run.iterations >= old(self).agent.max_iterations ==> (step matches AgentStep::Failed(LyttError::Agent(m)) && m@
                == too_many()) && final(self).run@ == old(self).run@,
    {
        let step = self.agent.advance(&mut self.run);
        match step {
            AgentStep::Failed(_) => AgentStep::Failed(
                LyttError::Agent(string_of("Too many tool iterations")),
            ),
            other => other,
        }
    }

    /// The error of a call to the model that failed.
    pub fn model_failed(reason: &str) -> (e: LyttError)
        ensures
            e matches LyttError::OpenAI(m) && m@ == "Chat API error: "@ + reason@,
    {
        let mut m: Vec<char> = Vec::new();
        append_str(&mut m, "Chat API error: ");
        append_str(&mut m, reason);
        LyttError::OpenAI(from_chars(&m))
    }

    /// The name of the tool call that is read next, if one is unanswered.
    pub fn next_tool(&self) -> (name: Option<String>)
        ensures
            self.run.next < self.run.pending@.len() ==> (name matches Some(n) && n@
                == self.run@.pending[self.run.next as int].name),
            self.run.next >= self.run.pending@.len() ==> name is None,
    {
        if self.run.next < self.run.pending.len() {
            Some(self.run.pending[self.run.next].name.clone())
        } else {
            None
        }
    }

    /// Takes in what a tool answered. The answer goes to the model as the
    /// tool's result: the output, or `Tool error: ` and the error's message.
    /// With no request unanswered, nothing changes.
    pub fn tool_finished(&mut self, outcome: Result<String, LyttError>)
        ensures
            final(self).agent == old(self).agent,
            old(self).run.next < old(self).run.pending@.len() ==> final(self).run@ == answered(
                old(self).run@,
                outcome_text(outcome),
            ),
            old(self).run.next >= old(self).run.pending@.len() ==> final(self).run@ == old(self).run@,
    {
        self.agent.tool_finished(&mut self.run, outcome);
    }

    /// Takes in a reply of the model. A reply that asks for tool calls joins
    /// the conversation as it is, its calls are the ones to answer, and there
    /// is no answer yet. Any other reply is the answer: what it says joins
    /// the conversation as the assistant's words. Where the reply says
    /// nothing of tool calls at all, the conversation is then held to its
    /// limit.
    pub fn model_replied(&mut self, content: Option<String>, tool_calls: Option<
        Vec<ToolRequest>,
    >) -> (answer: Option<String>)
        ensures
            final(self).agent == old(self).agent,
            final(self).run.iterations == old(self).run.iterations,
            final(self).run@.tool_calls_made == old(self).run@.tool_calls_made,
            match tool_calls {
                Some(calls) => if calls@.len() > 0 {
                    answer is None && final(self).run@.messages == old(self).run@.messages.push(
                        AgentMessageView::ToolCalls(request_views(calls@)),
                    ) && final(self).run@.pending == request_views(calls@) && final(self).run.next
                        == 0
                } else {
                    (answer matches Some(a) && a@ == said(content)) && final(self).run@.messages
                        == old(self).run@.messages.push(AgentMessageView::Assistant(said(content)))
                        && final(self).run@.pending == old(self).run@.pending && final(self).run.next == old(self).run.next
                },
                None => (answer matches Some(a) && a@ == said(content)) && final(self).run@.messages == held(
                    old(self).run@.messages.push(AgentMessageView::Assistant(said(content))),
                    CHAT_HISTORY_LIMIT as int,
                ) && final(self).run@.pending == old(self).run@.pending && final(self).run.next
                    == old(self).run.next,
            },
    {
        let ghost before = self.run@.messages;
        match tool_calls {
            Some(calls) => {
                if calls.len() > 0 {
                    let copies = copy_requests(&calls);
                    self.run.messages.push(AgentMessage::ToolCalls(copies));
                    self.run.pending = calls;
                    self.run.next = 0;
                    assert(self.run@.messages =~= before.push(
                        AgentMessageView::ToolCalls(request_views(calls@)),
                    ));
                    None
                } else {
                    let text = match content {
                        Some(c) => c,
                        None => String::new(),
                    };
                    self.run.messages.push(AgentMessage::Assistant(text.clone()));
                    assert(self.run@.messages =~= before.push(AgentMessageView::Assistant(text@)));
                    Some(text)
                }
            },
            None => {
                let text = match content {
                    Some(c) => c,
                    None => String::new(),
                };
                self.run.messages.push(AgentMessage::Assistant(text.clone()));
                assert(self.run@.messages =~= before.push(AgentMessageView::Assistant(text@)));
                hold(&mut self.run.messages, CHAT_HISTORY_LIMIT);
                Some(text)
            },
        }
    }
}

/// A conversation that is held to a limit of two messages or more is no
/// longer than the limit, and starts and ends with the messages it started
/// and ended with.
pub proof fn lemma_held(messages: Seq<AgentMessageView>, limit: int)
    requires
        messages.len() >= 1,
        limit >= 2,
    ensures
        messages.len() <= limit ==> held(messages, limit) == messages,
        messages.len() > limit ==> held(messages, limit).len() == limit,
        held(messages, limit).len() >= 1,
        held(messages, limit)[0] == messages[0],
        held(messages, limit).last() == messages.last(),
{
}

} // verus!
