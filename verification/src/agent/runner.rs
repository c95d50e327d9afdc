//! The loop of the assistant, as steps: what to do next, and what a reply of
//! the model or the result of a tool changes. Whoever drives the loop asks the
//! model and runs the tools; every decision is taken here.

use crate::agent::tools::{parse_tool_call, tool_call_of, ToolCall};
use crate::decimal::{decimal, push_decimal};
use crate::error::LyttError;
use crate::json::json_of_text;
use crate::text::{append_str, from_chars, to_chars};
use vstd::prelude::*;

verus! {

/// What an assistant tells the model of its task where nothing else is said.
pub const DEFAULT_SYSTEM_PROMPT: &'static str = "You are an intelligent assistant with access to a video knowledge base.\n\nYou have tools to search videos, get full transcripts, and retrieve specific segments.\nThink step-by-step about what information you need, then use the appropriate tools.\n\nGuidelines:\n- Use 'list_videos' first if you need to know what content is available\n- Use 'search' to find specific topics across all videos\n- Use 'get_transcript' to get a full video transcript for summaries, quizzes, or deep analysis\n- Use 'get_segment' to get content from a specific time range\n- Use 'get_video_info' to get metadata about a video\n\nWhen you have gathered enough information, provide your final response.\nAlways cite your sources with video titles and timestamps when relevant.\nFormat your responses clearly with appropriate structure (headers, lists, etc.).";

/// The most rounds of an assistant that was given no other bound.
pub const DEFAULT_MAX_ITERATIONS: usize = 15;

/// A tool call as the model asked for it.
#[derive(Debug, Clone)]
pub struct ToolRequest {
    pub id: String,
    pub name: String,
    pub arguments: String,
}

/// A tool call that was answered: what was asked, and the answer.
#[derive(Debug, Clone)]
pub struct ToolCallRecord {
    pub name: String,
    pub arguments: String,
    pub result: String,
}

/// What the assistant returns when the model has answered.
#[derive(Debug)]
pub struct AgentResponse {
    pub content: String,
    pub tool_calls: Vec<ToolCallRecord>,
    pub iterations: usize,
}

/// One message of the conversation with the model.
#[derive(Debug, Clone)]
pub enum AgentMessage {
    System(String),
    User(String),
    /// What the assistant said.
    Assistant(String),
    /// The assistant's request for tool calls, as the model sent it.
    ToolCalls(Vec<ToolRequest>),
    /// The answer to the tool call with the given identifier.
    ToolResult { tool_call_id: String, content: String },
}

pub struct ToolRequestView {
    pub id: Seq<char>,
    pub name: Seq<char>,
    pub arguments: Seq<char>,
}

pub struct ToolCallRecordView {
    pub name: Seq<char>,
    pub arguments: Seq<char>,
    pub result: Seq<char>,
}

pub enum AgentMessageView {
    System(Seq<char>),
    User(Seq<char>),
    Assistant(Seq<char>),
    ToolCalls(Seq<ToolRequestView>),
    ToolResult { tool_call_id: Seq<char>, content: Seq<char> },
}

impl View for ToolRequest {
    type V = ToolRequestView;

    open spec fn view(&self) -> ToolRequestView {
        ToolRequestView { id: self.id@, name: self.name@, arguments: self.arguments@ }
    }
}

impl View for ToolCallRecord {
    type V = ToolCallRecordView;

    open spec fn view(&self) -> ToolCallRecordView {
        ToolCallRecordView { name: self.name@, arguments: self.arguments@, result: self.result@ }
    }
}

/// The views of requests, in order.
pub open spec fn request_views(requests: Seq<ToolRequest>) -> Seq<ToolRequestView> {
    Seq::new(requests.len(), |i: int| requests[i]@)
}

/// The views of records, in order.
pub open spec fn record_views(records: Seq<ToolCallRecord>) -> Seq<ToolCallRecordView> {
    Seq::new(records.len(), |i: int| records[i]@)
}

impl View for AgentMessage {
    type V = AgentMessageView;

    open spec fn view(&self) -> AgentMessageView {
        match self {
            AgentMessage::System(s) => AgentMessageView::System(s@),
            AgentMessage::User(s) => AgentMessageView::User(s@),
            AgentMessage::Assistant(s) => AgentMessageView::Assistant(s@),
            AgentMessage::ToolCalls(calls) => AgentMessageView::ToolCalls(request_views(calls@)),
            AgentMessage::ToolResult { tool_call_id, content } => AgentMessageView::ToolResult {
                tool_call_id: tool_call_id@,
                content: content@,
            },
        }
    }
}

/// The views of messages, in order.
pub open spec fn message_views(messages: Seq<AgentMessage>) -> Seq<AgentMessageView> {
    Seq::new(messages.len(), |i: int| messages[i]@)
}

/// An assistant: the model it asks, how many rounds it may take, and what it
/// tells the model of its task.
#[derive(Debug, Clone)]
pub struct Agent {
    pub model: String,
    pub max_iterations: usize,
    pub system_prompt: String,
}

/// A task under way: the conversation so far, the rounds taken, the tool calls
/// answered, and the tool calls of the last reply, of which those before
/// `next` are answered.
#[derive(Debug)]
pub struct AgentRun {
    pub messages: Vec<AgentMessage>,
    pub iterations: usize,
    pub tool_calls_made: Vec<ToolCallRecord>,
    pub pending: Vec<ToolRequest>,
    pub next: usize,
}

pub struct AgentRunView {
    pub messages: Seq<AgentMessageView>,
    pub iterations: usize,
    pub tool_calls_made: Seq<ToolCallRecordView>,
    pub pending: Seq<ToolRequestView>,
    pub next: usize,
}

impl View for AgentRun {
    type V = AgentRunView;

    open spec fn view(&self) -> AgentRunView {
        AgentRunView {
            messages: message_views(self.messages@),
            iterations: self.iterations,
            tool_calls_made: record_views(self.tool_calls_made@),
            pending: request_views(self.pending@),
            next: self.next,
        }
    }
}

/// What is to be done next.
#[derive(Debug)]
pub enum AgentStep {
    /// Ask the model, with the messages of the run and the tools on offer.
    CallModel,
    /// Run this tool and report what it answered.
    RunTool(ToolCall),
    /// Nothing to do outside: ask for the next step.
    Continue,
    /// The task has failed.
    Failed(LyttError),
}

/// Where a reply of the model leaves the task.
#[derive(Debug)]
pub enum AgentTurn {
    /// The model asked for tools: the run goes on.
    Continue(AgentRun),
    /// The model has answered.
    Done(AgentResponse),
}

/// The message that sets the task, with the context in front where one is given.
pub open spec fn task_message(task: Seq<char>, context: Option<Seq<char>>) -> Seq<char> {
    match context {
        Some(c) => "Context: "@ + c + "\n\nTask: "@ + task,
        None => task,
    }
}

/// The run with the request at `next` answered by `result`: one record and one
/// message more, and `next` moved on.
pub open spec fn answered(run: AgentRunView, result: Seq<char>) -> AgentRunView {
    let request = run.pending[run.next as int];
    AgentRunView {
        messages: run.messages.push(
            AgentMessageView::ToolResult { tool_call_id: request.id, content: result },
        ),
        iterations: run.iterations,
        tool_calls_made: run.tool_calls_made.push(
            ToolCallRecordView { name: request.name, arguments: request.arguments, result },
        ),
        pending: run.pending,
        next: (run.next + 1) as usize,
    }
}

/// What a tool's outcome becomes as the text that the model is given: the
/// output, or the error's message behind `Tool error: `.
pub open spec fn outcome_text(outcome: Result<String, LyttError>) -> Seq<char> {
    match outcome {
        Ok(output) => output@,
        Err(e) => "Tool error: "@ + e.message(),
    }
}

/// What is said when the rounds are used up.
pub open spec fn exceeded_message(max_iterations: usize) -> Seq<char> {
    "Agent exceeded maximum iterations ("@ + decimal(max_iterations as nat) + ")"@
}

/// What the model is told of a request that could not be read: as of a tool
/// that failed, the error's message behind `Tool error: `.
pub open spec fn unread_request(detail: Seq<char>) -> Seq<char> {
    "Tool error: "@ + "Agent error: "@ + detail
}

fn copy_request(r: &ToolRequest) -> (out: ToolRequest)
    ensures
        out@ == r@,
{
    ToolRequest { id: r.id.clone(), name: r.name.clone(), arguments: r.arguments.clone() }
}

pub(crate) fn copy_requests(calls: &Vec<ToolRequest>) -> (copies: Vec<ToolRequest>)
    ensures
        request_views(copies@) == request_views(calls@),
{
    let mut copies: Vec<ToolRequest> = Vec::new();
    let mut i: usize = 0;
    while i < calls.len()
        invariant
            i <= calls.len(),
            request_views(copies@) == request_views(calls@).take(i as int),
        decreases calls.len() - i,
    {
        let ghost before = copies@;
        let c = copy_request(&calls[i]);
        copies.push(c);
        assert(request_views(copies@) =~= request_views(before).push(c@));
        assert(request_views(calls@).take(i + 1) =~= request_views(calls@).take(i as int).push(
            calls@[i as int]@,
        ));
        i = i + 1;
    }
    assert(request_views(calls@).take(calls.len() as int) == request_views(calls@));
    copies
}

pub(crate) fn copy_message(m: &AgentMessage) -> (out: AgentMessage)
    ensures
        out@ == m@,
{
    match m {
        AgentMessage::System(s) => AgentMessage::System(s.clone()),
        AgentMessage::User(s) => AgentMessage::User(s.clone()),
        AgentMessage::Assistant(s) => AgentMessage::Assistant(s.clone()),
        AgentMessage::ToolCalls(calls) => AgentMessage::ToolCalls(copy_requests(calls)),
        AgentMessage::ToolResult { tool_call_id, content } => AgentMessage::ToolResult {
            tool_call_id: tool_call_id.clone(),
            content: content.clone(),
        },
    }
}

impl ToolCallRecord {
    /// The call as it is shown: the name, then the arguments in brackets.
    pub fn to_string(&self) -> (out: String)
        ensures
            out@ == self.name@ + "("@ + self.arguments@ + ")"@,
    {
        let mut buf: Vec<char> = Vec::new();
        append_str(&mut buf, self.name.as_str());
        append_str(&mut buf, "(");
        append_str(&mut buf, self.arguments.as_str());
        append_str(&mut buf, ")");
        assert(buf@ == self.name@ + "("@ + self.arguments@ + ")"@);
        from_chars(&buf)
    }
}

impl Agent {
    /// An assistant on the given model, with the default system prompt and the
    /// default bound on its rounds.
    pub fn new(model: &str) -> (a: Agent)
        ensures
            a.model@ == model@,
            a.system_prompt@ == DEFAULT_SYSTEM_PROMPT@,
            a.max_iterations == DEFAULT_MAX_ITERATIONS,
    {
        Agent {
            model: from_chars(&to_chars(model)),
            max_iterations: DEFAULT_MAX_ITERATIONS,
            system_prompt: from_chars(&to_chars(DEFAULT_SYSTEM_PROMPT)),
        }
    }

    /// The same assistant with another system prompt.
    pub fn with_system_prompt(self, prompt: &str) -> (a: Agent)
        ensures
            a.model == self.model,
            a.max_iterations == self.max_iterations,
            a.system_prompt@ == prompt@,
    {
        Agent {
            model: self.model,
            max_iterations: self.max_iterations,
            system_prompt: from_chars(&to_chars(prompt)),
        }
    }

    /// The same assistant with another bound on its rounds.
    pub fn with_max_iterations(self, max: usize) -> (a: Agent)
        ensures
            a.model == self.model,
            a.max_iterations == max,
            a.system_prompt == self.system_prompt,
    {
        Agent { model: self.model, max_iterations: max, system_prompt: self.system_prompt }
    }

    /// Starts a task: the conversation holds the system prompt and the task,
    /// and nothing has happened yet.
    pub fn begin(&self, task: &str, context: Option<&str>) -> (run: AgentRun)
        ensures
            run@.messages == seq![
                AgentMessageView::System(self.system_prompt@),
                AgentMessageView::User(
                    task_message(
                        task@,
                        match context {
                            Some(c) => Some(c@),
                            None => None,
                        },
                    ),
                ),
            ],
            run@.iterations == 0,
            run@.tool_calls_made.len() == 0,
            run@.pending.len() == 0,
            run@.next == 0,
    {
        let mut user: Vec<char> = Vec::new();
        match context {
            Some(c) => {
                append_str(&mut user, "Context: ");
                append_str(&mut user, c);
                append_str(&mut user, "\n\nTask: ");
                append_str(&mut user, task);
            },
            None => {
                append_str(&mut user, task);
            },
        }
        let mut messages: Vec<AgentMessage> = Vec::new();
        messages.push(AgentMessage::System(self.system_prompt.clone()));
        messages.push(AgentMessage::User(from_chars(&user)));
        let run = AgentRun {
            messages,
            iterations: 0,
            tool_calls_made: Vec::new(),
            pending: Vec::new(),
            next: 0,
        };
        assert(run@.messages =~= seq![
            AgentMessageView::System(self.system_prompt@),
            AgentMessageView::User(
                task_message(
                    task@,
                    match context {
                        Some(c) => Some(c@),
                        None => None,
                    },
                ),
            ),
        ]);
        run
    }

    /// Decides what comes next.
    ///
    /// While a tool call of the last reply is unanswered, the next of them is
    /// read: one that can be read is to be run; one that cannot is answered
    /// with what is wrong with it. With none unanswered, a round begins and the
    /// model is to be asked, unless the rounds are used up: then the task has
    /// failed.
    pub fn advance(&self, run: &mut AgentRun) -> (step: AgentStep)
        ensures
            old(run).next < old(run).pending@.len() ==> {
                let request = old(run)@.pending[old(run).next as int];
                match json_of_text(request.arguments) {
                    Some(args) => match tool_call_of(request.name, args) {
                        Ok(call) => step matches AgentStep::RunTool(t) && t@ == call && final(run)@
                            == old(run)@,
                        Err(detail) => step is Continue && final(run)@ == answered(
                            old(run)@,
                            unread_request(detail),
                        ),
                    },
                    None => step is Continue && exists|detail: Seq<char>|
                        "Invalid tool arguments: "@.is_prefix_of(detail) && #[trigger] answered(
                            old(run)@,
                            unread_request(detail),
                        ) == final(run)@,
                }
            },
            old(run).next >= old(run).pending@.len() && old(run).iterations < self.max_iterations
                ==> step is CallModel && final(run)@ == (AgentRunView {
                iterations: (old(run).iterations + 1) as usize,
                ..old(run)@
            }),
            old(run).next >= old(run).pending@.len() && old(run).iterations >= self.max_iterations
                ==> (step matches AgentStep::Failed(LyttError::Agent(m)) && m@ == exceeded_message(
                self.max_iterations,
            )) && final(run)@ == old(run)@,
            step is CallModel ==> final(run).iterations <= self.max_iterations,
    {
        if run.next < run.pending.len() {
            let request = copy_request(&run.pending[run.next]);
            assert(request@ == run@.pending[run.next as int]);
            match parse_tool_call(request.name.as_str(), request.arguments.as_str()) {
                Ok(tool) => AgentStep::RunTool(tool),
                Err(e) => {
                    let mut text: Vec<char> = Vec::new();
                    append_str(&mut text, "Tool error: ");
                    append_str(&mut text, e.to_string().as_str());
                    let result = from_chars(&text);
                    assert(e is Agent);
                    assert(e.message() == "Agent error: "@ + e.detail() + Seq::<char>::empty());
                    assert("Agent error: "@ + e.detail() + Seq::<char>::empty() == "Agent error: "@
                        + e.detail());
                    assert(result@ == unread_request(e.detail()));
                    proof {
                        if json_of_text(request@.arguments) is None {
                            assert("Invalid tool arguments: "@.is_prefix_of(e.detail()));
                        }
                    }
                    Self::record(run, request, result);
                    AgentStep::Continue
                },
            }
        } else if run.iterations >= self.max_iterations {
            let mut m: Vec<char> = Vec::new();
            append_str(&mut m, "Agent exceeded maximum iterations (");
            push_decimal(&mut m, self.max_iterations as u64);
            append_str(&mut m, ")");
            AgentStep::Failed(LyttError::Agent(from_chars(&m)))
        } else {
            run.iterations = run.iterations + 1;
            AgentStep::CallModel
        }
    }

    fn record(run: &mut AgentRun, request: ToolRequest, result: String)
        requires
            old(run).next < old(run).pending@.len(),
            request@ == old(run)@.pending[old(run).next as int],
        ensures
            final(run)@ == answered(old(run)@, result@),
    {
        let count = run.pending.len();
        let content = result.clone();
        run.messages.push(AgentMessage::ToolResult { tool_call_id: request.id, content });
        run.tool_calls_made.push(
            ToolCallRecord { name: request.name, arguments: request.arguments, result },
        );
        run.next = run.next + 1;
        assert(run@.messages =~= answered(old(run)@, result@).messages);
        assert(run@.tool_calls_made =~= answered(old(run)@, result@).tool_calls_made);
    }

    /// Takes in what a tool answered. The answer goes to the model as the
    /// tool's result: the output, or `Tool error: ` and the error's message. It
    /// is recorded, and the next request is the next to be read. With no
    /// request unanswered, nothing changes.
    pub fn tool_finished(&self, run: &mut AgentRun, outcome: Result<String, LyttError>)
        ensures
            old(run).next < old(run).pending@.len() ==> final(run)@ == answered(
                old(run)@,
                outcome_text(outcome),
            ),
            old(run).next >= old(run).pending@.len() ==> final(run)@ == old(run)@,
    {
        if run.next < run.pending.len() {
            let request = copy_request(&run.pending[run.next]);
            let result = match outcome {
                Ok(output) => output,
                Err(e) => {
                    let mut text: Vec<char> = Vec::new();
                    append_str(&mut text, "Tool error: ");
                    append_str(&mut text, e.to_string().as_str());
                    from_chars(&text)
                },
            };
            Self::record(run, request, result);
        }
    }

    /// Takes in a reply of the model. A reply that asks for tool calls is added to
    /// the conversation as it is, and its calls are the ones to answer; any
    /// other reply ends the task with the content of the reply, the calls
    /// answered so far and the rounds taken.
    pub fn model_replied(
        &self,
        run: AgentRun,
        content: Option<String>,
        tool_calls: Option<Vec<ToolRequest>>,
    ) -> (turn: AgentTurn)
        ensures
            (tool_calls matches Some(calls) && calls@.len() > 0) ==> (turn matches AgentTurn::Continue(
                next,
            ) && next@ == (AgentRunView {
                messages: run@.messages.push(
                    AgentMessageView::ToolCalls(request_views(tool_calls->0@)),
                ),
                pending: request_views(tool_calls->0@),
                next: 0,
                ..run@
            })),
            !(tool_calls matches Some(calls) && calls@.len() > 0) ==> (turn matches AgentTurn::Done(
                response,
            ) && response.content@ == (match content {
                Some(c) => c@,
                None => Seq::<char>::empty(),
            }) && response.tool_calls == run.tool_calls_made && response.iterations
                == run.iterations),
    {
        match tool_calls {
            Some(calls) => {
                if calls.len() > 0 {
                    let copies = copy_requests(&calls);
                    let mut next = run;
                    next.messages.push(AgentMessage::ToolCalls(copies));
                    next.pending = calls;
                    next.next = 0;
                    assert(next@.messages =~= run@.messages.push(
                        AgentMessageView::ToolCalls(request_views(calls@)),
                    ));
                    AgentTurn::Continue(next)
                } else {
                    AgentTurn::Done(Self::build_response(content, run.tool_calls_made, run.iterations))
                }
            },
            None => AgentTurn::Done(
                Self::build_response(content, run.tool_calls_made, run.iterations),
            ),
        }
    }

    /// The response that ends a task: the content of the last reply, or
    /// nothing where it had none.
    pub fn build_response(
        content: Option<String>,
        tool_calls: Vec<ToolCallRecord>,
        iterations: usize,
    ) -> (response: AgentResponse)
        ensures
            response.content@ == (match content {
                Some(c) => c@,
                None => Seq::<char>::empty(),
            }),
            response.tool_calls == tool_calls,
            response.iterations == iterations,
    {
        let content = match content {
            Some(c) => c,
            None => String::new(),
        };
        AgentResponse { content, tool_calls, iterations }
    }

    /// The error of a call to the model that failed.
    pub fn model_failed(reason: &str) -> (e: LyttError)
        ensures
            e matches LyttError::OpenAI(m) && m@ == "Agent API error: "@ + reason@,
    {
        let mut m: Vec<char> = Vec::new();
        append_str(&mut m, "Agent API error: ");
        append_str(&mut m, reason);
        LyttError::OpenAI(from_chars(&m))
    }

    /// The error of a reply that holds no choice.
    pub fn no_response() -> (e: LyttError)
        ensures
            e matches LyttError::Agent(m) && m@ == "No response from model"@,
    {
        LyttError::Agent(from_chars(&to_chars("No response from model")))
    }
}

} // verus!
