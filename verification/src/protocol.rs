//! What the gateway and an Ante host say to each other, as far as the gateway
//! looks into it.

use crate::text::{text_option, texts};
use vstd::prelude::*;

verus! {

/// One selectable option of a [`QuestionSpec`].
#[derive(Debug, Clone, PartialEq, Eq)]
pub struct QuestionOption {
    pub label: String,
    /// What choosing this option means.
    pub description: String,
    pub preview: Option<String>,
}

/// What a [`QuestionOption`] holds.
pub struct QuestionOptionView {
    pub label: Seq<char>,
    pub description: Seq<char>,
    pub preview: Option<Seq<char>>,
}

impl View for QuestionOption {
    type V = QuestionOptionView;

    open spec fn view(&self) -> QuestionOptionView {
        QuestionOptionView {
            label: self.label@,
            description: self.description@,
            preview: text_option(self.preview),
        }
    }
}

/// One question that the agent asks the user.
#[derive(Debug, Clone, PartialEq, Eq)]
pub struct QuestionSpec {
    /// Short label for this question.
    pub header: String,
    /// The full question text.
    pub question: String,
    /// Whether the user may select more than one option.
    pub multi_select: bool,
    /// The offered choices.
    pub options: Vec<QuestionOption>,
}

/// What a [`QuestionSpec`] holds.
pub struct QuestionSpecView {
    pub header: Seq<char>,
    pub question: Seq<char>,
    pub multi_select: bool,
    pub options: Seq<QuestionOptionView>,
}

impl View for QuestionSpec {
    type V = QuestionSpecView;

    open spec fn view(&self) -> QuestionSpecView {
        QuestionSpecView {
            header: self.header@,
            question: self.question@,
            multi_select: self.multi_select,
            options: self.options@.map_values(|option: QuestionOption| option@),
        }
    }
}

/// The views of questions.
pub open spec fn question_views(questions: Seq<QuestionSpec>) -> Seq<QuestionSpecView> {
    questions.map_values(|question: QuestionSpec| question@)
}

/// The answer to one question.
#[derive(Debug, Clone, PartialEq, Eq)]
pub struct QuestionAnswer {
    /// Selected option labels.
    pub selected: Vec<String>,
    /// Free text the user typed.
    pub note: Option<String>,
}

/// What a [`QuestionAnswer`] holds.
pub struct QuestionAnswerView {
    pub selected: Seq<Seq<char>>,
    pub note: Option<Seq<char>>,
}

impl View for QuestionAnswer {
    type V = QuestionAnswerView;

    open spec fn view(&self) -> QuestionAnswerView {
        QuestionAnswerView { selected: texts(self.selected@), note: text_option(self.note) }
    }
}

/// The views of answers.
pub open spec fn answer_views(answers: Seq<QuestionAnswer>) -> Seq<QuestionAnswerView> {
    answers.map_values(|answer: QuestionAnswer| answer@)
}

/// What the user did with questions.
#[derive(Debug, Clone, PartialEq, Eq)]
pub enum QuestionReply {
    /// One entry per question, in question order.
    Answered(Vec<QuestionAnswer>),
    /// The user wants to talk before choosing, in these words.
    Discuss { message: Option<String> },
}

/// What a [`QuestionReply`] holds.
pub enum QuestionReplyView {
    Answered(Seq<QuestionAnswerView>),
    Discuss { message: Option<Seq<char>> },
}

impl View for QuestionReply {
    type V = QuestionReplyView;

    open spec fn view(&self) -> QuestionReplyView {
        match self {
            QuestionReply::Answered(answers) => QuestionReplyView::Answered(answer_views(answers@)),
            QuestionReply::Discuss { message } => QuestionReplyView::Discuss {
                message: text_option(*message),
            },
        }
    }
}

/// A decision on a requested tool call.
#[derive(Debug, Clone, Copy, PartialEq, Eq, Structural)]
pub enum ReviewDecision {
    Accept,
    Deny,
    AcceptForSession,
}

/// A decision for one requested tool call.
#[derive(Debug, Clone, PartialEq, Eq)]
pub struct ToolDecision {
    pub tool_use_id: String,
    pub decision: ReviewDecision,
    pub message: Option<String>,
}

/// What a [`ToolDecision`] holds.
pub struct ToolDecisionView {
    pub tool_use_id: Seq<char>,
    pub decision: ReviewDecision,
    pub message: Option<Seq<char>>,
}

impl View for ToolDecision {
    type V = ToolDecisionView;

    open spec fn view(&self) -> ToolDecisionView {
        ToolDecisionView {
            tool_use_id: self.tool_use_id@,
            decision: self.decision,
            message: text_option(self.message),
        }
    }
}

/// The views of decisions.
pub open spec fn decision_views(decisions: Seq<ToolDecision>) -> Seq<ToolDecisionView> {
    decisions.map_values(|decision: ToolDecision| decision@)
}

/// What to ask of a host when a session starts. Whatever is not set is left to
/// the host.
#[derive(Debug, Clone, PartialEq, Eq)]
pub struct SessionRequest {
    pub model: Option<String>,
    pub provider: Option<String>,
    pub enable_auto_memory: Option<bool>,
}

/// What the gateway asks a host to do.
#[derive(Debug, Clone, PartialEq, Eq)]
pub enum Op {
    Interrupt,
    UserInput(String),
    ApprovalResponse { turn_id: String, responses: Vec<ToolDecision> },
    QuestionResponse { turn_id: String, tool_use_id: String, reply: QuestionReply },
}

/// What an [`Op`] holds.
pub enum OpView {
    Interrupt,
    UserInput(Seq<char>),
    ApprovalResponse { turn_id: Seq<char>, responses: Seq<ToolDecisionView> },
    QuestionResponse { turn_id: Seq<char>, tool_use_id: Seq<char>, reply: QuestionReplyView },
}

impl View for Op {
    type V = OpView;

    open spec fn view(&self) -> OpView {
        match self {
            Op::Interrupt => OpView::Interrupt,
            Op::UserInput(text) => OpView::UserInput(text@),
            Op::ApprovalResponse { turn_id, responses } => OpView::ApprovalResponse {
                turn_id: turn_id@,
                responses: decision_views(responses@),
            },
            Op::QuestionResponse { turn_id, tool_use_id, reply } => OpView::QuestionResponse {
                turn_id: turn_id@,
                tool_use_id: tool_use_id@,
                reply: reply@,
            },
        }
    }
}

/// A tool call that the agent wants to make.
#[derive(Debug, Clone, PartialEq, Eq)]
pub struct ToolUse {
    pub id: String,
    pub name: String,
}

/// The IDs of tool calls.
pub open spec fn tool_ids(tools: Seq<ToolUse>) -> Seq<Seq<char>> {
    tools.map_values(|tool: ToolUse| tool.id@)
}

/// The names of the tools that are called.
pub open spec fn tool_names(tools: Seq<ToolUse>) -> Seq<Seq<char>> {
    tools.map_values(|tool: ToolUse| tool.name@)
}

/// What a turn waits for.
#[derive(Debug, Clone, PartialEq, Eq)]
pub enum TurnPauseReason {
    Approval { tools: Vec<ToolUse>, message: String },
    Question { tool_use_id: String, questions: Vec<QuestionSpec> },
}

/// What happens on a host.
#[derive(Debug, Clone, PartialEq, Eq)]
pub enum Evt {
    SessionStart,
    SessionEnd,
    AgentMessage(String),
    Thinking(String),
    MessageDelta(String),
    ThinkingDelta(String),
    Info(String),
    Error(String),
    ToolStart(ToolUse),
    ToolUpdate { tool_use_id: String, seq: u64, message: String },
    ToolEnd { tool_use_id: String, tool_name: String, status: String },
    TurnPause { turn_id: String, reason: TurnPauseReason },
    TurnResume,
    TurnEnd,
    Goodbye,
    /// Anything else.
    Other,
}

/// Questions are seen whole: each with its header, its text, whether several
/// options may be selected, and every option in order with all that it holds.
pub proof fn questions_are_seen_whole(questions: Seq<QuestionSpec>, i: int, k: int)
    requires
        0 <= i < questions.len(),
    ensures
        question_views(questions).len() == questions.len(),
        question_views(questions)[i].header == questions[i].header@,
        question_views(questions)[i].question == questions[i].question@,
        question_views(questions)[i].multi_select == questions[i].multi_select,
        question_views(questions)[i].options.len() == questions[i].options@.len(),
        0 <= k < questions[i].options@.len() ==> {
            let option = questions[i].options@[k];
            let seen = question_views(questions)[i].options[k];
            &&& seen.label == option.label@
            &&& seen.description == option.description@
            &&& seen.preview == text_option(option.preview)
        },
{
}

/// Tool calls are seen in order, each by its own ID and name.
pub proof fn tools_are_seen_whole(tools: Seq<ToolUse>, i: int)
    requires
        0 <= i < tools.len(),
    ensures
        tool_ids(tools).len() == tools.len(),
        tool_names(tools).len() == tools.len(),
        tool_ids(tools)[i] == tools[i].id@,
        tool_names(tools)[i] == tools[i].name@,
{
}

/// Decisions are seen in order, each whole.
pub proof fn decisions_are_seen_whole(decisions: Seq<ToolDecision>, i: int)
    requires
        0 <= i < decisions.len(),
    ensures
        decision_views(decisions).len() == decisions.len(),
        decision_views(decisions)[i].tool_use_id == decisions[i].tool_use_id@,
        decision_views(decisions)[i].decision == decisions[i].decision,
        decision_views(decisions)[i].message == text_option(decisions[i].message),
{
}

/// Answers are seen in order, each with its selection and its note.
pub proof fn answers_are_seen_whole(answers: Seq<QuestionAnswer>, i: int, k: int)
    requires
        0 <= i < answers.len(),
    ensures
        answer_views(answers).len() == answers.len(),
        answer_views(answers)[i].selected.len() == answers[i].selected@.len(),
        0 <= k < answers[i].selected@.len() ==> answer_views(answers)[i].selected[k]
            == answers[i].selected@[k]@,
        answer_views(answers)[i].note == text_option(answers[i].note),
{
}

}
