//! Conversations: which session a message belongs to, what it means there, and
//! what a session's events mean to the conversation.

use crate::channels::config::ChannelsConfig;
use crate::channels::{Inbound, InboundMessage};
use crate::protocol::{
    decision_views, question_views, tool_ids, tool_names, Evt, Op, OpView, QuestionSpec,
    QuestionSpecView, ReviewDecision, SessionRequest, ToolDecision, ToolDecisionView, ToolUse,
    TurnPauseReason,
};
use crate::question::{prompt, question_prompt, question_reply, reply_to};
use crate::text::{
    ascii_lower, join, joined, lowercase, same_text, text_option, texts, trim, trimmed,
};
use vstd::prelude::*;
use vstd::string::*;

verus! {

/// Key that uniquely identifies a conversation — one connection per key.
#[derive(Debug, Clone, PartialEq, Eq, Hash)]
pub struct ConversationKey {
    pub platform: &'static str,
    pub channel_id: String,
    pub thread_id: Option<String>,
}

/// What a [`ConversationKey`] holds.
pub struct KeyView {
    pub platform: Seq<char>,
    pub channel_id: Seq<char>,
    pub thread_id: Option<Seq<char>>,
}

impl View for ConversationKey {
    type V = KeyView;

    open spec fn view(&self) -> KeyView {
        KeyView {
            platform: self.platform@,
            channel_id: self.channel_id@,
            thread_id: text_option(self.thread_id),
        }
    }
}

/// The conversation that a message belongs to.
pub open spec fn key_of(message: Inbound) -> KeyView {
    KeyView {
        platform: message.platform,
        channel_id: message.channel_id,
        thread_id: message.thread_id,
    }
}

impl KeyView {
    /// How the key is written.
    pub open spec fn label(self) -> Seq<char> {
        let channel = self.platform + "/"@ + self.channel_id;
        match self.thread_id {
            Some(thread) => channel + "/"@ + thread,
            None => channel,
        }
    }
}

impl ConversationKey {
    /// The conversation that a message belongs to.
    pub fn from_msg(msg: &InboundMessage) -> (r: Self)
        ensures
            r@ == key_of(msg@),
    {
        ConversationKey {
            platform: msg.platform,
            channel_id: msg.channel_id.clone(),
            thread_id: match &msg.thread_id {
                Some(thread) => Some(thread.clone()),
                None => None,
            },
        }
    }

    /// How the key is written: `platform/channel`, and `/thread` in a thread.
    pub fn label(&self) -> (r: String)
        ensures
            r@ == self@.label(),
    {
        let mut out = self.platform.to_owned();
        out.append("/");
        out.append(self.channel_id.as_str());
        if let Some(thread) = &self.thread_id {
            out.append("/");
            out.append(thread.as_str());
        }
        out
    }

    /// Whether two keys are those of one conversation.
    fn same(&self, other: &ConversationKey) -> (r: bool)
        ensures
            r == (self@ == other@),
    {
        if !same_text(self.platform, other.platform) || !same_text(
            self.channel_id.as_str(),
            other.channel_id.as_str(),
        ) {
            return false;
        }
        match (&self.thread_id, &other.thread_id) {
            (Some(a), Some(b)) => same_text(a.as_str(), b.as_str()),
            (None, None) => true,
            _ => false,
        }
    }
}

/// The tool calls that await the user's approval.
#[derive(Debug)]
pub struct PendingApproval {
    pub turn_id: String,
    pub tool_ids: Vec<String>,
}

/// The questions that await the user's reply.
#[derive(Debug)]
pub struct PendingQuestion {
    pub turn_id: String,
    pub tool_use_id: String,
    pub questions: Vec<QuestionSpec>,
}

/// What a [`PendingApproval`] holds.
pub struct PendingApprovalView {
    pub turn_id: Seq<char>,
    pub tool_ids: Seq<Seq<char>>,
}

/// What a [`PendingQuestion`] holds.
pub struct PendingQuestionView {
    pub turn_id: Seq<char>,
    pub tool_use_id: Seq<char>,
    pub questions: Seq<QuestionSpecView>,
}

/// What a conversation's turn is waiting on, if anything.
pub struct Waiting {
    pub approval: Option<PendingApprovalView>,
    pub question: Option<PendingQuestionView>,
}

/// A conversation whose turn is waiting on nothing.
pub open spec fn idle() -> Waiting {
    Waiting { approval: None, question: None }
}

/// Per-conversation state: what its turn is waiting on, if anything.
#[derive(Debug)]
struct Session {
    key: ConversationKey,
    approval: Option<PendingApproval>,
    question: Option<PendingQuestion>,
}

impl Session {
    spec fn waiting(self) -> Waiting {
        Waiting {
            approval: match self.approval {
                Some(pending) => Some(
                    PendingApprovalView {
                        turn_id: pending.turn_id@,
                        tool_ids: texts(pending.tool_ids@),
                    },
                ),
                None => None,
            },
            question: match self.question {
                Some(pending) => Some(
                    PendingQuestionView {
                        turn_id: pending.turn_id@,
                        tool_use_id: pending.tool_use_id@,
                        questions: question_views(pending.questions@),
                    },
                ),
                None => None,
            },
        }
    }
}

/// What each conversation with a session is waiting on.
pub type Sessions = Map<KeyView, Waiting>;

/// The sessions of a list.
spec fn sessions_of(list: Seq<Session>) -> Sessions
    decreases list.len(),
{
    if list.len() == 0 {
        Map::empty()
    } else {
        sessions_of(list.drop_last()).insert(list.last().key@, list.last().waiting())
    }
}

/// Whether no two sessions of a list belong to one conversation.
spec fn distinct(list: Seq<Session>) -> bool {
    forall|i: int, j: int|
        0 <= i < j < list.len() ==> (#[trigger] list[i]).key@ != (#[trigger] list[j]).key@
}

proof fn sessions_hold(list: Seq<Session>, i: int)
    requires
        distinct(list),
        0 <= i < list.len(),
    ensures
        sessions_of(list).contains_key(list[i].key@),
        sessions_of(list)[list[i].key@] == list[i].waiting(),
    decreases list.len(),
{
    let front = list.drop_last();
    if i < front.len() {
        assert(front[i] == list[i]);
        assert(list[i].key@ != list[list.len() - 1].key@);
        sessions_hold(front, i);
    }
}

proof fn sessions_miss(list: Seq<Session>, key: KeyView)
    requires
        forall|i: int| 0 <= i < list.len() ==> (#[trigger] list[i]).key@ != key,
    ensures
        !sessions_of(list).contains_key(key),
    decreases list.len(),
{
    if list.len() > 0 {
        let front = list.drop_last();
        assert forall|i: int| 0 <= i < front.len() implies (#[trigger] front[i]).key@ != key by {
            assert(front[i] == list[i]);
        }
        sessions_miss(front, key);
        assert(list[list.len() - 1].key@ != key);
    }
}

proof fn sessions_remove(list: Seq<Session>, i: int)
    requires
        distinct(list),
        0 <= i < list.len(),
    ensures
        distinct(list.remove(i)),
        sessions_of(list.remove(i)) == sessions_of(list).remove(list[i].key@),
    decreases list.len(),
{
    let front = list.drop_last();
    let last = list[list.len() - 1];
    let rest = list.remove(i);
    assert forall|a: int, b: int| 0 <= a < b < rest.len() implies (#[trigger] rest[a]).key@ != (
    #[trigger] rest[b]).key@ by {
        let x = if a < i {
            a
        } else {
            a + 1
        };
        let y = if b < i {
            b
        } else {
            b + 1
        };
        assert(rest[a] == list[x] && rest[b] == list[y]);
    }
    if i == list.len() - 1 {
        assert(rest =~= front);
        assert forall|k: int| 0 <= k < front.len() implies (#[trigger] front[k]).key@
            != last.key@ by {
            assert(front[k] == list[k]);
        }
        sessions_miss(front, last.key@);
        assert(sessions_of(list).remove(last.key@) =~= sessions_of(front));
    } else {
        assert(rest.drop_last() =~= front.remove(i));
        assert(rest.last() == last);
        assert(list[i].key@ != last.key@);
        assert(front[i] == list[i]);
        sessions_remove(front, i);
        assert(sessions_of(rest) =~= sessions_of(list).remove(list[i].key@));
    }
}

/// Where the session of a conversation stands in a list.
fn position(list: &Vec<Session>, key: &ConversationKey) -> (r: Option<usize>)
    requires
        distinct(list@),
    ensures
        match r {
            Some(i) => {
                &&& i < list@.len()
                &&& list@[i as int].key@ == key@
                &&& sessions_of(list@).contains_key(key@)
                &&& sessions_of(list@)[key@] == list@[i as int].waiting()
            },
            None => !sessions_of(list@).contains_key(key@),
        },
{
    let mut i: usize = 0;
    while i < list.len()
        invariant
            i <= list@.len(),
            distinct(list@),
            forall|k: int| 0 <= k < i ==> (#[trigger] list@[k]).key@ != key@,
        decreases list@.len() - i,
    {
        if list[i].key.same(key) {
            proof {
                sessions_hold(list@, i as int);
            }
            return Some(i);
        }
        i = i + 1;
    }
    proof {
        sessions_miss(list@, key@);
    }
    None
}

/// Takes the session of a conversation out of a list.
fn take_session(list: &mut Vec<Session>, key: &ConversationKey) -> (r: Option<Session>)
    requires
        distinct(old(list)@),
    ensures
        distinct(final(list)@),
        sessions_of(final(list)@) == sessions_of(old(list)@).remove(key@),
        !sessions_of(final(list)@).contains_key(key@),
        match r {
            Some(session) => {
                &&& session.key@ == key@
                &&& sessions_of(old(list)@).contains_key(key@)
                &&& sessions_of(old(list)@)[key@] == session.waiting()
            },
            None => !sessions_of(old(list)@).contains_key(key@) && *final(list) == *old(list),
        },
{
    match position(list, key) {
        Some(i) => {
            proof {
                sessions_remove(list@, i as int);
            }
            Some(list.remove(i))
        },
        None => {
            assert(sessions_of(list@) =~= sessions_of(list@).remove(key@));
            None
        },
    }
}

/// Adds a session to a list without one for its conversation.
fn put_session(list: &mut Vec<Session>, session: Session)
    requires
        distinct(old(list)@),
        !sessions_of(old(list)@).contains_key(session.key@),
    ensures
        distinct(final(list)@),
        sessions_of(final(list)@) == sessions_of(old(list)@).insert(
            session.key@,
            session.waiting(),
        ),
{
    let ghost before = list@;
    list.push(session);
    proof {
        assert(list@.drop_last() =~= before);
        assert forall|i: int, j: int| 0 <= i < j < list@.len() implies (#[trigger] list@[i]).key@
            != (#[trigger] list@[j]).key@ by {
            sessions_hold(before, i);
            if j < before.len() {
                assert(before[i].key@ != before[j].key@);
            }
        }
    }
}

/// Something to do for one conversation.
#[derive(Debug)]
pub enum Action {
    /// Send to the host, over the conversation's connection.
    Send(Op),
    /// Send to the conversation's channel.
    Reply(String),
    /// Open a connection and start a session for the conversation. Then report
    /// how that went, with the input that waits for the session.
    Open { input: String },
    /// Let go of the conversation's connection.
    Close,
}

/// What an [`Action`] holds.
pub enum ActionView {
    Send(OpView),
    Reply(Seq<char>),
    Open { input: Seq<char> },
    Close,
}

impl View for Action {
    type V = ActionView;

    open spec fn view(&self) -> ActionView {
        match self {
            Action::Send(op) => ActionView::Send(op@),
            Action::Reply(text) => ActionView::Reply(text@),
            Action::Open { input } => ActionView::Open { input: input@ },
            Action::Close => ActionView::Close,
        }
    }
}

/// The views of actions.
pub open spec fn action_views(actions: Seq<Action>) -> Seq<ActionView> {
    actions.map_values(|action: Action| action@)
}

/// No action.
fn nothing() -> (r: Vec<Action>)
    ensures
        action_views(r@) == Seq::<ActionView>::empty(),
{
    let r: Vec<Action> = Vec::new();
    assert(action_views(r@) =~= Seq::<ActionView>::empty());
    r
}

/// One action.
fn just(action: Action) -> (r: Vec<Action>)
    ensures
        action_views(r@) == seq![action@],
{
    let r = vec![action];
    assert(action_views(r@) =~= seq![action@]);
    r
}

/// Two actions, in this order.
fn both(first: Action, second: Action) -> (r: Vec<Action>)
    ensures
        action_views(r@) == seq![first@, second@],
{
    let r = vec![first, second];
    assert(action_views(r@) =~= seq![first@, second@]);
    r
}

/// The decision that a reply to a request for approval makes, if it makes one.
pub open spec fn decision_in(reply: Seq<char>) -> Option<ReviewDecision> {
    if reply == "yes"@ || reply == "y"@ {
        Some(ReviewDecision::Accept)
    } else if reply == "no"@ || reply == "n"@ {
        Some(ReviewDecision::Deny)
    } else if reply == "always"@ {
        Some(ReviewDecision::AcceptForSession)
    } else {
        None
    }
}

/// The decision that a reply to a request for approval makes, if it makes one.
pub fn review_decision(reply: &str) -> (r: Option<ReviewDecision>)
    ensures
        r == decision_in(reply@),
{
    if same_text(reply, "yes") || same_text(reply, "y") {
        Some(ReviewDecision::Accept)
    } else if same_text(reply, "no") || same_text(reply, "n") {
        Some(ReviewDecision::Deny)
    } else if same_text(reply, "always") {
        Some(ReviewDecision::AcceptForSession)
    } else {
        None
    }
}

/// One decision for all of the tool calls.
pub open spec fn decide_all(
    tool_ids: Seq<Seq<char>>,
    decision: ReviewDecision,
) -> Seq<ToolDecisionView> {
    tool_ids.map_values(
        |id: Seq<char>| ToolDecisionView { tool_use_id: id, decision, message: None },
    )
}

/// One decision for all of the tool calls.
fn tool_decisions(tool_ids: &Vec<String>, decision: ReviewDecision) -> (r: Vec<ToolDecision>)
    ensures
        decision_views(r@) == decide_all(texts(tool_ids@), decision),
{
    let mut responses: Vec<ToolDecision> = Vec::new();
    let mut i: usize = 0;
    while i < tool_ids.len()
        invariant
            i <= tool_ids@.len(),
            responses@.len() == i,
            forall|k: int|
                0 <= k < i ==> (#[trigger] responses@[k])@ == (ToolDecisionView {
                    tool_use_id: tool_ids@[k]@,
                    decision,
                    message: None,
                }),
        decreases tool_ids@.len() - i,
    {
        responses.push(
            ToolDecision { tool_use_id: tool_ids[i].clone(), decision, message: None },
        );
        i = i + 1;
    }
    assert(decision_views(responses@) =~= decide_all(texts(tool_ids@), decision));
    responses
}

/// What a message means to its conversation: the sessions after it, and what to
/// do. `reply` is the text of the message without white space around it and in
/// lower case.
///
/// A sender who is not admitted gets no answer. `stop` interrupts the session.
/// A reply to a request for approval decides about all of its tool calls. Else
/// the whole message, as it was written, goes to the pending questions, if there
/// are any. Anything else is input, for which a session is started where there
/// is none.
pub open spec fn message_step(
    sessions: Sessions,
    admitted: bool,
    message: Inbound,
    reply: Seq<char>,
) -> (Sessions, Seq<ActionView>) {
    let key = key_of(message);
    let waiting = sessions[key];
    if !admitted {
        (sessions, seq![])
    } else if reply == "stop"@ {
        if sessions.contains_key(key) {
            (
                sessions,
                seq![
                    ActionView::Send(OpView::Interrupt),
                    ActionView::Reply("⏹ Turn interrupted."@),
                ],
            )
        } else {
            (sessions, seq![])
        }
    } else if !sessions.contains_key(key) {
        (sessions, seq![ActionView::Open { input: message.text }])
    } else if waiting.approval is Some && decision_in(reply) is Some {
        (
            sessions.insert(key, Waiting { approval: None, question: waiting.question }),
            seq![
                ActionView::Send(
                    OpView::ApprovalResponse {
                        turn_id: waiting.approval->0.turn_id,
                        responses: decide_all(
                            waiting.approval->0.tool_ids,
                            decision_in(reply)->0,
                        ),
                    },
                ),
            ],
        )
    } else if waiting.question is Some {
        (
            sessions.insert(key, Waiting { approval: waiting.approval, question: None }),
            seq![
                ActionView::Send(
                    OpView::QuestionResponse {
                        turn_id: waiting.question->0.turn_id,
                        tool_use_id: waiting.question->0.tool_use_id,
                        reply: reply_to(message.text, waiting.question->0.questions),
                    },
                ),
            ],
        )
    } else {
        (sessions, seq![ActionView::Send(OpView::UserInput(message.text))])
    }
}

/// What it means to a conversation that its session has started, while `input`
/// waited for it: the sessions after it, and what to do.
pub open spec fn opened_step(sessions: Sessions, key: KeyView, input: Seq<char>) -> (
    Sessions,
    Seq<ActionView>,
) {
    (
        sessions.insert(key, idle()),
        seq![
            ActionView::Reply("Tip: send `stop` to cancel the current task."@),
            ActionView::Send(OpView::UserInput(input)),
        ],
    )
}

/// What a channel shows when tool calls await approval.
pub open spec fn approval_prompt(names: Seq<Seq<char>>, message: Seq<char>) -> Seq<char> {
    "⏸ Approval needed: "@ + joined(names, ", "@) + "\n"@ + message
        + "\n\nReply `yes` to approve, `always` to approve for this session, or `no` to skip."@
}

/// What an event of a conversation's session means to the conversation: the
/// sessions after it, and what to do. `None` is the end of the connection.
pub open spec fn event_step(sessions: Sessions, key: KeyView, event: Option<Evt>) -> (
    Sessions,
    Seq<ActionView>,
) {
    let waiting = sessions[key];
    match event {
        None => (
            sessions.remove(key),
            seq![
                ActionView::Close,
                ActionView::Reply(
                    "Connection to the Ante host closed. Send another message to start a new session."@,
                ),
            ],
        ),
        Some(evt) => if !sessions.contains_key(key) {
            (sessions, seq![])
        } else {
            match evt {
                Evt::AgentMessage(text) => (sessions, seq![ActionView::Reply(text@)]),
                Evt::TurnPause { turn_id, reason: TurnPauseReason::Approval { tools, message } } => (
                    sessions.insert(
                        key,
                        Waiting {
                            approval: Some(
                                PendingApprovalView {
                                    turn_id: turn_id@,
                                    tool_ids: tool_ids(tools@),
                                },
                            ),
                            question: waiting.question,
                        },
                    ),
                    seq![ActionView::Reply(approval_prompt(tool_names(tools@), message@))],
                ),
                Evt::TurnPause {
                    turn_id,
                    reason: TurnPauseReason::Question { tool_use_id, questions },
                } => (
                    sessions.insert(
                        key,
                        Waiting {
                            approval: waiting.approval,
                            question: Some(
                                PendingQuestionView {
                                    turn_id: turn_id@,
                                    tool_use_id: tool_use_id@,
                                    questions: question_views(questions@),
                                },
                            ),
                        },
                    ),
                    seq![ActionView::Reply(prompt(question_views(questions@)))],
                ),
                // Answered or released: either way nothing pends anymore.
                Evt::TurnResume => (
                    sessions.insert(key, Waiting { approval: waiting.approval, question: None }),
                    seq![],
                ),
                Evt::TurnEnd | Evt::SessionEnd => (sessions.insert(key, idle()), seq![]),
                Evt::Error(error) => (sessions, seq![ActionView::Reply("Error: "@ + error@)]),
                Evt::Goodbye => (sessions.remove(key), seq![ActionView::Close]),
                _ => (sessions, seq![]),
            }
        },
    }
}

/// What a channel shows when tool calls await approval.
fn approval_text(names: &Vec<String>, message: &str) -> (r: String)
    ensures
        r@ == approval_prompt(texts(names@), message@),
{
    let list = join(names, ", ");
    let mut out = "⏸ Approval needed: ".to_owned();
    out.append(list.as_str());
    out.append("\n");
    out.append(message);
    out.append(
        "\n\nReply `yes` to approve, `always` to approve for this session, or `no` to skip.",
    );
    out
}

/// The IDs and the names of tool calls.
fn split_tools(tools: Vec<ToolUse>) -> (r: (Vec<String>, Vec<String>))
    ensures
        texts(r.0@) == tool_ids(tools@),
        texts(r.1@) == tool_names(tools@),
{
    let mut ids: Vec<String> = Vec::new();
    let mut names: Vec<String> = Vec::new();
    let mut i: usize = 0;
    while i < tools.len()
        invariant
            i <= tools@.len(),
            ids@.len() == i,
            names@.len() == i,
            forall|k: int| 0 <= k < i ==> (#[trigger] ids@[k])@ == tools@[k].id@,
            forall|k: int| 0 <= k < i ==> (#[trigger] names@[k])@ == tools@[k].name@,
        decreases tools@.len() - i,
    {
        ids.push(tools[i].id.clone());
        names.push(tools[i].name.clone());
        i = i + 1;
    }
    assert(texts(ids@) =~= tool_ids(tools@));
    assert(texts(names@) =~= tool_names(tools@));
    (ids, names)
}

/// The gateway's conversations: which of them have a session, and what each of
/// those is waiting on.
pub struct Gateway {
    sessions: Vec<Session>,
}

impl View for Gateway {
    type V = Sessions;

    closed spec fn view(&self) -> Sessions {
        sessions_of(self.sessions@)
    }
}

impl Gateway {
    /// One session per conversation.
    #[verifier::type_invariant]
    spec fn one_session_each(self) -> bool {
        distinct(self.sessions@)
    }

    /// A gateway without sessions.
    pub fn new() -> (r: Self)
        ensures
            r@ == Map::<KeyView, Waiting>::empty(),
    {
        Gateway { sessions: Vec::new() }
    }

    /// Whether a conversation has a session.
    pub fn has_session(&self, key: &ConversationKey) -> (r: bool)
        ensures
            r == self@.contains_key(key@),
    {
        proof {
            use_type_invariant(self);
        }
        position(&self.sessions, key).is_some()
    }

    /// Decides what an admitted or rejected message means, where `reply` is its
    /// text without white space around it and in lower case.
    pub fn on_reply(&mut self, admitted: bool, msg: InboundMessage, reply: &str) -> (actions: Vec<
        Action,
    >)
        ensures
            final(self)@ == message_step(old(self)@, admitted, msg@, reply@).0,
            action_views(actions@) == message_step(old(self)@, admitted, msg@, reply@).1,
    {
        proof {
            use_type_invariant(&*self);
        }
        if !admitted {
            return nothing();
        }
        let key = ConversationKey::from_msg(&msg);
        if same_text(reply, "stop") {
            return if self.has_session(&key) {
                both(
                    Action::Send(Op::Interrupt),
                    Action::Reply("⏹ Turn interrupted.".to_owned()),
                )
            } else {
                nothing()
            };
        }
        let mut sessions: Vec<Session> = Vec::new();
        std::mem::swap(&mut self.sessions, &mut sessions);
        let ghost before = sessions_of(sessions@);
        let actions = match take_session(&mut sessions, &key) {
            None => just(Action::Open { input: msg.text }),
            Some(session) => {
                let Session { key: own, approval, question } = session;
                let decision = review_decision(reply);
                match (approval, question, decision) {
                    (Some(pending), question, Some(decision)) => {
                        put_session(&mut sessions, Session { key: own, approval: None, question });
                        let responses = tool_decisions(&pending.tool_ids, decision);
                        just(
                            Action::Send(
                                Op::ApprovalResponse { turn_id: pending.turn_id, responses },
                            ),
                        )
                    },
                    (approval, Some(pending), _) => {
                        put_session(&mut sessions, Session { key: own, approval, question: None });
                        let answer = question_reply(msg.text.as_str(), &pending.questions);
                        just(
                            Action::Send(
                                Op::QuestionResponse {
                                    turn_id: pending.turn_id,
                                    tool_use_id: pending.tool_use_id,
                                    reply: answer,
                                },
                            ),
                        )
                    },
                    (approval, None, _) => {
                        put_session(&mut sessions, Session { key: own, approval, question: None });
                        just(Action::Send(Op::UserInput(msg.text)))
                    },
                }
            },
        };
        assert(sessions_of(sessions@) =~= message_step(before, admitted, msg@, reply@).0);
        self.sessions = sessions;
        actions
    }

    /// Decides what a message means.
    pub fn on_message(&mut self, config: &ChannelsConfig, msg: InboundMessage) -> (actions: Vec<
        Action,
    >)
        ensures
            final(self)@ == message_step(
                old(self)@,
                config.admits(msg.platform@, msg.sender_id@),
                msg@,
                lowercase(trimmed(msg.text@)),
            ).0,
            action_views(actions@) == message_step(
                old(self)@,
                config.admits(msg.platform@, msg.sender_id@),
                msg@,
                lowercase(trimmed(msg.text@)),
            ).1,
    {
        let admitted = config.is_admitted(msg.platform, msg.sender_id.as_str());
        let reply = normalized(msg.text.as_str());
        self.on_reply(admitted, msg, reply.as_str())
    }

    /// Notes that a session has started for a conversation, and decides what to
    /// do with the input that waited for it.
    pub fn on_opened(&mut self, key: ConversationKey, input: String) -> (actions: Vec<Action>)
        ensures
            final(self)@ == opened_step(old(self)@, key@, input@).0,
            action_views(actions@) == opened_step(old(self)@, key@, input@).1,
    {
        proof {
            use_type_invariant(&*self);
        }
        let mut sessions: Vec<Session> = Vec::new();
        std::mem::swap(&mut self.sessions, &mut sessions);
        let ghost before = sessions_of(sessions@);
        let _ = take_session(&mut sessions, &key);
        put_session(&mut sessions, Session { key, approval: None, question: None });
        assert(sessions_of(sessions@) =~= before.insert(key@, idle()));
        self.sessions = sessions;
        both(
            Action::Reply("Tip: send `stop` to cancel the current task.".to_owned()),
            Action::Send(Op::UserInput(input)),
        )
    }

    /// Decides what an event of a conversation's session means; `None` is the
    /// end of its connection.
    pub fn on_event(&mut self, key: &ConversationKey, event: Option<Evt>) -> (actions: Vec<Action>)
        ensures
            final(self)@ == event_step(old(self)@, key@, event).0,
            action_views(actions@) == event_step(old(self)@, key@, event).1,
    {
        proof {
            use_type_invariant(&*self);
        }
        let mut sessions: Vec<Session> = Vec::new();
        std::mem::swap(&mut self.sessions, &mut sessions);
        let ghost before = sessions_of(sessions@);
        let taken = take_session(&mut sessions, key);
        let actions = match (event, taken) {
            (None, _) => both(
                Action::Close,
                Action::Reply(
                    "Connection to the Ante host closed. Send another message to start a new session.".to_owned(),
                ),
            ),
            (Some(_), None) => nothing(),
            (Some(evt), Some(session)) => match evt {
                Evt::AgentMessage(text) => {
                    put_session(&mut sessions, session);
                    just(Action::Reply(text))
                },
                Evt::TurnPause { turn_id, reason: TurnPauseReason::Approval { tools, message } } => {
                    let (tool_ids, names) = split_tools(tools);
                    let text = approval_text(&names, message.as_str());
                    let approval = Some(PendingApproval { turn_id, tool_ids });
                    put_session(
                        &mut sessions,
                        Session { key: session.key, approval, question: session.question },
                    );
                    just(Action::Reply(text))
                },
                Evt::TurnPause {
                    turn_id,
                    reason: TurnPauseReason::Question { tool_use_id, questions },
                } => {
                    let text = question_prompt(&questions);
                    let question = Some(PendingQuestion { turn_id, tool_use_id, questions });
                    put_session(
                        &mut sessions,
                        Session { key: session.key, approval: session.approval, question },
                    );
                    just(Action::Reply(text))
                },
                // Answered or released: either way nothing pends anymore.
                Evt::TurnResume => {
                    put_session(
                        &mut sessions,
                        Session { key: session.key, approval: session.approval, question: None },
                    );
                    nothing()
                },
                Evt::TurnEnd | Evt::SessionEnd => {
                    put_session(
                        &mut sessions,
                        Session { key: session.key, approval: None, question: None },
                    );
                    nothing()
                },
                Evt::Error(error) => {
                    put_session(&mut sessions, session);
                    let mut text = "Error: ".to_owned();
                    text.append(error.as_str());
                    just(Action::Reply(text))
                },
                Evt::Goodbye => just(Action::Close),
                _ => {
                    put_session(&mut sessions, session);
                    nothing()
                },
            },
        };
        assert(sessions_of(sessions@) =~= event_step(before, key@, event).0);
        self.sessions = sessions;
        actions
    }
}

/// The text of a message without white space around it and in lower case. Of a
/// text whose trimmed form is ASCII, the letters `A` to `Z` are lowered and the
/// rest is kept.
pub fn normalized(text: &str) -> (r: String)
    ensures
        r@ == lowercase(trimmed(text@)),
        (forall|i: int|
            0 <= i < trimmed(text@).len() ==> (#[trigger] trimmed(text@)[i]) < '\u{80}') ==> r@
            == trimmed(text@).map_values(|c: char| ascii_lower(c)),
{
    trim(text).as_str().to_lowercase()
}

/// What to do when no session could be started for a conversation.
pub fn on_open_failed(error: &str) -> (actions: Vec<Action>)
    ensures
        action_views(actions@) == seq![
            ActionView::Reply("Failed to start an Ante session: "@ + error@),
        ],
{
    let mut text = "Failed to start an Ante session: ".to_owned();
    text.append(error);
    just(Action::Reply(text))
}

/// What to ask of a host when a session starts: the given model and provider,
/// and no memory writes, since a relay is not an interactive session.
pub fn session_request(model: Option<String>, provider: Option<String>) -> (r: SessionRequest)
    ensures
        r == (SessionRequest { model, provider, enable_auto_memory: Some(false) }),
{
    SessionRequest { model, provider, enable_auto_memory: Some(false) }
}

/// How far the start of a session has come.
#[derive(Debug, PartialEq, Eq)]
pub enum StartStep {
    /// The session has started.
    Ready,
    /// Wait for the next event.
    Wait,
    /// The session will not start, for this reason.
    Failed(String),
}

/// What an event means while a session starts; `None` is the end of the
/// connection.
pub fn start_step(event: Option<Evt>) -> (r: StartStep)
    ensures
        match event {
            Some(Evt::SessionStart) => r is Ready,
            Some(Evt::Error(error)) => r == StartStep::Failed(error),
            Some(Evt::Goodbye) | None => r matches StartStep::Failed(reason) && reason@
                == "connection ended before session started"@,
            _ => r is Wait,
        },
{
    match event {
        Some(Evt::SessionStart) => StartStep::Ready,
        Some(Evt::Error(error)) => StartStep::Failed(error),
        Some(Evt::Goodbye) => StartStep::Failed(
            "connection ended before session started".to_owned(),
        ),
        None => StartStep::Failed("connection ended before session started".to_owned()),
        _ => StartStep::Wait,
    }
}

/// Whether nothing follows on a connection: it has ended, or the host has said
/// goodbye.
pub open spec fn last_notice(event: Option<Evt>) -> bool {
    event is None || event->0 is Goodbye
}

/// Whether to stop forwarding a connection's events to the gateway after this
/// one; `None` is the end of the connection.
pub fn stops_forwarding(event: &Option<Evt>) -> (r: bool)
    ensures
        r == last_notice(*event),
{
    match event {
        None => true,
        Some(Evt::Goodbye) => true,
        Some(_) => false,
    }
}

/// Where to look for something: as the command line says, or else in the
/// directory where the gateway keeps its files.
#[derive(Debug, PartialEq, Eq)]
pub enum Place<T> {
    /// Here, as the command line says.
    Given(T),
    /// Under this name in the gateway's directory.
    InHome(&'static str),
}

/// The name of the configuration file in the gateway's directory.
pub const CONFIG_NAME: &'static str = "channels.json";

/// The name of the host's socket in the gateway's directory.
pub const SOCKET_NAME: &'static str = "run/serve.sock";

/// The configuration file: the one of the flag, or else the one in the gateway's
/// directory.
pub fn resolve_config<P>(flag: Option<P>) -> (r: Place<P>)
    ensures
        match flag {
            Some(path) => r == Place::Given(path),
            None => r matches Place::InHome(name) && name@ == "channels.json"@,
        },
{
    match flag {
        Some(path) => Place::Given(path),
        None => Place::InHome(CONFIG_NAME),
    }
}

/// The endpoint of the host: the one of the flag, or else the socket in the
/// gateway's directory.
pub fn resolve_endpoint<E>(flag: Option<E>) -> (r: Place<E>)
    ensures
        match flag {
            Some(endpoint) => r == Place::Given(endpoint),
            None => r matches Place::InHome(name) && name@ == "run/serve.sock"@,
        },
{
    match flag {
        Some(endpoint) => Place::Given(endpoint),
        None => Place::InHome(SOCKET_NAME),
    }
}

/// Where the gateway keeps its files.
#[derive(Debug, PartialEq, Eq)]
pub enum Home<P> {
    /// In this directory.
    At(P),
    /// In the directory [`HOME_NAME`] under this one.
    Under(P),
}

/// The name of the gateway's directory under a user's home.
pub const HOME_NAME: &'static str = ".ante";

/// Where the gateway keeps its files: in the directory that is set, or else
/// under the user's home, or else under the current directory.
pub fn resolve_home<P>(home: Option<P>, user_home: Option<P>, current: P) -> (r: Home<P>)
    ensures
        r == (match (home, user_home) {
            (Some(directory), _) => Home::At(directory),
            (None, Some(directory)) => Home::Under(directory),
            (None, None) => Home::Under(current),
        }),
{
    match (home, user_home) {
        (Some(directory), _) => Home::At(directory),
        (None, Some(directory)) => Home::Under(directory),
        (None, None) => Home::Under(current),
    }
}

/// The executable to start: the one in the environment, unless it is empty, or
/// else the one of the flag.
pub fn resolve_executable<P>(env: Option<P>, env_is_empty: bool, flag: Option<P>) -> (r: Option<P>)
    ensures
        r == (if env is Some && !env_is_empty {
            env
        } else {
            flag
        }),
{
    match env {
        Some(executable) if !env_is_empty => Some(executable),
        _ => flag,
    }
}

}
