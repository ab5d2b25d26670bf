//! What holds of the gateway's conversations, whatever happens to them.

use crate::channels::config::ChannelsConfig;
use crate::channels::{Inbound, InboundMessage};
use crate::gateway::{
    action_views, decide_all, decision_in, event_step, idle, key_of, last_notice, message_step,
    normalized, on_open_failed, opened_step, resolve_config, resolve_endpoint, resolve_executable,
    resolve_home, review_decision, session_request, start_step, stops_forwarding, Action,
    ActionView, ConversationKey, Gateway, Home, KeyView, PendingApprovalView, PendingQuestionView,
    Place, Sessions, StartStep, Waiting, HOME_NAME,
};
use crate::protocol::{
    decision_views, question_views, tool_ids, tool_names, Evt, Op, OpView, QuestionReply,
    QuestionSpec, ReviewDecision, SessionRequest, ToolDecision, ToolUse, TurnPauseReason,
};
use crate::question::{question_prompt, question_reply, reply_to};
use crate::text::{joined, lowercase, text_option, trim};
use vstd::prelude::*;

verus! {

/// Something that happens to one conversation.
pub enum Input {
    /// A message arrives. `reply` is its text without white space around it
    /// and in lower case.
    Message { admitted: bool, message: Inbound, reply: Seq<char> },
    /// A session has started, for which `input` waited.
    Opened { key: KeyView, input: Seq<char> },
    /// Something happens on the host; `None` is the end of the connection.
    Event { key: KeyView, event: Option<Evt> },
}

/// The conversation to which it happens.
pub open spec fn concerned(input: Input) -> KeyView {
    match input {
        Input::Message { message, .. } => key_of(message),
        Input::Opened { key, .. } => key,
        Input::Event { key, .. } => key,
    }
}

/// The sessions after it, and what to do for the conversation.
pub open spec fn step(sessions: Sessions, input: Input) -> (Sessions, Seq<ActionView>) {
    match input {
        Input::Message { admitted, message, reply } => message_step(
            sessions,
            admitted,
            message,
            reply,
        ),
        Input::Opened { key, input } => opened_step(sessions, key, input),
        Input::Event { key, event } => event_step(sessions, key, event),
    }
}

/// The sessions after all of `inputs`, with none at the start.
pub open spec fn sessions_after(inputs: Seq<Input>) -> Sessions
    decreases inputs.len(),
{
    if inputs.len() == 0 {
        Map::empty()
    } else {
        step(sessions_after(inputs.drop_last()), inputs.last()).0
    }
}

/// Whether a conversation is in the same state in `a` and in `b`.
pub open spec fn agree(a: Sessions, b: Sessions, key: KeyView) -> bool {
    &&& a.contains_key(key) == b.contains_key(key)
    &&& a.contains_key(key) ==> a[key] == b[key]
}

/// What happens to one conversation leaves every other one as it was.
pub proof fn other_conversations_are_untouched(sessions: Sessions, input: Input, other: KeyView)
    requires
        other != concerned(input),
    ensures
        agree(step(sessions, input).0, sessions, other),
{
}

/// What is done for a conversation, and its state afterwards, depend on the
/// state of no other conversation.
pub proof fn steps_look_at_one_conversation(a: Sessions, b: Sessions, input: Input)
    requires
        agree(a, b, concerned(input)),
    ensures
        agree(step(a, input).0, step(b, input).0, concerned(input)),
        step(a, input).1 == step(b, input).1,
{
}

/// Conversations are isolated: the state of each, and what is done for it next,
/// is what it would be if nothing had ever happened to any other.
pub proof fn conversations_are_isolated(inputs: Seq<Input>, next: Input)
    ensures
        ({
            let key = concerned(next);
            let own = sessions_after(inputs.filter(|input: Input| concerned(input) == key));
            &&& agree(sessions_after(inputs), own, key)
            &&& step(sessions_after(inputs), next).1 == step(own, next).1
        }),
{
    let key = concerned(next);
    states_are_isolated(inputs, key);
    let own = sessions_after(inputs.filter(|input: Input| concerned(input) == key));
    steps_look_at_one_conversation(sessions_after(inputs), own, next);
}

proof fn states_are_isolated(inputs: Seq<Input>, key: KeyView)
    ensures
        agree(
            sessions_after(inputs),
            sessions_after(inputs.filter(|input: Input| concerned(input) == key)),
            key,
        ),
    decreases inputs.len(),
{
    let own = |input: Input| concerned(input) == key;
    reveal(Seq::filter);
    if inputs.len() > 0 {
        let front = inputs.drop_last();
        let last = inputs.last();
        states_are_isolated(front, key);
        if own(last) {
            let kept = front.filter(own);
            assert(inputs.filter(own) == kept.push(last));
            assert(kept.push(last).drop_last() =~= kept);
            steps_look_at_one_conversation(sessions_after(front), sessions_after(kept), last);
        } else {
            other_conversations_are_untouched(sessions_after(front), last, key);
        }
    }
}

/// A sender who is not admitted changes nothing and gets no answer.
pub proof fn rejected_messages_change_nothing(
    sessions: Sessions,
    message: Inbound,
    reply: Seq<char>,
)
    ensures
        message_step(sessions, false, message, reply) == (sessions, Seq::<ActionView>::empty()),
{
}

/// There is one connection per conversation: a message asks for one only where
/// the conversation has none, and then asks for nothing else.
pub proof fn conversations_open_once(sessions: Sessions, input: Input, i: int)
    requires
        0 <= i < step(sessions, input).1.len(),
        step(sessions, input).1[i] is Open,
    ensures
        !sessions.contains_key(concerned(input)),
        step(sessions, input).1.len() == 1,
        step(sessions, input).0 == sessions,
{
}

/// Whether an input is the last notice of a connection.
pub open spec fn is_last_notice(input: Input) -> bool {
    match input {
        Input::Event { event, .. } => last_notice(event),
        _ => false,
    }
}

/// A session lasts until its connection ends or the host says goodbye, and no
/// longer.
pub proof fn sessions_last_until_the_last_notice(sessions: Sessions, input: Input)
    ensures
        sessions.contains_key(concerned(input)) && !step(sessions, input).0.contains_key(
            concerned(input),
        ) ==> is_last_notice(input),
        is_last_notice(input) ==> !step(sessions, input).0.contains_key(concerned(input)),
{
}

/// A session begins only when one has been started.
pub proof fn sessions_begin_when_opened(sessions: Sessions, input: Input)
    requires
        !sessions.contains_key(concerned(input)),
        step(sessions, input).0.contains_key(concerned(input)),
    ensures
        input is Opened,
        step(sessions, input).0[concerned(input)] == idle(),
{
}

/// `stop` starts no session, answers nothing that is pending and reaches no
/// agent as input: it interrupts the session, where there is one.
pub proof fn stop_only_interrupts(sessions: Sessions, message: Inbound)
    ensures
        message_step(sessions, true, message, "stop"@).0 == sessions,
        message_step(sessions, true, message, "stop"@).1 == (if sessions.contains_key(
            key_of(message),
        ) {
            seq![
                ActionView::Send(OpView::Interrupt),
                ActionView::Reply("⏹ Turn interrupted."@),
            ]
        } else {
            seq![]
        }),
{
}

/// A decision in reply to a request for approval goes to the turn that asked, for
/// all of the tool calls that it asked about and for no others.
pub proof fn decisions_answer_their_request(
    sessions: Sessions,
    turn_id: String,
    tools: Vec<ToolUse>,
    prompt: String,
    message: Inbound,
    reply: Seq<char>,
)
    requires
        sessions.contains_key(key_of(message)),
        decision_in(reply) is Some,
    ensures
        ({
            let request = Evt::TurnPause {
                turn_id,
                reason: TurnPauseReason::Approval { tools, message: prompt },
            };
            let asked = event_step(sessions, key_of(message), Some(request)).0;
            message_step(asked, true, message, reply).1 == seq![
                ActionView::Send(
                    OpView::ApprovalResponse {
                        turn_id: turn_id@,
                        responses: decide_all(tool_ids(tools@), decision_in(reply)->0),
                    },
                ),
            ]
        }),
{
    decisions_are_not_stop(reply);
}

/// A reply to questions goes, as it was written, to the turn and the tool call
/// that asked them, unless it is `stop` or decides about a request for approval.
pub proof fn replies_answer_their_questions(
    sessions: Sessions,
    turn_id: String,
    tool_use_id: String,
    questions: Vec<QuestionSpec>,
    message: Inbound,
    reply: Seq<char>,
)
    requires
        sessions.contains_key(key_of(message)),
        sessions[key_of(message)].approval is None || decision_in(reply) is None,
        reply != "stop"@,
    ensures
        ({
            let ask = Evt::TurnPause {
                turn_id,
                reason: TurnPauseReason::Question { tool_use_id, questions },
            };
            let asked = event_step(sessions, key_of(message), Some(ask)).0;
            message_step(asked, true, message, reply).1 == seq![
                ActionView::Send(
                    OpView::QuestionResponse {
                        turn_id: turn_id@,
                        tool_use_id: tool_use_id@,
                        reply: reply_to(message.text, question_views(questions@)),
                    },
                ),
            ]
        }),
{
}

proof fn decisions_are_not_stop(reply: Seq<char>)
    requires
        decision_in(reply) is Some,
    ensures
        reply != "stop"@,
{
    reveal_strlit("stop");
    reveal_strlit("yes");
    reveal_strlit("y");
    reveal_strlit("no");
    reveal_strlit("n");
    reveal_strlit("always");
    assert("stop"@.len() == 4);
}

/// A request for approval is answered once: after a decision none is pending,
/// so the same word again is a reply to the pending questions, or else input.
pub proof fn approvals_are_answered_once(
    sessions: Sessions,
    message: Inbound,
    reply: Seq<char>,
    again: Inbound,
)
    requires
        sessions.contains_key(key_of(message)),
        sessions[key_of(message)].approval is Some,
        decision_in(reply) is Some,
        key_of(again) == key_of(message),
    ensures
        ({
            let after = message_step(sessions, true, message, reply).0;
            let waiting = after[key_of(message)];
            &&& waiting.approval is None
            &&& waiting.question == sessions[key_of(message)].question
            &&& message_step(after, true, again, reply).1 == seq![
                ActionView::Send(
                    match waiting.question {
                        Some(pending) => OpView::QuestionResponse {
                            turn_id: pending.turn_id,
                            tool_use_id: pending.tool_use_id,
                            reply: reply_to(again.text, pending.questions),
                        },
                        None => OpView::UserInput(again.text),
                    },
                ),
            ]
        }),
{
    decisions_are_not_stop(reply);
}

/// Questions are answered once: after a reply to them none are pending.
pub proof fn questions_are_answered_once(sessions: Sessions, message: Inbound, reply: Seq<char>)
    requires
        sessions.contains_key(key_of(message)),
        sessions[key_of(message)].question is Some,
        sessions[key_of(message)].approval is None || decision_in(reply) is None,
        reply != "stop"@,
    ensures
        ({
            let after = message_step(sessions, true, message, reply).0[key_of(message)];
            after.question is None && after.approval == sessions[key_of(message)].approval
        }),
{
}

/// When a turn or the session has ended, the conversation waits on nothing.
pub proof fn ended_turns_wait_on_nothing(sessions: Sessions, key: KeyView, event: Evt)
    requires
        sessions.contains_key(key),
        event is TurnEnd || event is SessionEnd,
    ensures
        event_step(sessions, key, Some(event)).0[key] == idle(),
{
}

/// Whether an input is the host's request to approve just these tool calls.
pub open spec fn requests(input: Input, key: KeyView, pending: PendingApprovalView) -> bool {
    match input {
        Input::Event {
            key: k,
            event: Some(
                Evt::TurnPause { turn_id, reason: TurnPauseReason::Approval { tools, .. } },
            ),
        } => k == key && turn_id@ == pending.turn_id && tool_ids(tools@) == pending.tool_ids,
        _ => false,
    }
}

/// Whether an input is the host asking just these questions.
pub open spec fn asks(input: Input, key: KeyView, pending: PendingQuestionView) -> bool {
    match input {
        Input::Event {
            key: k,
            event: Some(
                Evt::TurnPause {
                    turn_id,
                    reason: TurnPauseReason::Question { tool_use_id, questions },
                },
            ),
        } => {
            &&& k == key
            &&& turn_id@ == pending.turn_id
            &&& tool_use_id@ == pending.tool_use_id
            &&& question_views(questions@) == pending.questions
        },
        _ => false,
    }
}

/// Whether one of `inputs` is the host's request to approve just these calls.
pub open spec fn requested(
    inputs: Seq<Input>,
    key: KeyView,
    pending: PendingApprovalView,
) -> bool {
    exists|i: int| 0 <= i < inputs.len() && requests(#[trigger] inputs[i], key, pending)
}

/// Whether one of `inputs` is the host asking just these questions.
pub open spec fn asked(inputs: Seq<Input>, key: KeyView, pending: PendingQuestionView) -> bool {
    exists|i: int| 0 <= i < inputs.len() && asks(#[trigger] inputs[i], key, pending)
}

/// What a conversation waits on is what its host asked for in that
/// conversation: nothing is answered that was not asked.
pub proof fn what_is_pending_was_asked(inputs: Seq<Input>, key: KeyView)
    requires
        sessions_after(inputs).contains_key(key),
    ensures
        sessions_after(inputs)[key].approval matches Some(pending) ==> requested(
            inputs,
            key,
            pending,
        ),
        sessions_after(inputs)[key].question matches Some(pending) ==> asked(inputs, key, pending),
    decreases inputs.len(),
{
    let front = inputs.drop_last();
    let last = inputs.last();
    let before = sessions_after(front);
    let after = step(before, last).0;
    if concerned(last) != key {
        other_conversations_are_untouched(before, last, key);
    }
    if before.contains_key(key) {
        what_is_pending_was_asked(front, key);
    }
    if after[key].approval is Some {
        let pending = after[key].approval->0;
        if before.contains_key(key) && before[key].approval == Some(pending) {
            let i = choose|i: int|
                0 <= i < front.len() && requests(#[trigger] front[i], key, pending);
            assert(requests(inputs[i], key, pending));
        } else {
            assert(requests(inputs[inputs.len() - 1], key, pending));
        }
    }
    if after[key].question is Some {
        let pending = after[key].question->0;
        if before.contains_key(key) && before[key].question == Some(pending) {
            let i = choose|i: int| 0 <= i < front.len() && asks(#[trigger] front[i], key, pending);
            assert(asks(inputs[i], key, pending));
        } else {
            assert(asks(inputs[inputs.len() - 1], key, pending));
        }
    }
}

/// What is forwarded of a connection on which `events` happen and which then
/// ends: everything up to a goodbye, or else everything and the end.
pub open spec fn forwarded(events: Seq<Evt>) -> Seq<Option<Evt>>
    decreases events.len(),
{
    if events.len() == 0 {
        seq![None]
    } else if last_notice(Some(events[0])) {
        seq![Some(events[0])]
    } else {
        seq![Some(events[0])] + forwarded(events.drop_first())
    }
}

/// A connection, however it ends, gives exactly one last notice, and nothing
/// after it.
pub proof fn connections_give_one_last_notice(events: Seq<Evt>)
    ensures
        forwarded(events).len() > 0,
        last_notice(forwarded(events).last()),
        forall|i: int|
            0 <= i < forwarded(events).len() - 1 ==> !last_notice(#[trigger] forwarded(events)[i]),
    decreases events.len(),
{
    if events.len() > 0 && !last_notice(Some(events[0])) {
        let rest = forwarded(events.drop_first());
        connections_give_one_last_notice(events.drop_first());
        let all = seq![Some(events[0])] + rest;
        assert(all.last() == rest.last());
        assert forall|i: int| 0 <= i < all.len() - 1 implies !last_notice(#[trigger] all[i]) by {
            if i > 0 {
                assert(all[i] == rest[i - 1]);
            }
        }
    }
}

/// The conversation of a message: where it was written, and in which thread.
pub open spec fn conversation(msg: InboundMessage) -> KeyView {
    KeyView {
        platform: msg.platform@,
        channel_id: msg.channel_id@,
        thread_id: match msg.thread_id {
            Some(thread) => Some(thread@),
            None => None,
        },
    }
}

/// Whether `reply` is one of the words that decide about a request for approval.
pub open spec fn is_decision_word(reply: Seq<char>) -> bool {
    reply == "yes"@ || reply == "y"@ || reply == "no"@ || reply == "n"@ || reply == "always"@
}

/// Whether what is done is just to reply with `text`.
pub open spec fn just_replies(actions: Seq<Action>, text: Seq<char>) -> bool {
    actions.len() == 1 && (actions[0] matches Action::Reply(reply) && reply@ == text)
}

proof fn actions_are_seen_one_by_one(actions: Seq<Action>)
    ensures
        action_views(actions).len() == actions.len(),
        forall|i: int|
            0 <= i < actions.len() ==> (#[trigger] actions[i])@ == action_views(actions)[i],
{
    assert forall|i: int| 0 <= i < actions.len() implies (#[trigger] actions[i])@ == action_views(
        actions,
    )[i] by {}
}

/// Actions are seen one by one, each as what it is.
pub proof fn actions_are_seen_whole(actions: Seq<Action>, i: int)
    requires
        0 <= i < actions.len(),
    ensures
        action_views(actions).len() == actions.len(),
        match actions[i] {
            Action::Send(op) => action_views(actions)[i] == ActionView::Send(op@),
            Action::Reply(text) => action_views(actions)[i] == ActionView::Reply(text@),
            Action::Open { input } => action_views(actions)[i] == (ActionView::Open {
                input: input@,
            }),
            Action::Close => action_views(actions)[i] == ActionView::Close,
        },
{
    actions_are_seen_one_by_one(actions);
}

/// A gateway begins without sessions.
pub proof fn gateways_begin_without_sessions(gateway: Gateway, key: &ConversationKey, found: bool)
    requires
        call_ensures(Gateway::new, (), gateway),
        call_ensures(Gateway::has_session, (&gateway, key), found),
    ensures
        gateway@.dom().is_empty(),
        !found,
{
    assert(gateway@.dom() =~= Set::empty());
}

/// A message belongs to the conversation where it was written, which is written
/// as its platform, its channel and, in a thread, its thread.
pub proof fn messages_belong_where_they_were_written(
    msg: &InboundMessage,
    key: ConversationKey,
    label: String,
)
    requires
        call_ensures(ConversationKey::from_msg, (msg,), key),
        call_ensures(ConversationKey::label, (&key,), label),
    ensures
        key@ == conversation(*msg),
        key.platform@ == msg.platform@,
        key.channel_id@ == msg.channel_id@,
        match (key.thread_id, msg.thread_id) {
            (Some(a), Some(b)) => a@ == b@,
            (None, None) => true,
            _ => false,
        },
        match msg.thread_id {
            Some(thread) => label@ == msg.platform@ + "/"@ + msg.channel_id@ + "/"@ + thread@,
            None => label@ == msg.platform@ + "/"@ + msg.channel_id@,
        },
{
}

/// An admitted message that is not `stop` starts a session wherever there is
/// none, in a thread or not, with the message as its input.
pub proof fn messages_start_sessions(
    gateway: &mut Gateway,
    msg: InboundMessage,
    reply: &str,
    actions: Vec<Action>,
)
    requires
        call_ensures(Gateway::on_reply, (gateway, true, msg, reply), actions),
        !old(gateway)@.contains_key(conversation(msg)),
        reply@ != "stop"@,
    ensures
        actions@.len() == 1,
        actions@[0] matches Action::Open { input } && input@ == msg.text@,
        final(gateway)@ == old(gateway)@,
{
    actions_are_seen_one_by_one(actions@);
}

/// In a conversation that waits on nothing that the message answers, an admitted
/// message that is not `stop` is input for the agent, as it was written.
pub proof fn other_messages_are_input(
    gateway: &mut Gateway,
    msg: InboundMessage,
    reply: &str,
    actions: Vec<Action>,
)
    requires
        call_ensures(Gateway::on_reply, (gateway, true, msg, reply), actions),
        old(gateway)@.contains_key(conversation(msg)),
        old(gateway)@[conversation(msg)].question is None,
        old(gateway)@[conversation(msg)].approval is None || !is_decision_word(reply@),
        reply@ != "stop"@,
    ensures
        actions@.len() == 1,
        actions@[0] matches Action::Send(Op::UserInput(text)) && text@ == msg.text@,
        final(gateway)@ == old(gateway)@,
{
    actions_are_seen_one_by_one(actions@);
}

/// Which word decides what.
pub proof fn words_decide(reply: &str, decision: Option<ReviewDecision>)
    requires
        call_ensures(review_decision, (reply,), decision),
    ensures
        reply@ == "yes"@ || reply@ == "y"@ <==> decision == Some(ReviewDecision::Accept),
        reply@ == "no"@ || reply@ == "n"@ <==> decision == Some(ReviewDecision::Deny),
        reply@ == "always"@ <==> decision == Some(ReviewDecision::AcceptForSession),
{
    reveal_strlit("yes");
    reveal_strlit("y");
    reveal_strlit("no");
    reveal_strlit("n");
    reveal_strlit("always");
    assert("yes"@[0] != "no"@[0]);
    assert("y"@[0] != "n"@[0]);
    assert("yes"@.len() == 3 && "y"@.len() == 1 && "no"@.len() == 2 && "n"@.len() == 1
        && "always"@.len() == 6);
}

/// Whether `responses` decide about each of the tool calls, in order, and about
/// nothing else.
pub open spec fn decide_about(
    responses: Seq<ToolDecision>,
    tool_ids: Seq<Seq<char>>,
    decision: ReviewDecision,
) -> bool {
    &&& responses.len() == tool_ids.len()
    &&& forall|i: int|
        0 <= i < responses.len() ==> {
            &&& (#[trigger] responses[i]).tool_use_id@ == tool_ids[i]
            &&& responses[i].decision == decision
            &&& responses[i].message is None
        }
}

/// A decision on a pending request is sent to the turn that asked: one response
/// for each of its tool calls, with the call's ID and the decision of the reply.
/// The request is then no longer pending, and a pending question still is.
pub proof fn every_tool_call_gets_its_decision(
    gateway: &mut Gateway,
    msg: InboundMessage,
    reply: &str,
    decision: ReviewDecision,
    actions: Vec<Action>,
)
    requires
        call_ensures(Gateway::on_reply, (gateway, true, msg, reply), actions),
        call_ensures(review_decision, (reply,), Some(decision)),
        old(gateway)@.contains_key(conversation(msg)),
        old(gateway)@[conversation(msg)].approval is Some,
    ensures
        ({
            let waiting = old(gateway)@[conversation(msg)];
            let pending = waiting.approval->0;
            &&& actions@.len() == 1
            &&& actions@[0] matches Action::Send(Op::ApprovalResponse { turn_id, responses })
                && turn_id@ == pending.turn_id && decide_about(
                responses@,
                pending.tool_ids,
                decision,
            )
            &&& final(gateway)@ == old(gateway)@.insert(
                conversation(msg),
                Waiting { approval: None, question: waiting.question },
            )
        }),
{
    actions_are_seen_one_by_one(actions@);
    decisions_are_not_stop(reply@);
    let pending = old(gateway)@[conversation(msg)].approval->0;
    if let Action::Send(Op::ApprovalResponse { turn_id, responses }) = actions@[0] {
        let expected = decide_all(pending.tool_ids, decision);
        assert(actions@[0]@ == ActionView::Send(
            OpView::ApprovalResponse { turn_id: pending.turn_id, responses: expected },
        ));
        assert(decision_views(responses@) == expected);
        assert forall|i: int| 0 <= i < responses@.len() implies {
            &&& (#[trigger] responses@[i]).tool_use_id@ == pending.tool_ids[i]
            &&& responses@[i].decision == decision
            &&& responses@[i].message is None
        } by {
            assert(decision_views(responses@)[i] == expected[i]);
            assert(text_option(responses@[i].message) is None);
        }
    }
}

/// A reply that does not decide about a request for approval goes, as it was
/// written, to the pending questions: what it says to them is sent to the turn
/// and the tool call that asked. The questions are then no longer pending, and a
/// pending request still is.
pub proof fn questions_get_what_was_written(
    gateway: &mut Gateway,
    msg: InboundMessage,
    reply: &str,
    text: &str,
    questions: &Vec<QuestionSpec>,
    said: QuestionReply,
    actions: Vec<Action>,
)
    requires
        call_ensures(Gateway::on_reply, (gateway, true, msg, reply), actions),
        old(gateway)@.contains_key(conversation(msg)),
        old(gateway)@[conversation(msg)].question is Some,
        old(gateway)@[conversation(msg)].approval is None || !is_decision_word(reply@),
        reply@ != "stop"@,
        text@ == msg.text@,
        question_views(questions@) == old(gateway)@[conversation(msg)].question->0.questions,
        call_ensures(question_reply, (text, questions), said),
    ensures
        ({
            let waiting = old(gateway)@[conversation(msg)];
            let pending = waiting.question->0;
            &&& actions@.len() == 1
            &&& actions@[0] matches Action::Send(
                Op::QuestionResponse { turn_id, tool_use_id, reply: answer },
            ) && turn_id@ == pending.turn_id && tool_use_id@ == pending.tool_use_id && answer@
                == said@
            &&& final(gateway)@ == old(gateway)@.insert(
                conversation(msg),
                Waiting { approval: waiting.approval, question: None },
            )
        }),
{
    actions_are_seen_one_by_one(actions@);
}

/// `stop` interrupts a session and says so. Without a session it does nothing.
/// Either way nothing that is pending changes.
pub proof fn stop_interrupts(
    gateway: &mut Gateway,
    msg: InboundMessage,
    reply: &str,
    actions: Vec<Action>,
)
    requires
        call_ensures(Gateway::on_reply, (gateway, true, msg, reply), actions),
        reply@ == "stop"@,
    ensures
        final(gateway)@ == old(gateway)@,
        !old(gateway)@.contains_key(conversation(msg)) ==> actions@.len() == 0,
        old(gateway)@.contains_key(conversation(msg)) ==> {
            &&& actions@.len() == 2
            &&& actions@[0] == Action::Send(Op::Interrupt)
            &&& actions@[1] matches Action::Reply(text) && text@ == "⏹ Turn interrupted."@
        },
{
    actions_are_seen_one_by_one(actions@);
}

/// A message that is not admitted does nothing.
pub proof fn rejected_messages_do_nothing(
    gateway: &mut Gateway,
    msg: InboundMessage,
    reply: &str,
    actions: Vec<Action>,
)
    requires
        call_ensures(Gateway::on_reply, (gateway, false, msg, reply), actions),
    ensures
        actions@.len() == 0,
        final(gateway)@ == old(gateway)@,
{
    actions_are_seen_one_by_one(actions@);
}

/// A message does what its text does without white space around it and in lower
/// case, admitted if the configuration admits its sender on its platform.
pub proof fn messages_are_normalized_and_checked(
    gateway: &mut Gateway,
    config: &ChannelsConfig,
    msg: InboundMessage,
    actions: Vec<Action>,
    same: &mut Gateway,
    sender: &str,
    admitted: bool,
    text: &str,
    trimmed_text: String,
    reply: &str,
    done: Vec<Action>,
)
    requires
        call_ensures(Gateway::on_message, (gateway, config, msg), actions),
        sender@ == msg.sender_id@,
        call_ensures(ChannelsConfig::is_admitted, (config, msg.platform, sender), admitted),
        text@ == msg.text@,
        call_ensures(trim, (text,), trimmed_text),
        reply@ == lowercase(trimmed_text@),
        old(same)@ == old(gateway)@,
        call_ensures(Gateway::on_reply, (same, admitted, msg, reply), done),
    ensures
        final(gateway)@ == final(same)@,
        action_views(actions@) == action_views(done@),
{
}

/// Normalizing takes off the white space around a text and lowers its letters.
pub proof fn normalizing_trims_and_lowers(
    text: &str,
    trimmed_text: String,
    reply: String,
    i: int,
)
    requires
        call_ensures(trim, (text,), trimmed_text),
        call_ensures(normalized, (text,), reply),
    ensures
        reply@ == lowercase(trimmed_text@),
        (forall|k: int| 0 <= k < trimmed_text@.len() ==> (#[trigger] trimmed_text@[k]) < '\u{80}')
            ==> reply@.len() == trimmed_text@.len() && (0 <= i < reply@.len() ==> reply@[i] == (
        if 'A' <= trimmed_text@[i] <= 'Z' {
            (trimmed_text@[i] as int + 32) as char
        } else {
            trimmed_text@[i]
        })),
{
}

/// A session that has started waits on nothing. The user gets a tip, and the
/// agent gets the input that waited, as it was written.
pub proof fn started_sessions_get_their_input(
    gateway: &mut Gateway,
    key: ConversationKey,
    input: String,
    actions: Vec<Action>,
)
    requires
        call_ensures(Gateway::on_opened, (gateway, key, input), actions),
    ensures
        final(gateway)@ == old(gateway)@.insert(key@, Waiting { approval: None, question: None }),
        actions@.len() == 2,
        actions@[0] matches Action::Reply(text) && text@
            == "Tip: send `stop` to cancel the current task."@,
        actions@[1] matches Action::Send(Op::UserInput(text)) && text@ == input@,
{
    actions_are_seen_one_by_one(actions@);
}

/// Where no session could be started, the user is told why.
pub proof fn failed_starts_are_told(error: &str, actions: Vec<Action>)
    requires
        call_ensures(on_open_failed, (error,), actions),
    ensures
        just_replies(actions@, "Failed to start an Ante session: "@ + error@),
{
    actions_are_seen_one_by_one(actions@);
}

/// What the agent says in a conversation with a session is the one reply there,
/// as the agent said it, and an error is the one reply behind the word `Error`.
/// Neither changes what any conversation waits on.
pub proof fn the_agents_words_are_relayed(
    gateway: &mut Gateway,
    key: &ConversationKey,
    text: String,
    actions: Vec<Action>,
    same: &mut Gateway,
    failed: Vec<Action>,
)
    requires
        old(gateway)@.contains_key(key@),
        old(same)@.contains_key(key@),
        call_ensures(Gateway::on_event, (gateway, key, Some(Evt::AgentMessage(text))), actions),
        call_ensures(Gateway::on_event, (same, key, Some(Evt::Error(text))), failed),
    ensures
        just_replies(actions@, text@),
        final(gateway)@ == old(gateway)@,
        just_replies(failed@, "Error: "@ + text@),
        final(same)@ == old(same)@,
{
    actions_are_seen_one_by_one(actions@);
    actions_are_seen_one_by_one(failed@);
}

/// A request for approval is shown with the names of all its tools and the
/// host's message, and is then pending: with its turn and the IDs of all its tool
/// calls, in order. A pending question still is.
pub proof fn requests_are_shown_and_kept(
    gateway: &mut Gateway,
    key: &ConversationKey,
    turn_id: String,
    tools: Vec<ToolUse>,
    message: String,
    names: Seq<Seq<char>>,
    actions: Vec<Action>,
)
    requires
        old(gateway)@.contains_key(key@),
        call_ensures(
            Gateway::on_event,
            (
                gateway,
                key,
                Some(
                    Evt::TurnPause { turn_id, reason: TurnPauseReason::Approval { tools, message } },
                ),
            ),
            actions,
        ),
        names.len() == tools@.len(),
        forall|i: int| 0 <= i < names.len() ==> #[trigger] names[i] == tools@[i].name@,
    ensures
        just_replies(
            actions@,
            "⏸ Approval needed: "@ + joined(names, ", "@) + "\n"@ + message@
                + "\n\nReply `yes` to approve, `always` to approve for this session, or `no` to skip."@,
        ),
        ({
            let waiting = final(gateway)@[key@];
            &&& final(gateway)@ == old(gateway)@.insert(key@, waiting)
            &&& waiting.question == old(gateway)@[key@].question
            &&& waiting.approval is Some
            &&& waiting.approval->0.turn_id == turn_id@
            &&& waiting.approval->0.tool_ids.len() == tools@.len()
            &&& forall|i: int|
                0 <= i < tools@.len() ==> waiting.approval->0.tool_ids[i] == (
                #[trigger] tools@[i]).id@
        }),
{
    actions_are_seen_one_by_one(actions@);
    assert(tool_names(tools@) =~= names);
}

/// Questions are shown as their prompt, and are then pending: with their turn,
/// their tool call, and themselves. A pending request still is.
pub proof fn questions_are_shown_and_kept(
    gateway: &mut Gateway,
    key: &ConversationKey,
    turn_id: String,
    tool_use_id: String,
    questions: Vec<QuestionSpec>,
    shown: String,
    actions: Vec<Action>,
)
    requires
        old(gateway)@.contains_key(key@),
        call_ensures(
            Gateway::on_event,
            (
                gateway,
                key,
                Some(
                    Evt::TurnPause {
                        turn_id,
                        reason: TurnPauseReason::Question { tool_use_id, questions },
                    },
                ),
            ),
            actions,
        ),
        call_ensures(question_prompt, (&questions,), shown),
    ensures
        just_replies(actions@, shown@),
        ({
            let waiting = final(gateway)@[key@];
            &&& final(gateway)@ == old(gateway)@.insert(key@, waiting)
            &&& waiting.approval == old(gateway)@[key@].approval
            &&& waiting.question is Some
            &&& waiting.question->0.turn_id == turn_id@
            &&& waiting.question->0.tool_use_id == tool_use_id@
            &&& waiting.question->0.questions == question_views(questions@)
        }),
{
    actions_are_seen_one_by_one(actions@);
}

/// From request to response: when a host asks for approval and the user then
/// decides, every tool call that the host named gets that decision, by its own
/// ID and in the host's order.
pub proof fn requested_tools_are_all_decided(
    gateway: &mut Gateway,
    key: &ConversationKey,
    turn_id: String,
    tools: Vec<ToolUse>,
    message: String,
    shown: Vec<Action>,
    later: &mut Gateway,
    msg: InboundMessage,
    reply: &str,
    decision: ReviewDecision,
    actions: Vec<Action>,
)
    requires
        old(gateway)@.contains_key(key@),
        call_ensures(
            Gateway::on_event,
            (
                gateway,
                key,
                Some(
                    Evt::TurnPause { turn_id, reason: TurnPauseReason::Approval { tools, message } },
                ),
            ),
            shown,
        ),
        old(later)@ == final(gateway)@,
        conversation(msg) == key@,
        call_ensures(review_decision, (reply,), Some(decision)),
        call_ensures(Gateway::on_reply, (later, true, msg, reply), actions),
    ensures
        actions@.len() == 1,
        actions@[0] matches Action::Send(Op::ApprovalResponse { turn_id: turn, responses })
            && turn@ == turn_id@ && responses@.len() == tools@.len() && forall|i: int|
            0 <= i < tools@.len() ==> {
                &&& responses@[i].tool_use_id@ == (#[trigger] tools@[i]).id@
                &&& responses@[i].decision == decision
                &&& responses@[i].message is None
            },
{
    let names = tool_names(tools@);
    requests_are_shown_and_kept(gateway, key, turn_id, tools, message, names, shown);
    every_tool_call_gets_its_decision(later, msg, reply, decision, actions);
    if let Action::Send(Op::ApprovalResponse { turn_id: turn, responses }) = actions@[0] {
        let ids = old(later)@[key@].approval->0.tool_ids;
        assert(decide_about(responses@, ids, decision));
        assert forall|i: int| 0 <= i < tools@.len() implies {
            &&& responses@[i].tool_use_id@ == (#[trigger] tools@[i]).id@
            &&& responses@[i].decision == decision
            &&& responses@[i].message is None
        } by {
            assert(ids[i] == tools@[i].id@);
            assert(responses@[i].tool_use_id@ == ids[i]);
        }
    }
}

/// What the other events of a session do: a turn that resumes drops its question
/// and keeps its request, the end of a turn or of the session drops both, a
/// goodbye ends the session, and the rest does nothing.
pub proof fn other_events_only_change_what_is_pending(
    gateway: &mut Gateway,
    key: &ConversationKey,
    event: Evt,
    actions: Vec<Action>,
)
    requires
        old(gateway)@.contains_key(key@),
        call_ensures(Gateway::on_event, (gateway, key, Some(event)), actions),
        !(event is AgentMessage) && !(event is Error) && !(event is TurnPause),
    ensures
        event is Goodbye ==> {
            &&& actions@.len() == 1 && actions@[0] == Action::Close
            &&& final(gateway)@ == old(gateway)@.remove(key@)
        },
        !(event is Goodbye) ==> actions@.len() == 0,
        event is TurnResume ==> final(gateway)@ == old(gateway)@.insert(
            key@,
            Waiting { approval: old(gateway)@[key@].approval, question: None },
        ),
        event is TurnEnd || event is SessionEnd ==> final(gateway)@ == old(gateway)@.insert(
            key@,
            Waiting { approval: None, question: None },
        ),
        !(event is Goodbye) && !(event is TurnResume) && !(event is TurnEnd) && !(
        event is SessionEnd) ==> final(gateway)@ == old(gateway)@,
{
    actions_are_seen_one_by_one(actions@);
}

/// An event for a conversation without a session does nothing.
pub proof fn late_events_do_nothing(
    gateway: &mut Gateway,
    key: &ConversationKey,
    event: Evt,
    actions: Vec<Action>,
)
    requires
        !old(gateway)@.contains_key(key@),
        call_ensures(Gateway::on_event, (gateway, key, Some(event)), actions),
    ensures
        actions@.len() == 0,
        final(gateway)@ == old(gateway)@,
{
    actions_are_seen_one_by_one(actions@);
}

/// The end of a connection ends the session, and the user is told how to go on.
pub proof fn ended_connections_are_told(
    gateway: &mut Gateway,
    key: &ConversationKey,
    actions: Vec<Action>,
)
    requires
        call_ensures(Gateway::on_event, (gateway, key, None), actions),
    ensures
        final(gateway)@ == old(gateway)@.remove(key@),
        actions@.len() == 2,
        actions@[0] == Action::Close,
        actions@[1] matches Action::Reply(text) && text@
            == "Connection to the Ante host closed. Send another message to start a new session."@,
{
    actions_are_seen_one_by_one(actions@);
}

/// A session has started when the host says so, will not start where the host
/// reports an error or goes away, and is waited for through all else. It is asked
/// for with the given model and provider and without memory.
pub proof fn sessions_start_when_the_host_says_so(
    event: Option<Evt>,
    step: StartStep,
    model: Option<String>,
    provider: Option<String>,
    request: SessionRequest,
)
    requires
        call_ensures(start_step, (event,), step),
        call_ensures(session_request, (model, provider), request),
    ensures
        step is Ready <==> event is Some && event->0 is SessionStart,
        step is Failed <==> event is None || event->0 is Goodbye || event->0 is Error,
        event is Some && event->0 is Error ==> step->Failed_0@ == event->0->Error_0@,
        event is None || event->0 is Goodbye ==> step->Failed_0@
            == "connection ended before session started"@,
        request.model == model,
        request.provider == provider,
        request.enable_auto_memory == Some(false),
{
}

/// Forwarding stops at the end of the connection and at a goodbye, and at nothing
/// else.
pub proof fn forwarding_stops_at_the_end(event: &Option<Evt>, stops: bool)
    requires
        call_ensures(stops_forwarding, (event,), stops),
    ensures
        stops <==> *event is None || event->0 is Goodbye,
{
}

/// What is set takes the place of what is not: the directory that is set comes
/// before one under the user's home, and that before one under the current
/// directory; a flag comes before the name in the gateway's directory; and an
/// executable in the environment that is not empty comes before the flag.
pub proof fn what_is_set_comes_first<P>(
    home: Option<P>,
    user_home: Option<P>,
    current: P,
    env: Option<P>,
    env_is_empty: bool,
    flag: Option<P>,
    found: Home<P>,
    executable: Option<P>,
    config: Place<P>,
    endpoint: Place<P>,
)
    requires
        call_ensures(resolve_home::<P>, (home, user_home, current), found),
        call_ensures(resolve_executable::<P>, (env, env_is_empty, flag), executable),
        call_ensures(resolve_config::<P>, (flag,), config),
        call_ensures(resolve_endpoint::<P>, (flag,), endpoint),
    ensures
        home is Some ==> found == Home::At(home->0),
        home is None && user_home is Some ==> found == Home::Under(user_home->0),
        home is None && user_home is None ==> found == Home::Under(current),
        env is Some && !env_is_empty ==> executable == env,
        env is None || env_is_empty ==> executable == flag,
        flag is Some ==> config == Place::Given(flag->0) && endpoint == Place::Given(flag->0),
        flag is None ==> (config matches Place::InHome(name) && name@ == "channels.json"@),
        flag is None ==> (endpoint matches Place::InHome(name) && name@ == "run/serve.sock"@),
        HOME_NAME@ == ".ante"@,
{
}

}
