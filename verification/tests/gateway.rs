use ante_gateway::channels::access::AllowPolicy;
use ante_gateway::channels::config::{ChannelInstanceConfig, ChannelsConfig};
use ante_gateway::channels::InboundMessage;
use ante_gateway::gateway::{
    normalized, on_open_failed, resolve_config, resolve_endpoint, resolve_executable,
    resolve_home, review_decision, session_request, start_step, stops_forwarding, Action,
    ConversationKey, Gateway, Home, Place, StartStep, HOME_NAME,
};
use ante_gateway::json::Json;
use ante_gateway::protocol::{
    Evt, Op, QuestionAnswer, QuestionOption, QuestionReply, QuestionSpec, ReviewDecision,
    ToolDecision, ToolUse, TurnPauseReason,
};
use std::path::PathBuf;

fn home_path(home: Home<PathBuf>) -> PathBuf {
    match home {
        Home::At(path) => path,
        Home::Under(path) => path.join(HOME_NAME),
    }
}

#[test]
fn home_resolution_matches_ante() {
    let here = || PathBuf::from(".");
    let user_home = Some(PathBuf::from("/home/user"));
    assert_eq!(
        home_path(resolve_home(Some("/custom/ante".into()), user_home.clone(), here())),
        PathBuf::from("/custom/ante")
    );
    assert_eq!(
        home_path(resolve_home(None, user_home, here())),
        PathBuf::from("/home/user/.ante")
    );
    assert_eq!(home_path(resolve_home(None, None, here())), PathBuf::from("./.ante"));
}

#[test]
fn stdio_uses_dispatching_ante_then_flag_then_sdk_path_lookup() {
    let flag = Some(PathBuf::from("/flag/ante"));
    assert_eq!(
        resolve_executable(Some("/env/ante".into()), false, flag.clone()),
        Some(PathBuf::from("/env/ante"))
    );
    assert_eq!(resolve_executable(Some("".into()), true, flag.clone()), flag);
    assert_eq!(resolve_executable(None, true, flag.clone()), flag);
    assert_eq!(resolve_executable(None::<PathBuf>, true, None), None);
}

#[test]
fn config_and_endpoint_default_to_the_home() {
    assert_eq!(resolve_config(Some("/etc/c.json")), Place::Given("/etc/c.json"));
    assert_eq!(resolve_config(None::<PathBuf>), Place::InHome("channels.json"));
    assert_eq!(resolve_endpoint(Some("stdio")), Place::Given("stdio"));
    assert_eq!(resolve_endpoint(None::<String>), Place::InHome("run/serve.sock"));
}

/// A gateway's configuration: `U1` and `U2` may interact on Slack.
fn config() -> ChannelsConfig {
    ChannelsConfig {
        channels: vec![(
            "slack".to_string(),
            ChannelInstanceConfig {
                enabled: true,
                allow_from: AllowPolicy::List(vec!["U1".to_string(), "U2".to_string()]),
                secrets: Json::Object(Vec::new()),
            },
        )],
    }
}

fn message_from(sender: &str, thread: &str, text: &str) -> InboundMessage {
    InboundMessage {
        platform: "slack",
        channel_id: "C1".to_string(),
        thread_id: Some(thread.to_string()),
        sender_id: sender.to_string(),
        text: text.to_string(),
    }
}

fn message(thread: &str, text: &str) -> InboundMessage {
    message_from("U1", thread, text)
}

fn key(thread: &str) -> ConversationKey {
    ConversationKey::from_msg(&message(thread, ""))
}

/// What is done, written out.
fn shown(actions: Vec<Action>) -> Vec<String> {
    actions
        .into_iter()
        .map(|action| match action {
            Action::Send(op) => format!("send {op:?}"),
            Action::Reply(text) => format!("reply {text}"),
            Action::Open { input } => format!("open {input}"),
            Action::Close => "close".to_string(),
        })
        .collect()
}

/// A gateway with a session for each of the threads.
fn gateway(threads: &[&str]) -> Gateway {
    let mut gateway = Gateway::new();
    for thread in threads {
        gateway.on_opened(key(thread), "start".to_string());
    }
    gateway
}

fn only_op(mut actions: Vec<Action>) -> Op {
    assert_eq!(actions.len(), 1, "{actions:?}");
    match actions.remove(0) {
        Action::Send(op) => op,
        other => panic!("{other:?}"),
    }
}

fn approval(turn: &str) -> Evt {
    let tool = |id: &str, name: &str| ToolUse { id: id.to_string(), name: name.to_string() };
    Evt::TurnPause {
        turn_id: turn.to_string(),
        reason: TurnPauseReason::Approval {
            tools: vec![tool("t1", "Bash"), tool("t2", "Write")],
            message: "rm -r build".to_string(),
        },
    }
}

fn question(turn: &str) -> Evt {
    let option = |label: &str| QuestionOption {
        label: label.to_string(),
        description: String::new(),
        preview: None,
    };
    Evt::TurnPause {
        turn_id: turn.to_string(),
        reason: TurnPauseReason::Question {
            tool_use_id: "ask".to_string(),
            questions: vec![QuestionSpec {
                header: "H".to_string(),
                question: "Which?".to_string(),
                multi_select: false,
                options: vec![option("A"), option("B")],
            }],
        },
    }
}

fn decisions(decision: ReviewDecision) -> Vec<ToolDecision> {
    ["t1", "t2"]
        .iter()
        .map(|id| ToolDecision { tool_use_id: id.to_string(), decision, message: None })
        .collect()
}

#[test]
fn keys_are_written_as_paths() {
    assert_eq!(key("7").label(), "slack/C1/7");
    let mut direct = message("7", "");
    direct.thread_id = None;
    assert_eq!(ConversationKey::from_msg(&direct).label(), "slack/C1");
}

#[test]
fn replies_are_normalized() {
    assert_eq!(normalized(" \n StOp\t"), "stop");
    assert_eq!(normalized("ÄÖ ẞ"), "äö ß");
    assert_eq!(normalized(""), "");
}

#[test]
fn first_messages_open_sessions() {
    let mut gateway = Gateway::new();
    assert_eq!(shown(gateway.on_message(&config(), message("1", " Do this "))), ["open  Do this "]);
    assert!(!gateway.has_session(&key("1")));
    assert_eq!(
        shown(gateway.on_opened(key("1"), " Do this ".to_string())),
        ["reply Tip: send `stop` to cancel the current task.", "send UserInput(\" Do this \")"]
    );
    assert!(gateway.has_session(&key("1")));
    assert_eq!(
        shown(gateway.on_message(&config(), message("1", "More"))),
        ["send UserInput(\"More\")"]
    );
}

#[test]
fn failed_opens_are_reported() {
    assert_eq!(
        shown(on_open_failed("no host")),
        ["reply Failed to start an Ante session: no host"]
    );
}

#[test]
fn rejected_senders_get_no_answer() {
    let mut gateway = gateway(&["1"]);
    for text in ["hello", "stop", "yes"] {
        assert!(gateway.on_message(&config(), message_from("U9", "1", text)).is_empty());
        assert!(gateway.on_message(&config(), message_from("U9", "2", text)).is_empty());
    }
    let mut elsewhere = message_from("U9", "2", "hello");
    elsewhere.platform = "discord";
    assert_eq!(shown(gateway.on_message(&config(), elsewhere)), ["open hello"]);
}

#[test]
fn stop_interrupts_a_session() {
    let mut gateway = gateway(&["1"]);
    gateway.on_event(&key("1"), Some(approval("turn")));
    for text in ["stop", " STOP "] {
        assert_eq!(
            shown(gateway.on_message(&config(), message("1", text))),
            ["send Interrupt", "reply ⏹ Turn interrupted."]
        );
    }
    assert!(gateway.on_message(&config(), message("2", "stop")).is_empty());
    assert!(gateway.has_session(&key("1")));
    assert!(matches!(
        only_op(gateway.on_message(&config(), message("1", "yes"))),
        Op::ApprovalResponse { .. }
    ));
}

#[test]
fn approvals_decide_about_all_tools_once() {
    for (reply, decision) in [
        ("yes", ReviewDecision::Accept),
        (" Y\n", ReviewDecision::Accept),
        ("no", ReviewDecision::Deny),
        ("N", ReviewDecision::Deny),
        ("Always", ReviewDecision::AcceptForSession),
    ] {
        let mut gateway = gateway(&["1"]);
        assert_eq!(
            shown(gateway.on_event(&key("1"), Some(approval("turn")))),
            ["reply ⏸ Approval needed: Bash, Write\nrm -r build\n\nReply `yes` to approve, \
              `always` to approve for this session, or `no` to skip."]
        );
        assert_eq!(
            only_op(gateway.on_message(&config(), message("1", reply))),
            Op::ApprovalResponse {
                turn_id: "turn".to_string(),
                responses: decisions(decision),
            }
        );
        assert_eq!(
            only_op(gateway.on_message(&config(), message("1", reply))),
            Op::UserInput(reply.to_string())
        );
    }
    assert_eq!(review_decision("maybe"), None);
    assert_eq!(review_decision("Yes"), None);
}

#[test]
fn other_replies_leave_an_approval_pending() {
    let mut gateway = gateway(&["1"]);
    gateway.on_event(&key("1"), Some(approval("turn")));
    assert_eq!(
        only_op(gateway.on_message(&config(), message("1", "Why?"))),
        Op::UserInput("Why?".to_string())
    );
    assert_eq!(
        only_op(gateway.on_message(&config(), message("1", "no"))),
        Op::ApprovalResponse {
            turn_id: "turn".to_string(),
            responses: decisions(ReviewDecision::Deny),
        }
    );
}

#[test]
fn questions_take_one_reply() {
    let mut gateway = gateway(&["1"]);
    assert_eq!(
        shown(gateway.on_event(&key("1"), Some(question("turn")))),
        ["reply ❓ The agent has a question:\n\nWhich?\n  1. A\n  2. B\n\n\
          Reply with an option number, or in your own words."]
    );
    assert_eq!(
        only_op(gateway.on_message(&config(), message("1", " 2 "))),
        Op::QuestionResponse {
            turn_id: "turn".to_string(),
            tool_use_id: "ask".to_string(),
            reply: QuestionReply::Answered(vec![QuestionAnswer {
                selected: vec!["B".to_string()],
                note: None,
            }]),
        }
    );
    assert_eq!(
        only_op(gateway.on_message(&config(), message("1", "2"))),
        Op::UserInput("2".to_string())
    );
    gateway.on_event(&key("1"), Some(question("turn")));
    assert_eq!(
        only_op(gateway.on_message(&config(), message("1", "Neither "))),
        Op::QuestionResponse {
            turn_id: "turn".to_string(),
            tool_use_id: "ask".to_string(),
            reply: QuestionReply::Discuss { message: Some("Neither ".to_string()) },
        }
    );
}

#[test]
fn questions_get_the_users_own_words() {
    for words in ["Use Cargo.toml", "  Ask\n Bob, then ME", "3", "NO"] {
        let mut gateway = gateway(&["1"]);
        gateway.on_event(&key("1"), Some(question("turn")));
        assert_eq!(
            only_op(gateway.on_message(&config(), message("1", words))),
            Op::QuestionResponse {
                turn_id: "turn".to_string(),
                tool_use_id: "ask".to_string(),
                reply: QuestionReply::Discuss { message: Some(words.to_string()) },
            }
        );
        assert_eq!(
            only_op(gateway.on_message(&config(), message("1", words))),
            Op::UserInput(words.to_string())
        );
    }
}

#[test]
fn approvals_come_before_questions() {
    let mut gateway = gateway(&["1"]);
    gateway.on_event(&key("1"), Some(question("q")));
    gateway.on_event(&key("1"), Some(approval("a")));
    assert!(matches!(
        only_op(gateway.on_message(&config(), message("1", "yes"))),
        Op::ApprovalResponse { turn_id, .. } if turn_id == "a"
    ));
    assert!(matches!(
        only_op(gateway.on_message(&config(), message("1", "yes"))),
        Op::QuestionResponse { turn_id, .. } if turn_id == "q"
    ));
}

#[test]
fn resumed_turns_keep_approvals_and_drop_questions() {
    let mut gateway = gateway(&["1"]);
    gateway.on_event(&key("1"), Some(question("q")));
    gateway.on_event(&key("1"), Some(approval("a")));
    assert!(gateway.on_event(&key("1"), Some(Evt::TurnResume)).is_empty());
    assert_eq!(
        only_op(gateway.on_message(&config(), message("1", "1"))),
        Op::UserInput("1".to_string())
    );
    assert!(matches!(
        only_op(gateway.on_message(&config(), message("1", "yes"))),
        Op::ApprovalResponse { .. }
    ));
}

#[test]
fn ended_turns_and_sessions_wait_on_nothing() {
    for event in [Evt::TurnEnd, Evt::SessionEnd] {
        let mut gateway = gateway(&["1"]);
        gateway.on_event(&key("1"), Some(question("q")));
        gateway.on_event(&key("1"), Some(approval("a")));
        assert!(gateway.on_event(&key("1"), Some(event)).is_empty());
        for text in ["yes", "1"] {
            assert_eq!(
                only_op(gateway.on_message(&config(), message("1", text))),
                Op::UserInput(text.to_string())
            );
        }
    }
}

#[test]
fn agent_messages_and_errors_are_relayed() {
    let mut gateway = gateway(&["1"]);
    assert_eq!(
        shown(gateway.on_event(&key("1"), Some(Evt::AgentMessage("done".to_string())))),
        ["reply done"]
    );
    assert_eq!(
        shown(gateway.on_event(&key("1"), Some(Evt::Error("bad".to_string())))),
        ["reply Error: bad"]
    );
    for event in [Evt::Info("i".to_string()), Evt::Thinking("t".to_string()), Evt::Other] {
        assert!(gateway.on_event(&key("1"), Some(event)).is_empty());
    }
    assert!(gateway.on_event(&key("2"), Some(Evt::AgentMessage("lost".to_string()))).is_empty());
}

#[test]
fn sessions_end_with_their_connection() {
    let mut gateway = gateway(&["1", "2"]);
    assert_eq!(shown(gateway.on_event(&key("1"), Some(Evt::Goodbye))), ["close"]);
    assert!(!gateway.has_session(&key("1")));
    assert_eq!(
        shown(gateway.on_event(&key("2"), None)),
        ["close", "reply Connection to the Ante host closed. Send another message to start a new \
          session."]
    );
    assert!(!gateway.has_session(&key("2")));
    assert!(gateway.on_event(&key("1"), Some(Evt::Goodbye)).is_empty());
    assert_eq!(shown(gateway.on_message(&config(), message("1", "again"))), ["open again"]);
}

#[test]
fn conversations_do_not_touch_each_other() {
    let mut gateway = gateway(&["1", "2"]);
    gateway.on_event(&key("1"), Some(approval("a")));
    gateway.on_event(&key("2"), Some(question("q")));
    assert_eq!(
        only_op(gateway.on_message(&config(), message("2", "yes"))),
        Op::QuestionResponse {
            turn_id: "q".to_string(),
            tool_use_id: "ask".to_string(),
            reply: QuestionReply::Discuss { message: Some("yes".to_string()) },
        }
    );
    gateway.on_event(&key("2"), None);
    assert!(gateway.has_session(&key("1")));
    assert!(matches!(
        only_op(gateway.on_message(&config(), message_from("U2", "1", "yes"))),
        Op::ApprovalResponse { .. }
    ));
}

#[test]
fn session_requests_write_no_memory() {
    let request = session_request(Some("m".to_string()), None);
    assert_eq!(request.model.as_deref(), Some("m"));
    assert_eq!(request.provider, None);
    assert_eq!(request.enable_auto_memory, Some(false));
}

#[test]
fn sessions_start_or_fail() {
    assert_eq!(start_step(Some(Evt::SessionStart)), StartStep::Ready);
    assert_eq!(start_step(Some(Evt::Info("loading".to_string()))), StartStep::Wait);
    assert_eq!(
        start_step(Some(Evt::Error("model unavailable".to_string()))),
        StartStep::Failed("model unavailable".to_string())
    );
    for event in [Some(Evt::Goodbye), None] {
        assert_eq!(
            start_step(event),
            StartStep::Failed("connection ended before session started".to_string())
        );
    }
}

#[test]
fn forwarding_stops_at_the_last_notice() {
    assert!(stops_forwarding(&None));
    assert!(stops_forwarding(&Some(Evt::Goodbye)));
    assert!(!stops_forwarding(&Some(Evt::SessionEnd)));
}
