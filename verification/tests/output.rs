use ante_gateway::output::{printed, should_print_event, OutputFormat, Printed, Span, Style};
use ante_gateway::protocol::{Evt, ToolUse};

fn tool_start() -> Evt {
    Evt::ToolStart(ToolUse { id: "tool-1".to_string(), name: "Read".to_string() })
}

fn tool_update() -> Evt {
    Evt::ToolUpdate {
        tool_use_id: "tool-1".to_string(),
        seq: 1,
        message: "progress".to_string(),
    }
}

fn tool_end() -> Evt {
    Evt::ToolEnd {
        tool_use_id: "tool-1".to_string(),
        tool_name: "Read".to_string(),
        status: "Completed".to_string(),
    }
}

#[test]
fn all_formats_suppress_streaming_deltas() {
    for format in [OutputFormat::Json, OutputFormat::Human, OutputFormat::Minimal] {
        for event in
            [Evt::MessageDelta("partial".to_string()), Evt::ThinkingDelta("partial".to_string())]
        {
            assert!(!should_print_event(&format, &event), "{format:?}: {event:?}");
        }
    }
}

#[test]
fn minimal_only_prints_agent_messages_info_and_errors() {
    let events = [
        (Evt::AgentMessage("complete".to_string()), true),
        (Evt::Info("notice".to_string()), true),
        (Evt::Error("failure".to_string()), true),
        (Evt::Thinking("thinking".to_string()), false),
        // User input, compaction, usage and the start of a turn.
        (Evt::Other, false),
        (tool_start(), false),
        (tool_update(), false),
        (tool_end(), false),
        (Evt::TurnEnd, false),
    ];
    for (event, minimal) in events {
        assert!(should_print_event(&OutputFormat::Json, &event), "{event:?}");
        assert!(should_print_event(&OutputFormat::Human, &event), "{event:?}");
        assert_eq!(should_print_event(&OutputFormat::Minimal, &event), minimal, "{event:?}");
    }
}

#[test]
fn the_default_format_is_minimal() {
    assert!(matches!(OutputFormat::default(), OutputFormat::Minimal));
}

fn span(style: Style, text: &str) -> Span {
    Span { style, text: text.to_string() }
}

fn line(event: &Evt) -> (bool, Vec<Span>) {
    match printed(&OutputFormat::Human, event, "Debug { .. }") {
        Printed::Line { error, spans } => (error, spans),
        other => panic!("{other:?}"),
    }
}

#[test]
fn messages_have_their_lines() {
    assert_eq!(
        line(&Evt::AgentMessage("done".to_string())),
        (false, vec![span(Style::BoldDarkYellow, "❖"), span(Style::Plain, " done")])
    );
    assert_eq!(
        line(&Evt::Info("notice".to_string())),
        (
            false,
            vec![
                span(Style::Dim, "ℹ️"),
                span(Style::Plain, " "),
                span(Style::DimDarkCyan, "notice")
            ]
        )
    );
    assert_eq!(
        line(&Evt::Thinking("hm".to_string())),
        (
            false,
            vec![span(Style::Dim, "💭"), span(Style::Plain, " "), span(Style::DimItalic, "hm")]
        )
    );
    assert_eq!(
        line(&Evt::Error("failure".to_string())),
        (true, vec![span(Style::BoldDarkRed, "✖"), span(Style::Plain, " failure")])
    );
}

#[test]
fn tools_have_their_lines() {
    assert_eq!(
        line(&tool_start()).1,
        [span(Style::Dim, "🔧"), span(Style::Plain, " ToolUse(id=tool-1, name=Read)")]
    );
    assert_eq!(
        line(&tool_update()).1,
        [
            span(Style::Dim, "⏳"),
            span(Style::Plain, " "),
            span(Style::Dim, "tool-1"),
            span(Style::Plain, " #1 "),
            span(Style::Dim, "progress"),
        ]
    );
    assert_eq!(
        line(&tool_end()).1,
        [
            span(Style::Dim, "✅"),
            span(Style::Plain, " "),
            span(Style::Dim, "tool-1"),
            span(Style::Plain, " Read "),
            span(Style::Dim, "Completed"),
        ]
    );
}

#[test]
fn other_events_are_written_out() {
    assert_eq!(line(&Evt::TurnEnd), (false, vec![span(Style::Dim, "Debug { .. }")]));
}

#[test]
fn formats_choose_what_is_printed() {
    let message = Evt::AgentMessage("done".to_string());
    assert_eq!(printed(&OutputFormat::Json, &message, ""), Printed::Json);
    assert_eq!(printed(&OutputFormat::Minimal, &Evt::TurnEnd, ""), Printed::Nothing);
    assert_eq!(
        printed(&OutputFormat::Json, &Evt::MessageDelta("d".to_string()), ""),
        Printed::Nothing
    );
    assert!(matches!(
        printed(&OutputFormat::Minimal, &message, ""),
        Printed::Line { error: false, .. }
    ));
}
