//! What the gateway prints about the events of its sessions.

use crate::protocol::Evt;
use crate::text::{decimal, decimal_of};
use vstd::prelude::*;
use vstd::string::*;

verus! {

/// How events are printed.
#[derive(Debug, Clone, Copy, PartialEq, Eq, Structural)]
pub enum OutputFormat {
    Json,
    Human,
    Minimal,
}

impl Default for OutputFormat {
    fn default() -> (r: Self)
        ensures
            r is Minimal,
    {
        OutputFormat::Minimal
    }
}

/// Whether an event is a piece of a message that is still being written.
pub open spec fn is_delta(event: Evt) -> bool {
    event is MessageDelta || event is ThinkingDelta
}

/// Whether a format prints an event: minimal output is what the agent says,
/// notices and errors, and any other is everything but deltas.
pub open spec fn prints(format: OutputFormat, event: Evt) -> bool {
    match format {
        OutputFormat::Json | OutputFormat::Human => !is_delta(event),
        OutputFormat::Minimal => event is AgentMessage || event is Info || event is Error,
    }
}

/// Whether a format prints an event.
pub fn should_print_event(output_format: &OutputFormat, event: &Evt) -> (r: bool)
    ensures
        r == prints(*output_format, *event),
{
    match output_format {
        OutputFormat::Json | OutputFormat::Human => match event {
            Evt::MessageDelta(_) | Evt::ThinkingDelta(_) => false,
            _ => true,
        },
        OutputFormat::Minimal => match event {
            Evt::AgentMessage(_) | Evt::Info(_) | Evt::Error(_) => true,
            _ => false,
        },
    }
}

/// How a piece of a line looks.
#[derive(Debug, Clone, Copy, PartialEq, Eq, Structural)]
pub enum Style {
    Plain,
    Dim,
    DimItalic,
    DimDarkCyan,
    BoldDarkYellow,
    BoldDarkRed,
}

/// A piece of a line.
#[derive(Debug, Clone, PartialEq, Eq)]
pub struct Span {
    pub style: Style,
    pub text: String,
}

/// What a [`Span`] holds.
pub struct SpanView {
    pub style: Style,
    pub text: Seq<char>,
}

impl View for Span {
    type V = SpanView;

    open spec fn view(&self) -> SpanView {
        SpanView { style: self.style, text: self.text@ }
    }
}

/// The views of pieces.
pub open spec fn span_views(spans: Seq<Span>) -> Seq<SpanView> {
    spans.map_values(|span: Span| span@)
}

/// What to print about an event.
#[derive(Debug, PartialEq, Eq)]
pub enum Printed {
    Nothing,
    /// The event as JSON, on a line of standard output.
    Json,
    /// An empty line of standard output, and then these pieces as a line of
    /// standard output, or of standard error.
    Line { error: bool, spans: Vec<Span> },
}

/// A plain piece.
pub open spec fn plain(text: Seq<char>) -> SpanView {
    SpanView { style: Style::Plain, text }
}

/// A dim piece.
pub open spec fn dim(text: Seq<char>) -> SpanView {
    SpanView { style: Style::Dim, text }
}

/// The pieces of an event's line, where `debug` is how the event is written out
/// in full.
pub open spec fn line_of(event: Evt, debug: Seq<char>) -> Seq<SpanView> {
    match event {
        Evt::AgentMessage(message) => seq![
            SpanView { style: Style::BoldDarkYellow, text: "❖"@ },
            plain(" "@ + message@),
        ],
        Evt::Info(message) => seq![
            dim("ℹ️"@),
            plain(" "@),
            SpanView { style: Style::DimDarkCyan, text: message@ },
        ],
        Evt::Thinking(message) => seq![
            dim("💭"@),
            plain(" "@),
            SpanView { style: Style::DimItalic, text: message@ },
        ],
        Evt::Error(message) => seq![
            SpanView { style: Style::BoldDarkRed, text: "✖"@ },
            plain(" "@ + message@),
        ],
        Evt::ToolStart(tool) => seq![
            dim("🔧"@),
            plain(" ToolUse(id="@ + tool.id@ + ", name="@ + tool.name@ + ")"@),
        ],
        Evt::ToolUpdate { tool_use_id, seq, message } => seq![
            dim("⏳"@),
            plain(" "@),
            dim(tool_use_id@),
            plain(" #"@ + decimal(seq as nat) + " "@),
            dim(message@),
        ],
        Evt::ToolEnd { tool_use_id, tool_name, status } => seq![
            dim("✅"@),
            plain(" "@),
            dim(tool_use_id@),
            plain(" "@ + tool_name@ + " "@),
            dim(status@),
        ],
        _ => seq![dim(debug)],
    }
}

/// A piece.
fn span(style: Style, text: &str) -> (r: Span)
    ensures
        r@ == (SpanView { style, text: text@ }),
{
    Span { style, text: text.to_owned() }
}

/// The pieces of an event's line, where `debug` is how the event is written out
/// in full.
pub fn event_line(event: &Evt, debug: &str) -> (r: Vec<Span>)
    ensures
        span_views(r@) == line_of(*event, debug@),
{
    let mut spans: Vec<Span> = Vec::new();
    match event {
        Evt::AgentMessage(message) => {
            spans.push(span(Style::BoldDarkYellow, "❖"));
            let mut text = " ".to_owned();
            text.append(message.as_str());
            spans.push(Span { style: Style::Plain, text });
        },
        Evt::Info(message) => {
            spans.push(span(Style::Dim, "ℹ️"));
            spans.push(span(Style::Plain, " "));
            spans.push(span(Style::DimDarkCyan, message.as_str()));
        },
        Evt::Thinking(message) => {
            spans.push(span(Style::Dim, "💭"));
            spans.push(span(Style::Plain, " "));
            spans.push(span(Style::DimItalic, message.as_str()));
        },
        Evt::Error(message) => {
            spans.push(span(Style::BoldDarkRed, "✖"));
            let mut text = " ".to_owned();
            text.append(message.as_str());
            spans.push(Span { style: Style::Plain, text });
        },
        Evt::ToolStart(tool) => {
            spans.push(span(Style::Dim, "🔧"));
            let mut text = " ToolUse(id=".to_owned();
            text.append(tool.id.as_str());
            text.append(", name=");
            text.append(tool.name.as_str());
            text.append(")");
            spans.push(Span { style: Style::Plain, text });
        },
        Evt::ToolUpdate { tool_use_id, seq, message } => {
            spans.push(span(Style::Dim, "⏳"));
            spans.push(span(Style::Plain, " "));
            spans.push(span(Style::Dim, tool_use_id.as_str()));
            let number = decimal_of(*seq);
            let mut text = " #".to_owned();
            text.append(number.as_str());
            text.append(" ");
            spans.push(Span { style: Style::Plain, text });
            spans.push(span(Style::Dim, message.as_str()));
        },
        Evt::ToolEnd { tool_use_id, tool_name, status } => {
            spans.push(span(Style::Dim, "✅"));
            spans.push(span(Style::Plain, " "));
            spans.push(span(Style::Dim, tool_use_id.as_str()));
            let mut text = " ".to_owned();
            text.append(tool_name.as_str());
            text.append(" ");
            spans.push(Span { style: Style::Plain, text });
            spans.push(span(Style::Dim, status.as_str()));
        },
        _ => {
            spans.push(span(Style::Dim, debug));
        },
    }
    assert(span_views(spans@) =~= line_of(*event, debug@));
    spans
}

/// Decides what to print about an event, where `debug` is how the event is
/// written out in full. Errors go to standard error.
pub fn printed(output_format: &OutputFormat, event: &Evt, debug: &str) -> (r: Printed)
    ensures
        if !prints(*output_format, *event) {
            r is Nothing
        } else if *output_format is Json {
            r is Json
        } else {
            r matches Printed::Line { error, spans } && error == (*event is Error) && span_views(
                spans@,
            ) == line_of(*event, debug@)
        },
{
    if !should_print_event(output_format, event) {
        return Printed::Nothing;
    }
    match output_format {
        OutputFormat::Json => Printed::Json,
        OutputFormat::Human | OutputFormat::Minimal => {
            let error = match event {
                Evt::Error(_) => true,
                _ => false,
            };
            Printed::Line { error, spans: event_line(event, debug) }
        },
    }
}

/// No format prints a delta.
pub proof fn deltas_are_not_printed(format: OutputFormat, event: Evt)
    requires
        is_delta(event),
    ensures
        !prints(format, event),
{
}

/// What minimal output prints, the other formats print too, and they print the
/// same events as each other.
pub proof fn minimal_prints_the_least(event: Evt)
    ensures
        prints(OutputFormat::Minimal, event) ==> prints(OutputFormat::Human, event),
        prints(OutputFormat::Human, event) == prints(OutputFormat::Json, event),
{
}

/// Minimal output prints what the agent says, notices and errors, and nothing
/// else. Any other output prints all but the pieces of unfinished messages.
pub proof fn formats_print_their_events(format: &OutputFormat, event: &Evt, prints: bool)
    requires
        call_ensures(should_print_event, (format, event), prints),
    ensures
        *format is Minimal ==> prints == (*event is AgentMessage || *event is Info
            || *event is Error),
        !(*format is Minimal) ==> prints == !(*event is MessageDelta || *event is ThinkingDelta),
{
}

/// Whether a piece has this style and this text.
pub open spec fn looks(span: Span, style: Style, text: Seq<char>) -> bool {
    span.style == style && span.text@ == text
}

/// The line of an event shows all that the event says, as it says it.
pub proof fn lines_show_their_events(event: &Evt, debug: &str, line: Vec<Span>)
    requires
        call_ensures(event_line, (event, debug), line),
    ensures
        match *event {
            Evt::AgentMessage(message) => {
                &&& line@.len() == 2
                &&& looks(line@[0], Style::BoldDarkYellow, "❖"@)
                &&& looks(line@[1], Style::Plain, " "@ + message@)
            },
            Evt::Info(message) => {
                &&& line@.len() == 3
                &&& looks(line@[0], Style::Dim, "ℹ️"@)
                &&& looks(line@[1], Style::Plain, " "@)
                &&& looks(line@[2], Style::DimDarkCyan, message@)
            },
            Evt::Thinking(message) => {
                &&& line@.len() == 3
                &&& looks(line@[0], Style::Dim, "💭"@)
                &&& looks(line@[1], Style::Plain, " "@)
                &&& looks(line@[2], Style::DimItalic, message@)
            },
            Evt::Error(message) => {
                &&& line@.len() == 2
                &&& looks(line@[0], Style::BoldDarkRed, "✖"@)
                &&& looks(line@[1], Style::Plain, " "@ + message@)
            },
            Evt::ToolStart(tool) => {
                &&& line@.len() == 2
                &&& looks(line@[0], Style::Dim, "🔧"@)
                &&& looks(
                    line@[1],
                    Style::Plain,
                    " ToolUse(id="@ + tool.id@ + ", name="@ + tool.name@ + ")"@,
                )
            },
            Evt::ToolUpdate { tool_use_id, seq, message } => {
                &&& line@.len() == 5
                &&& looks(line@[0], Style::Dim, "⏳"@)
                &&& looks(line@[1], Style::Plain, " "@)
                &&& looks(line@[2], Style::Dim, tool_use_id@)
                &&& looks(line@[3], Style::Plain, " #"@ + decimal(seq as nat) + " "@)
                &&& looks(line@[4], Style::Dim, message@)
            },
            Evt::ToolEnd { tool_use_id, tool_name, status } => {
                &&& line@.len() == 5
                &&& looks(line@[0], Style::Dim, "✅"@)
                &&& looks(line@[1], Style::Plain, " "@)
                &&& looks(line@[2], Style::Dim, tool_use_id@)
                &&& looks(line@[3], Style::Plain, " "@ + tool_name@ + " "@)
                &&& looks(line@[4], Style::Dim, status@)
            },
            _ => line@.len() == 1 && looks(line@[0], Style::Dim, debug@),
        },
{
    assert(span_views(line@).len() == line@.len());
    let expected = line_of(*event, debug@);
    assert forall|i: int| 0 <= i < line@.len() implies (#[trigger] line@[i])@ == expected[i] by {
        assert(span_views(line@)[i] == line@[i]@);
    }
}

/// What is printed about an event: nothing where the format does not print it,
/// JSON where that is the format, and else its line, on standard error if and
/// only if it is an error.
pub proof fn events_are_printed_where_they_belong(
    format: &OutputFormat,
    event: &Evt,
    debug: &str,
    prints: bool,
    line: Vec<Span>,
    output: Printed,
)
    requires
        call_ensures(should_print_event, (format, event), prints),
        call_ensures(event_line, (event, debug), line),
        call_ensures(printed, (format, event, debug), output),
    ensures
        !prints <==> output is Nothing,
        prints && *format is Json <==> output is Json,
        output matches Printed::Line { error, spans } ==> {
            &&& error == (*event is Error)
            &&& spans@.len() == line@.len()
            &&& forall|i: int|
                0 <= i < spans@.len() ==> looks(
                    #[trigger] spans@[i],
                    line@[i].style,
                    line@[i].text@,
                )
        },
{
    if let Printed::Line { error, spans } = output {
        assert(span_views(spans@).len() == span_views(line@).len());
        assert forall|i: int| 0 <= i < spans@.len() implies looks(
            #[trigger] spans@[i],
            line@[i].style,
            line@[i].text@,
        ) by {
            assert(span_views(spans@)[i] == spans@[i]@);
            assert(span_views(line@)[i] == line@[i]@);
        }
    }
}

/// Where no format is chosen, output is minimal.
pub proof fn output_is_minimal_by_default(format: OutputFormat)
    requires
        call_ensures(<OutputFormat as Default>::default, (), format),
    ensures
        format == OutputFormat::Minimal,
{
}

}
