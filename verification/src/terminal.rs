//! The line-based front-end: what a line of input or an event does to its state,
//! and what is printed.

use vstd::prelude::*;
use vstd::string::*;
use vstd::utf8::*;

use crate::events;
use crate::events::{Action, ActionView, AppEvent, EventView};
use crate::llm;
use crate::llm::{Message, MessageView};
use crate::text;
use crate::tui;
use crate::tui::Status;

verus! {

pub const RESET: &'static str = "\x1b[0m";

pub const CYAN: &'static str = "\x1b[36m";

pub const YELLOW: &'static str = "\x1b[33m";

pub const MAGENTA: &'static str = "\x1b[35m";

pub const GREEN: &'static str = "\x1b[32m";

pub const RED: &'static str = "\x1b[31m";

pub const DIM: &'static str = "\x1b[2m";

pub const BOLD: &'static str = "\x1b[1m";

/// Clears the current line and returns to its start.
pub const CLEAR_LINE: &'static str = "\x1b[2K\r";

/// The state of the front-end.
#[derive(Debug)]
pub struct State {
    pub status: Status,
    pub recording: bool,
    pub conversation: Vec<Message>,
    pub current_response: String,
}

/// The model of a `State`.
#[verifier::ext_equal]
pub struct TerminalView {
    pub status: Status,
    pub recording: bool,
    pub conversation: Seq<MessageView>,
    pub response: Seq<char>,
}

impl View for State {
    type V = TerminalView;

    open spec fn view(&self) -> TerminalView {
        TerminalView {
            status: self.status,
            recording: self.recording,
            conversation: llm::messages_view(self.conversation@),
            response: self.current_response@,
        }
    }
}

impl TerminalView {
    /// The microphone records only while the status says that it listens.
    pub open spec fn well_formed(self) -> bool {
        tui::records_in_turn(self.status, self.recording)
    }
}

impl State {
    /// The state in which the front-end begins.
    pub fn new() -> (state: State)
        ensures
            state@ == (TerminalView {
                status: Status::Idle,
                recording: false,
                conversation: Seq::empty(),
                response: Seq::empty(),
            }),
            state@.well_formed(),
    {
        let state = State {
            status: Status::Idle,
            recording: false,
            conversation: Vec::new(),
            current_response: String::new(),
        };
        assert(state@.conversation =~= Seq::<MessageView>::empty());
        state
    }
}

/// What the front-end answers: what is printed at once, what is to be done, and
/// whether a prompt is printed then.
#[derive(Debug)]
pub struct Reply {
    pub output: String,
    pub action: Action,
    pub prompt: bool,
}

/// The model of a `Reply`.
#[verifier::ext_equal]
pub struct ReplyView {
    pub output: Seq<char>,
    pub action: ActionView,
    pub prompt: bool,
}

impl View for Reply {
    type V = ReplyView;

    open spec fn view(&self) -> ReplyView {
        ReplyView { output: self.output@, action: self.action@, prompt: self.prompt }
    }
}

/// A text in a colour.
pub open spec fn painted(color: Seq<char>, text: Seq<char>) -> Seq<char> {
    color + text + RESET@
}

/// A line in a colour.
pub open spec fn painted_line(color: Seq<char>, text: Seq<char>) -> Seq<char> {
    painted(color, text) + "\n"@
}

fn paint(color: &str, text: &str) -> (output: String)
    ensures
        output@ == painted(color@, text@),
{
    color.to_owned().concat(text).concat(RESET)
}

fn paint_line(color: &str, text: &str) -> (output: String)
    ensures
        output@ == painted_line(color@, text@),
{
    paint(color, text).concat("\n")
}

fn say(output: String, prompt: bool) -> (reply: Reply)
    ensures
        reply@ == (ReplyView { output: output@, action: ActionView::Idle, prompt }),
{
    Reply { output, action: Action::Idle, prompt }
}

/// What a line of input asks for.
#[derive(Debug, Clone, Copy, PartialEq, Eq, Structural)]
pub enum Command {
    Quit,
    Clear,
    /// Start or stop recording: any other line.
    Talk,
}

/// What a word asks for.
pub open spec fn command_in(word: Seq<char>) -> Command {
    if word == "q"@ || word == "quit"@ || word == "exit"@ {
        Command::Quit
    } else if word == "c"@ || word == "clear"@ {
        Command::Clear
    } else {
        Command::Talk
    }
}

/// What a word, in lower case and without surrounding white space, asks for.
pub fn word_command(word: &str) -> (command: Command)
    ensures
        command == command_in(word@),
{
    if text::same(word, "q") || text::same(word, "quit") || text::same(word, "exit") {
        Command::Quit
    } else if text::same(word, "c") || text::same(word, "clear") {
        Command::Clear
    } else {
        Command::Talk
    }
}

/// What a line of input asks for, whatever its case and the white space around
/// it.
pub fn read_command(line: &str) -> (command: Command)
    ensures
        command == command_in(text::lowercased(text::trim(line@))),
        is_ascii_chars(text::trim(line@)) ==> command == command_in(
            text::trim(line@).map_values(|c: char| text::ascii_lower(c)),
        ),
{
    let word = text::trim_text(line);
    let lower = text::to_lowercase(word.as_str());
    word_command(lower.as_str())
}

/// The state and the reply after the talk command. `microphone` tells whether
/// there is one.
pub open spec fn talked(state: TerminalView, microphone: bool) -> (TerminalView, ReplyView) {
    let nothing = ReplyView { output: Seq::empty(), action: ActionView::Idle, prompt: false };
    if state.status == Status::Idle {
        if microphone {
            (state, ReplyView { action: ActionView::StartMic, ..nothing })
        } else {
            (
                state,
                ReplyView {
                    output: painted_line(RED@, "  no microphone"@),
                    prompt: true,
                    ..nothing
                },
            )
        }
    } else if state.status == Status::Listening && state.recording && microphone {
        (
            TerminalView { recording: false, ..state },
            ReplyView {
                output: CLEAR_LINE@ + painted(DIM@, "  processing..."@),
                action: ActionView::StopMic,
                ..nothing
            },
        )
    } else {
        (state, nothing)
    }
}

/// Takes the talk command. It is ignored while the answer is awaited or read
/// aloud.
pub fn handle_enter(state: &mut State, microphone: bool) -> (reply: Reply)
    ensures
        (final(state)@, reply@) == talked(old(state)@, microphone),
        old(state)@.well_formed() ==> final(state)@.well_formed(),
{
    match state.status {
        Status::Idle => if microphone {
            Reply { output: String::new(), action: Action::StartMic, prompt: false }
        } else {
            say(paint_line(RED, "  no microphone"), true)
        },
        Status::Listening => if state.recording && microphone {
            state.recording = false;
            let text = paint(DIM, "  processing...");
            Reply {
                output: CLEAR_LINE.to_owned().concat(text.as_str()),
                action: Action::StopMic,
                prompt: false,
            }
        } else {
            say(String::new(), false)
        },
        Status::Thinking => say(String::new(), false),
        Status::Speaking => say(String::new(), false),
    }
}

/// What is printed when recording begins.
pub open spec fn listening_text() -> Seq<char> {
    "\n"@ + painted(YELLOW@ + BOLD@, "  ◉ listening"@) + painted(DIM@, "  (ENTER to stop)"@) + "\n"@
}

/// The state and the reply after the microphone was told to start.
pub open spec fn mic_answered(
    state: TerminalView,
    outcome: Result<(), String>,
    api_key: Seq<char>,
    sample_rate: u32,
) -> (TerminalView, ReplyView) {
    match outcome {
        Ok(_) => (
            TerminalView { status: Status::Listening, recording: true, ..state },
            ReplyView {
                output: listening_text(),
                action: ActionView::Transcribe { api_key, sample_rate },
                prompt: false,
            },
        ),
        Err(e) => (
            state,
            ReplyView {
                output: painted_line(RED@, "  mic error: "@ + e@),
                action: ActionView::Idle,
                prompt: true,
            },
        ),
    }
}

/// Takes the outcome of starting the microphone: a recording is transcribed; a
/// failure is printed.
pub fn handle_mic_outcome(
    state: &mut State,
    outcome: Result<(), String>,
    api_key: &str,
    sample_rate: u32,
) -> (reply: Reply)
    ensures
        (final(state)@, reply@) == mic_answered(old(state)@, outcome, api_key@, sample_rate),
        old(state)@.well_formed() ==> final(state)@.well_formed(),
{
    match outcome {
        Ok(_) => {
            state.status = Status::Listening;
            state.recording = true;
            let color = YELLOW.to_owned().concat(BOLD);
            let title = paint(color.as_str(), "  ◉ listening");
            let hint = paint(DIM, "  (ENTER to stop)");
            Reply {
                output: "\n".to_owned().concat(title.as_str()).concat(hint.as_str()).concat("\n"),
                action: Action::Transcribe { api_key: api_key.to_owned(), sample_rate },
                prompt: false,
            }
        },
        Err(e) => {
            let text = "  mic error: ".to_owned().concat(e.as_str());
            say(paint_line(RED, text.as_str()), true)
        },
    }
}

/// What is printed when an utterance is understood and the answer begins.
pub open spec fn answering_text(utterance: Seq<char>) -> Seq<char> {
    CLEAR_LINE@ + painted_line(DIM@ + YELLOW@, "  you: "@ + utterance) + "\n"@ + painted(
        MAGENTA@ + BOLD@,
        "  ◈ brainiac:"@,
    ) + " "@
}

/// The state and the reply after an event. Where an event ends the listening, a
/// recording ends with it.
pub open spec fn event_shown(state: TerminalView, event: EventView) -> (TerminalView, ReplyView) {
    let nothing = ReplyView { output: Seq::empty(), action: ActionView::Idle, prompt: false };
    match event {
        EventView::AudioLevel(_) => (state, nothing),
        EventView::TranscriptPartial(t) => (
            state,
            ReplyView { output: CLEAR_LINE@ + painted(YELLOW@, "  ◉ "@ + t), ..nothing },
        ),
        EventView::TranscriptFinal(t) => if t.len() == 0 {
            (
                TerminalView { status: Status::Idle, recording: false, ..state },
                ReplyView {
                    output: CLEAR_LINE@ + painted_line(DIM@, "  (no speech detected)"@),
                    action: events::stopping(state.recording),
                    prompt: true,
                },
            )
        } else {
            let conversation = state.conversation.push(MessageView::User(t));
            (
                TerminalView { conversation, status: Status::Thinking, recording: false, ..state },
                ReplyView {
                    output: answering_text(t),
                    action: ActionView::Complete {
                        history: conversation,
                        stop_mic: state.recording,
                    },
                    ..nothing
                },
            )
        },
        EventView::LlmToken(t) => (
            TerminalView { response: state.response + t, ..state },
            ReplyView { output: painted(CYAN@, t), ..nothing },
        ),
        EventView::LlmComplete => if state.response.len() == 0 {
            (
                TerminalView { status: Status::Idle, recording: false, ..state },
                ReplyView {
                    output: "\n"@,
                    action: events::stopping(state.recording),
                    prompt: true,
                },
            )
        } else {
            (
                TerminalView {
                    response: Seq::empty(),
                    conversation: state.conversation.push(MessageView::Assistant(state.response)),
                    status: Status::Speaking,
                    recording: false,
                    ..state
                },
                ReplyView {
                    output: "\n"@ + painted_line(DIM@, "  ◈ speaking..."@),
                    action: ActionView::Speak { text: state.response, stop_mic: state.recording },
                    ..nothing
                },
            )
        },
        EventView::TtsComplete => (
            TerminalView { status: Status::Idle, recording: false, ..state },
            ReplyView { action: events::stopping(state.recording), prompt: true, ..nothing },
        ),
        EventView::Error(e) => (
            TerminalView { status: Status::Idle, recording: false, ..state },
            ReplyView {
                output: CLEAR_LINE@ + painted_line(RED@, "  error: "@ + e),
                action: events::stopping(state.recording),
                prompt: true,
            },
        ),
    }
}

/// Takes an event of a background task.
pub fn handle_event(state: &mut State, event: AppEvent) -> (reply: Reply)
    ensures
        (final(state)@, reply@) == event_shown(old(state)@, event@),
        old(state)@.well_formed() ==> final(state)@.well_formed(),
{
    let recording = state.recording;
    match event {
        AppEvent::AudioLevel(_) => say(String::new(), false),
        AppEvent::TranscriptPartial(t) => {
            let heard = "  ◉ ".to_owned().concat(t.as_str());
            let text = paint(YELLOW, heard.as_str());
            say(CLEAR_LINE.to_owned().concat(text.as_str()), false)
        },
        AppEvent::TranscriptFinal(t) => {
            state.recording = false;
            if t.as_str().is_empty() {
                state.status = Status::Idle;
                let text = paint_line(DIM, "  (no speech detected)");
                return Reply {
                    output: CLEAR_LINE.to_owned().concat(text.as_str()),
                    action: events::stop_mic(recording),
                    prompt: true,
                };
            }
            let heard = "  you: ".to_owned().concat(t.as_str());
            let dim_yellow = DIM.to_owned().concat(YELLOW);
            let echo = paint_line(dim_yellow.as_str(), heard.as_str());
            let bold_magenta = MAGENTA.to_owned().concat(BOLD);
            let name = paint(bold_magenta.as_str(), "  ◈ brainiac:");
            let output = CLEAR_LINE.to_owned().concat(echo.as_str()).concat("\n").concat(
                name.as_str(),
            ).concat(" ");
            state.conversation.push(Message::User(t));
            state.status = Status::Thinking;
            let history = llm::copy_history(&state.conversation);
            assert(llm::messages_view(history@) =~= old(state)@.conversation.push(
                MessageView::User(t@),
            ));
            Reply {
                output,
                action: Action::Complete { history, stop_mic: recording },
                prompt: false,
            }
        },
        AppEvent::LlmToken(t) => {
            state.current_response.append(t.as_str());
            say(paint(CYAN, t.as_str()), false)
        },
        AppEvent::LlmComplete => {
            let mut response = String::new();
            std::mem::swap(&mut response, &mut state.current_response);
            state.recording = false;
            if response.as_str().is_empty() {
                state.status = Status::Idle;
                assert(state@.response =~= old(state)@.response);
                return Reply {
                    output: "\n".to_owned(),
                    action: events::stop_mic(recording),
                    prompt: true,
                };
            }
            state.conversation.push(Message::Assistant(response.clone()));
            state.status = Status::Speaking;
            assert(state@.conversation =~= old(state)@.conversation.push(
                MessageView::Assistant(response@),
            ));
            let text = paint_line(DIM, "  ◈ speaking...");
            Reply {
                output: "\n".to_owned().concat(text.as_str()),
                action: Action::Speak { text: response, stop_mic: recording },
                prompt: false,
            }
        },
        AppEvent::TtsComplete => {
            state.status = Status::Idle;
            state.recording = false;
            Reply { output: String::new(), action: events::stop_mic(recording), prompt: true }
        },
        AppEvent::Error(e) => {
            state.status = Status::Idle;
            state.recording = false;
            let told = "  error: ".to_owned().concat(e.as_str());
            let text = paint_line(RED, told.as_str());
            Reply {
                output: CLEAR_LINE.to_owned().concat(text.as_str()),
                action: events::stop_mic(recording),
                prompt: true,
            }
        },
    }
}

/// The state and the reply after a command other than to quit. Clearing drops the
/// conversation and what has come of an answer.
pub open spec fn obeyed(state: TerminalView, command: Command, microphone: bool) -> (
    TerminalView,
    ReplyView,
) {
    if command == Command::Clear {
        (
            TerminalView { conversation: Seq::empty(), response: Seq::empty(), ..state },
            ReplyView {
                output: painted_line(DIM@, "  conversation cleared"@),
                action: ActionView::Idle,
                prompt: true,
            },
        )
    } else {
        talked(state, microphone)
    }
}

/// Takes a command. There is no reply to the command to quit: the front-end
/// ends.
pub fn handle_command(state: &mut State, command: Command, microphone: bool) -> (reply: Option<
    Reply,
>)
    ensures
        match reply {
            Some(r) => command != Command::Quit && (final(state)@, r@) == obeyed(
                old(state)@,
                command,
                microphone,
            ),
            None => command == Command::Quit && final(state)@ == old(state)@,
        },
        old(state)@.well_formed() ==> final(state)@.well_formed(),
{
    match command {
        Command::Quit => None,
        Command::Clear => {
            state.conversation.clear();
            state.current_response = String::new();
            assert(state@.conversation =~= Seq::<MessageView>::empty());
            Some(say(paint_line(DIM, "  conversation cleared"), true))
        },
        Command::Talk => Some(handle_enter(state, microphone)),
    }
}

/// Takes a line of input.
pub fn handle_line(state: &mut State, line: &str, microphone: bool) -> (reply: Option<Reply>)
    ensures
        ({
            let command = command_in(text::lowercased(text::trim(line@)));
            match reply {
                Some(r) => command != Command::Quit && (final(state)@, r@) == obeyed(
                    old(state)@,
                    command,
                    microphone,
                ),
                None => command == Command::Quit && final(state)@ == old(state)@,
            }
        }),
        is_ascii_chars(text::trim(line@)) ==> command_in(text::lowercased(text::trim(line@)))
            == command_in(text::trim(line@).map_values(|c: char| text::ascii_lower(c))),
        old(state)@.well_formed() ==> final(state)@.well_formed(),
{
    let command = read_command(line);
    handle_command(state, command, microphone)
}

/// What is printed when the front-end ends.
pub fn farewell() -> (output: String)
    ensures
        output@ == "\n"@ + painted_line(DIM@, "  brainiac offline"@),
{
    let text = paint_line(DIM, "  brainiac offline");
    "\n".to_owned().concat(text.as_str())
}

/// What is printed of a microphone, or of why there is none.
pub fn mic_text(microphone: &Result<u32, String>) -> (output: String)
    ensures
        output@ == match microphone {
            Ok(rate) => painted_line(
                DIM@,
                "  mic ready @ "@ + text::decimal(*rate as nat) + "Hz"@,
            ),
            Err(e) => painted_line(RED@, "  mic unavailable: "@ + e@),
        },
{
    match microphone {
        Ok(rate) => {
            let numeral = text::decimal_of(*rate);
            let text = "  mic ready @ ".to_owned().concat(numeral.as_str()).concat("Hz");
            paint_line(DIM, text.as_str())
        },
        Err(e) => {
            let text = "  mic unavailable: ".to_owned().concat(e.as_str());
            paint_line(RED, text.as_str())
        },
    }
}

/// The prompt.
pub fn prompt() -> (output: String)
    ensures
        output@ == painted(GREEN@, "  ▸ "@),
{
    paint(GREEN, "  ▸ ")
}

/// What is printed when the front-end begins.
pub open spec fn banner_text() -> Seq<char> {
    "\n"@ + painted(CYAN@ + BOLD@, "  ◈ BRAINIAC"@) + painted_line(
        DIM@,
        " v0.1 — DeepSeek + Deepgram"@,
    ) + painted_line(DIM@, "  ─────────────────────────────────────"@) + painted_line(
        DIM@,
        "  ENTER  start/stop listening"@,
    ) + painted_line(DIM@, "  c      clear conversation"@) + painted_line(DIM@, "  q      quit"@)
        + painted_line(DIM@, "  ─────────────────────────────────────"@) + "\n"@
}

/// What is printed when the front-end begins.
pub fn banner() -> (output: String)
    ensures
        output@ == banner_text(),
{
    let bold_cyan = CYAN.to_owned().concat(BOLD);
    let name = paint(bold_cyan.as_str(), "  ◈ BRAINIAC");
    let version = paint_line(DIM, " v0.1 — DeepSeek + Deepgram");
    let rule = paint_line(DIM, "  ─────────────────────────────────────");
    let talk = paint_line(DIM, "  ENTER  start/stop listening");
    let clear = paint_line(DIM, "  c      clear conversation");
    let quit = paint_line(DIM, "  q      quit");
    "\n".to_owned().concat(name.as_str()).concat(version.as_str()).concat(rule.as_str()).concat(
        talk.as_str(),
    ).concat(clear.as_str()).concat(quit.as_str()).concat(rule.as_str()).concat("\n")
}

/// White space around a word and the case of its letters do not matter: a line is
/// the command that its word is in lower case.
pub proof fn law_commands_ignore_case_and_space(
    line: &str,
    command: Command,
    before: Seq<char>,
    word: Seq<char>,
    after: Seq<char>,
    lower: Seq<char>,
)
    requires
        call_ensures(read_command, (line,), command),
        line@ == before + word + after,
        forall|i: int| 0 <= i < before.len() ==> text::is_space(#[trigger] before[i]),
        forall|i: int| 0 <= i < after.len() ==> text::is_space(#[trigger] after[i]),
        word.len() > 0 ==> !text::is_space(word[0]) && !text::is_space(word[word.len() - 1]),
        is_ascii_chars(word),
        lower.len() == word.len(),
        forall|i: int|
            0 <= i < word.len() ==> #[trigger] lower[i] == if 'A' <= word[i] <= 'Z' {
                (word[i] as u32 + 32) as char
            } else {
                word[i]
            },
    ensures
        command == Command::Quit <==> lower == "q"@ || lower == "quit"@ || lower == "exit"@,
        command == Command::Clear <==> lower == "c"@ || lower == "clear"@,
{
    text::law_trim_keeps_what_stands_between(before, word, after);
    assert(word.map_values(|c: char| text::ascii_lower(c)) =~= lower);
    reveal_strlit("q");
    reveal_strlit("quit");
    reveal_strlit("exit");
    reveal_strlit("c");
    reveal_strlit("clear");
    assert("q"@[0] == 'q' && "c"@[0] == 'c' && "quit"@[0] == 'q' && "exit"@[0] == 'e');
    assert("quit"@.len() == 4 && "exit"@.len() == 4 && "clear"@.len() == 5);
}

} // verus!
