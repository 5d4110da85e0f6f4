//! The full-screen front-end: what a key press or an event does to its state.

use std::collections::VecDeque;

use vstd::prelude::*;
use vstd::std_specs::vecdeque::*;
use vstd::string::*;

use crate::audio;
use crate::events;
use crate::events::{Action, ActionView, AppEvent, EventView};
use crate::llm;
use crate::llm::{Message, MessageView};
use crate::text;

verus! {

/// The number of levels that the waveform shows.
pub const WAVEFORM_LEN: usize = 60;

/// Stands in place of an error once the user has asked to quit.
pub const QUIT: &'static str = "__quit__";

/// Where a turn of the conversation stands.
#[derive(Debug, Clone, Copy, PartialEq, Eq, Structural)]
pub enum Status {
    Idle,
    /// The microphone is active, or the final transcript is awaited.
    Listening,
    /// The language model is answering.
    Thinking,
    /// The answer is read aloud.
    Speaking,
}

impl Status {
    /// The name shown for a status.
    pub open spec fn name(self) -> Seq<char> {
        match self {
            Status::Idle => "IDLE"@,
            Status::Listening => "LISTENING"@,
            Status::Thinking => "THINKING"@,
            Status::Speaking => "SPEAKING"@,
        }
    }

    /// The name shown for this status.
    pub fn label(&self) -> (label: &'static str)
        ensures
            label@ == self.name(),
    {
        match self {
            Status::Idle => "IDLE",
            Status::Listening => "LISTENING",
            Status::Thinking => "THINKING",
            Status::Speaking => "SPEAKING",
        }
    }
}

/// A key on the keyboard.
#[derive(Debug, Clone, Copy, PartialEq, Eq, Structural)]
pub enum KeyCode {
    Char(char),
    Enter,
    Esc,
    Up,
    Down,
    Other,
}

/// What happened to a key.
#[derive(Debug, Clone, Copy, PartialEq, Eq, Structural)]
pub enum KeyKind {
    Press,
    Repeat,
    Release,
}

/// The state of the front-end.
#[derive(Debug)]
pub struct AppState {
    pub status: Status,
    /// The microphone is capturing, as opposed to a final transcript being
    /// awaited.
    pub recording: bool,
    pub conversation: Vec<Message>,
    /// What has been understood of the current utterance.
    pub current_transcript: String,
    /// What has come in of the current answer.
    pub current_response: String,
    /// The recent levels, oldest first, each by its bits.
    pub waveform: VecDeque<u32>,
    pub error: Option<String>,
    /// How many messages the conversation is scrolled back.
    pub scroll_offset: u16,
}

/// The model of an `AppState`.
#[verifier::ext_equal]
pub struct StateView {
    pub status: Status,
    pub recording: bool,
    pub conversation: Seq<MessageView>,
    pub transcript: Seq<char>,
    pub response: Seq<char>,
    pub waveform: Seq<u32>,
    pub error: Option<Seq<char>>,
    pub scroll: u16,
}

impl View for AppState {
    type V = StateView;

    open spec fn view(&self) -> StateView {
        StateView {
            status: self.status,
            recording: self.recording,
            conversation: llm::messages_view(self.conversation@),
            transcript: self.current_transcript@,
            response: self.current_response@,
            waveform: self.waveform@,
            error: text::option_view(self.error),
            scroll: self.scroll_offset,
        }
    }
}

/// The microphone records only while the status says that it listens.
pub open spec fn records_in_turn(status: Status, recording: bool) -> bool {
    recording ==> status == Status::Listening
}

impl StateView {
    /// The waveform is never longer or shorter than it began, and the microphone
    /// records only while the status says so.
    pub open spec fn well_formed(self) -> bool {
        &&& self.waveform.len() == WAVEFORM_LEN
        &&& records_in_turn(self.status, self.recording)
    }
}

/// The state in which the front-end begins.
pub open spec fn opening() -> StateView {
    StateView {
        status: Status::Idle,
        recording: false,
        conversation: Seq::empty(),
        transcript: Seq::empty(),
        response: Seq::empty(),
        waveform: Seq::new(WAVEFORM_LEN as nat, |i: int| 0u32),
        error: None,
        scroll: 0,
    }
}

impl Default for AppState {
    fn default() -> (state: AppState)
        ensures
            state@ == opening(),
            state@.well_formed(),
    {
        let mut waveform: VecDeque<u32> = VecDeque::new();
        let mut i: usize = 0;
        while i < WAVEFORM_LEN
            invariant
                i <= WAVEFORM_LEN,
                waveform@ =~= Seq::new(i as nat, |i: int| 0u32),
            decreases WAVEFORM_LEN - i,
        {
            waveform.push_back(0);
            i = i + 1;
        }
        let state = AppState {
            status: Status::Idle,
            recording: false,
            conversation: Vec::new(),
            current_transcript: String::new(),
            current_response: String::new(),
            waveform,
            error: None,
            scroll_offset: 0,
        };
        assert(state@ =~= opening());
        state
    }
}

impl AppState {
    /// The state in which the front-end begins, and the sample rate of its
    /// recordings, given the microphone's sample rate or why there is none.
    pub fn start(microphone: Result<u32, String>) -> (started: (AppState, u32))
        ensures
            match microphone {
                Ok(_) => started.0@ == opening(),
                Err(e) => started.0@ == (StateView {
                    error: Some("Mic unavailable: "@ + e@),
                    ..opening()
                }),
            },
            started.0@.well_formed(),
            started.1 == audio::rate_or_default(microphone),
    {
        let mut state = AppState::default();
        let rate = audio::recording_rate(&microphone);
        match microphone {
            Ok(_) => {},
            Err(e) => {
                state.error = Some("Mic unavailable: ".to_owned().concat(e.as_str()));
            },
        }
        (state, rate)
    }

    /// Whether the front-end is to end: the user has asked to, whatever is under
    /// way.
    pub fn should_quit(&self) -> (quit: bool)
        ensures
            quit == quits(self@),
    {
        match &self.error {
            Some(e) => text::same(e.as_str(), QUIT),
            None => false,
        }
    }
}

/// Whether the front-end ends in this state.
pub open spec fn quits(state: StateView) -> bool {
    state.error == Some(QUIT@)
}

/// Whether a key starts and stops recording.
pub open spec fn is_talk_key(code: KeyCode) -> bool {
    code == KeyCode::Char(' ') || code == KeyCode::Enter
}

/// The state and the action after a key. `microphone` tells whether there is
/// one.
pub open spec fn key_pressed(state: StateView, code: KeyCode, microphone: bool) -> (
    StateView,
    ActionView,
) {
    if code == KeyCode::Char('q') || code == KeyCode::Esc {
        (StateView { error: Some(QUIT@), ..state }, ActionView::Idle)
    } else if code == KeyCode::Char('c') {
        (
            StateView {
                conversation: Seq::empty(),
                error: None,
                transcript: Seq::empty(),
                response: Seq::empty(),
                ..state
            },
            ActionView::Idle,
        )
    } else if code == KeyCode::Up && state.scroll < u16::MAX {
        (StateView { scroll: (state.scroll + 1) as u16, ..state }, ActionView::Idle)
    } else if code == KeyCode::Down && state.scroll > 0 {
        (StateView { scroll: (state.scroll - 1) as u16, ..state }, ActionView::Idle)
    } else if is_talk_key(code) && state.status == Status::Idle {
        if microphone {
            (state, ActionView::StartMic)
        } else {
            (
                StateView { error: Some("No microphone available"@), ..state },
                ActionView::Idle,
            )
        }
    } else if is_talk_key(code) && state.status == Status::Listening && state.recording
        && microphone {
        (StateView { recording: false, ..state }, ActionView::StopMic)
    } else {
        (state, ActionView::Idle)
    }
}

/// Takes a key. While a turn is under way, the talk keys do nothing but stop a
/// recording.
pub fn handle_key(state: &mut AppState, code: KeyCode, microphone: bool) -> (action: Action)
    ensures
        (final(state)@, action@) == key_pressed(old(state)@, code, microphone),
        old(state)@.well_formed() ==> final(state)@.well_formed(),
{
    match code {
        KeyCode::Esc => {
            state.error = Some(QUIT.to_owned());
            Action::Idle
        },
        KeyCode::Up => {
            state.scroll_offset = state.scroll_offset.saturating_add(1);
            Action::Idle
        },
        KeyCode::Down => {
            state.scroll_offset = state.scroll_offset.saturating_sub(1);
            Action::Idle
        },
        KeyCode::Enter => handle_talk(state, microphone),
        KeyCode::Char(c) => if c == 'q' {
            state.error = Some(QUIT.to_owned());
            Action::Idle
        } else if c == 'c' {
            state.conversation.clear();
            state.error = None;
            state.current_transcript = String::new();
            state.current_response = String::new();
            assert(state@.conversation =~= Seq::<MessageView>::empty());
            Action::Idle
        } else if c == ' ' {
            handle_talk(state, microphone)
        } else {
            Action::Idle
        },
        KeyCode::Other => Action::Idle,
    }
}

fn handle_talk(state: &mut AppState, microphone: bool) -> (action: Action)
    ensures
        (final(state)@, action@) == key_pressed(old(state)@, KeyCode::Enter, microphone),
{
    match state.status {
        Status::Idle => if microphone {
            Action::StartMic
        } else {
            state.error = Some("No microphone available".to_owned());
            Action::Idle
        },
        Status::Listening => if state.recording && microphone {
            state.recording = false;
            Action::StopMic
        } else {
            Action::Idle
        },
        Status::Thinking => Action::Idle,
        Status::Speaking => Action::Idle,
    }
}

/// Takes what happened to a key: a release does nothing, a repeat is as a press.
pub fn handle_key_event(
    state: &mut AppState,
    kind: KeyKind,
    code: KeyCode,
    microphone: bool,
) -> (action: Action)
    ensures
        (final(state)@, action@) == if kind == KeyKind::Release {
            (old(state)@, ActionView::Idle)
        } else {
            key_pressed(old(state)@, code, microphone)
        },
        old(state)@.well_formed() ==> final(state)@.well_formed(),
{
    if kind == KeyKind::Release {
        Action::Idle
    } else {
        handle_key(state, code, microphone)
    }
}

/// The state and the action after the microphone was told to start.
pub open spec fn mic_answered(
    state: StateView,
    outcome: Result<(), String>,
    api_key: Seq<char>,
    sample_rate: u32,
) -> (StateView, ActionView) {
    match outcome {
        Ok(_) => (
            StateView {
                status: Status::Listening,
                recording: true,
                transcript: Seq::empty(),
                error: None,
                ..state
            },
            ActionView::Transcribe { api_key, sample_rate },
        ),
        Err(e) => (StateView { error: Some("Mic error: "@ + e@), ..state }, ActionView::Idle),
    }
}

/// Takes the outcome of starting the microphone: a recording is transcribed; a
/// failure is shown.
pub fn handle_mic_outcome(
    state: &mut AppState,
    outcome: Result<(), String>,
    api_key: &str,
    sample_rate: u32,
) -> (action: Action)
    ensures
        (final(state)@, action@) == mic_answered(old(state)@, outcome, api_key@, sample_rate),
        old(state)@.well_formed() ==> final(state)@.well_formed(),
{
    match outcome {
        Ok(_) => {
            state.status = Status::Listening;
            state.recording = true;
            state.current_transcript = String::new();
            state.error = None;
            Action::Transcribe { api_key: api_key.to_owned(), sample_rate }
        },
        Err(e) => {
            state.error = Some("Mic error: ".to_owned().concat(e.as_str()));
            Action::Idle
        },
    }
}

/// The state and the action after an event. Where an event ends the listening, a
/// recording ends with it.
pub open spec fn event_seen(state: StateView, event: EventView) -> (StateView, ActionView) {
    match event {
        EventView::AudioLevel(level) => (
            StateView {
                waveform: if state.waveform.len() > 0 {
                    state.waveform.drop_first().push(level)
                } else {
                    seq![level]
                },
                ..state
            },
            ActionView::Idle,
        ),
        EventView::TranscriptPartial(t) => (
            StateView { transcript: t, ..state },
            ActionView::Idle,
        ),
        EventView::TranscriptFinal(t) => if t.len() == 0 {
            (
                StateView {
                    transcript: Seq::empty(),
                    status: Status::Idle,
                    recording: false,
                    ..state
                },
                events::stopping(state.recording),
            )
        } else {
            let conversation = state.conversation.push(MessageView::User(t));
            (
                StateView {
                    transcript: Seq::empty(),
                    conversation,
                    status: Status::Thinking,
                    recording: false,
                    scroll: 0,
                    ..state
                },
                ActionView::Complete { history: conversation, stop_mic: state.recording },
            )
        },
        EventView::LlmToken(t) => (
            StateView { response: state.response + t, ..state },
            ActionView::Idle,
        ),
        EventView::LlmComplete => if state.response.len() == 0 {
            (
                StateView { status: Status::Idle, recording: false, ..state },
                events::stopping(state.recording),
            )
        } else {
            (
                StateView {
                    response: Seq::empty(),
                    conversation: state.conversation.push(MessageView::Assistant(state.response)),
                    status: Status::Speaking,
                    recording: false,
                    ..state
                },
                ActionView::Speak { text: state.response, stop_mic: state.recording },
            )
        },
        EventView::TtsComplete => (
            StateView { status: Status::Idle, recording: false, ..state },
            events::stopping(state.recording),
        ),
        EventView::Error(e) => (
            StateView { error: Some(e), status: Status::Idle, recording: false, ..state },
            events::stopping(state.recording),
        ),
    }
}

/// Takes an event of a background task.
pub fn handle_app_event(state: &mut AppState, event: AppEvent) -> (action: Action)
    ensures
        (final(state)@, action@) == event_seen(old(state)@, event@),
        old(state)@.well_formed() ==> final(state)@.well_formed(),
{
    let recording = state.recording;
    match event {
        AppEvent::AudioLevel(level) => {
            let _ = state.waveform.pop_front();
            state.waveform.push_back(level);
            assert(state@.waveform =~= event_seen(old(state)@, event@).0.waveform);
            Action::Idle
        },
        AppEvent::TranscriptPartial(t) => {
            state.current_transcript = t;
            Action::Idle
        },
        AppEvent::TranscriptFinal(t) => {
            state.current_transcript = String::new();
            state.recording = false;
            if t.as_str().is_empty() {
                state.status = Status::Idle;
                return events::stop_mic(recording);
            }
            state.conversation.push(Message::User(t));
            state.status = Status::Thinking;
            state.scroll_offset = 0;
            let history = llm::copy_history(&state.conversation);
            assert(llm::messages_view(history@) =~= old(state)@.conversation.push(
                MessageView::User(t@),
            ));
            Action::Complete { history, stop_mic: recording }
        },
        AppEvent::LlmToken(t) => {
            state.current_response.append(t.as_str());
            Action::Idle
        },
        AppEvent::LlmComplete => {
            let mut response = String::new();
            std::mem::swap(&mut response, &mut state.current_response);
            state.recording = false;
            if response.as_str().is_empty() {
                state.status = Status::Idle;
                assert(state@.response =~= old(state)@.response);
                return events::stop_mic(recording);
            }
            state.conversation.push(Message::Assistant(response.clone()));
            state.status = Status::Speaking;
            assert(state@.conversation =~= old(state)@.conversation.push(
                MessageView::Assistant(response@),
            ));
            Action::Speak { text: response, stop_mic: recording }
        },
        AppEvent::TtsComplete => {
            state.status = Status::Idle;
            state.recording = false;
            events::stop_mic(recording)
        },
        AppEvent::Error(e) => {
            state.error = Some(e);
            state.status = Status::Idle;
            state.recording = false;
            events::stop_mic(recording)
        },
    }
}

} // verus!
