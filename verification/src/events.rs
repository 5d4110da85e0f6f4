//! The messages between the background tasks and the front-ends.

use vstd::prelude::*;

use crate::llm;
use crate::llm::{Message, MessageView};

verus! {

/// What a background task reports.
#[derive(Debug)]
pub enum AppEvent {
    /// Microphone level for the waveform, fired only while recording: the bits of
    /// a single-precision number in IEEE 754 format.
    AudioLevel(u32),
    /// Speech recognition: what has been understood so far.
    TranscriptPartial(String),
    /// Speech recognition: the finished utterance.
    TranscriptFinal(String),
    /// Language model: the next piece of the answer.
    LlmToken(String),
    /// Language model: the answer is complete.
    LlmComplete,
    /// Speech synthesis: playback has ended.
    TtsComplete,
    /// A failure to be shown.
    Error(String),
}

impl Clone for AppEvent {
    fn clone(&self) -> (copy: AppEvent)
        ensures
            copy == *self,
    {
        match self {
            AppEvent::AudioLevel(level) => AppEvent::AudioLevel(*level),
            AppEvent::TranscriptPartial(t) => AppEvent::TranscriptPartial(t.clone()),
            AppEvent::TranscriptFinal(t) => AppEvent::TranscriptFinal(t.clone()),
            AppEvent::LlmToken(t) => AppEvent::LlmToken(t.clone()),
            AppEvent::LlmComplete => AppEvent::LlmComplete,
            AppEvent::TtsComplete => AppEvent::TtsComplete,
            AppEvent::Error(e) => AppEvent::Error(e.clone()),
        }
    }
}

/// The model of an `AppEvent`.
#[verifier::ext_equal]
pub enum EventView {
    AudioLevel(u32),
    TranscriptPartial(Seq<char>),
    TranscriptFinal(Seq<char>),
    LlmToken(Seq<char>),
    LlmComplete,
    TtsComplete,
    Error(Seq<char>),
}

impl View for AppEvent {
    type V = EventView;

    open spec fn view(&self) -> EventView {
        match self {
            AppEvent::AudioLevel(level) => EventView::AudioLevel(*level),
            AppEvent::TranscriptPartial(t) => EventView::TranscriptPartial(t@),
            AppEvent::TranscriptFinal(t) => EventView::TranscriptFinal(t@),
            AppEvent::LlmToken(t) => EventView::LlmToken(t@),
            AppEvent::LlmComplete => EventView::LlmComplete,
            AppEvent::TtsComplete => EventView::TtsComplete,
            AppEvent::Error(e) => EventView::Error(e@),
        }
    }
}

/// The models of a list of events.
pub open spec fn events_view(events: Seq<AppEvent>) -> Seq<EventView> {
    events.map_values(|e: AppEvent| e@)
}

/// What a front-end is to do next.
#[derive(Debug)]
pub enum Action {
    /// Nothing.
    Idle,
    /// Start the microphone and report the outcome.
    StartMic,
    /// Stop the microphone.
    StopMic,
    /// Stream the recorded audio to speech recognition.
    Transcribe { api_key: String, sample_rate: u32 },
    /// Ask the language model for the answer to this conversation. The microphone
    /// is stopped first where `stop_mic` says so.
    Complete { history: Vec<Message>, stop_mic: bool },
    /// Read this text aloud. The microphone is stopped first where `stop_mic` says
    /// so.
    Speak { text: String, stop_mic: bool },
}

/// The model of an `Action`.
#[verifier::ext_equal]
pub enum ActionView {
    Idle,
    StartMic,
    StopMic,
    Transcribe { api_key: Seq<char>, sample_rate: u32 },
    Complete { history: Seq<MessageView>, stop_mic: bool },
    Speak { text: Seq<char>, stop_mic: bool },
}

impl ActionView {
    /// Whether the microphone is stopped.
    pub open spec fn stops_mic(self) -> bool {
        match self {
            ActionView::StopMic => true,
            ActionView::Complete { stop_mic, .. } => stop_mic,
            ActionView::Speak { stop_mic, .. } => stop_mic,
            _ => false,
        }
    }
}

impl View for Action {
    type V = ActionView;

    open spec fn view(&self) -> ActionView {
        match self {
            Action::Idle => ActionView::Idle,
            Action::StartMic => ActionView::StartMic,
            Action::StopMic => ActionView::StopMic,
            Action::Transcribe { api_key, sample_rate } => ActionView::Transcribe {
                api_key: api_key@,
                sample_rate: *sample_rate,
            },
            Action::Complete { history, stop_mic } => ActionView::Complete {
                history: llm::messages_view(history@),
                stop_mic: *stop_mic,
            },
            Action::Speak { text, stop_mic } => ActionView::Speak {
                text: text@,
                stop_mic: *stop_mic,
            },
        }
    }
}

/// Stopping the microphone where it records, and nothing else.
pub open spec fn stopping(recording: bool) -> ActionView {
    if recording {
        ActionView::StopMic
    } else {
        ActionView::Idle
    }
}

pub(crate) fn stop_mic(recording: bool) -> (action: Action)
    ensures
        action@ == stopping(recording),
{
    if recording {
        Action::StopMic
    } else {
        Action::Idle
    }
}

/// The models of events stand in their order, one for each.
pub proof fn law_models_of_events_keep_their_order(events: Seq<AppEvent>, i: int)
    ensures
        events_view(events).len() == events.len(),
        0 <= i < events.len() ==> events_view(events)[i] == events[i]@,
{
}

} // verus!
