//! What holds of the program as a whole: of every turn of the conversation, of
//! both front-ends, and of the way from a streamed answer to the speech.

use vstd::prelude::*;

use crate::events;
use crate::events::{Action, ActionView, AppEvent, EventView};
use crate::llm::{Message, MessageView};
use crate::render;
use crate::sse;
use crate::sse::StreamView;
use crate::terminal;
use crate::terminal::{Command, Reply, ReplyView, State, TerminalView};
use crate::tui;
use crate::tui::{AppState, KeyCode, StateView, Status};

verus! {

/// What the two front-ends have in common.
pub open spec fn shared(state: StateView) -> TerminalView {
    TerminalView {
        status: state.status,
        recording: state.recording,
        conversation: state.conversation,
        response: state.response,
    }
}

/// The state of the full-screen front-end after these events.
pub open spec fn after_events(state: StateView, events: Seq<EventView>) -> StateView
    decreases events.len(),
{
    if events.len() == 0 {
        state
    } else {
        tui::event_seen(after_events(state, events.drop_last()), events.last()).0
    }
}

/// The events for these pieces of an answer.
pub open spec fn tokens(pieces: Seq<Seq<char>>) -> Seq<EventView> {
    pieces.map_values(|p: Seq<char>| EventView::LlmToken(p))
}

proof fn lemma_concatenated_push(pieces: Seq<Seq<char>>)
    requires
        pieces.len() > 0,
    ensures
        sse::concatenated(pieces) == sse::concatenated(pieces.drop_last()) + pieces.last(),
    decreases pieces.len(),
{
    if pieces.len() == 1 {
        assert(pieces.drop_first() =~= Seq::<Seq<char>>::empty());
        assert(pieces.drop_last() =~= Seq::<Seq<char>>::empty());
        assert(sse::concatenated(pieces.drop_first()) =~= Seq::<char>::empty());
        assert(sse::concatenated(pieces) =~= pieces.last());
        assert(sse::concatenated(pieces.drop_last()) + pieces.last() =~= pieces.last());
    } else {
        lemma_concatenated_push(pieces.drop_first());
        assert(pieces.drop_first().drop_last() =~= pieces.drop_last().drop_first());
        assert(pieces.drop_first().last() == pieces.last());
        assert(pieces.drop_last().first() == pieces.first());
        assert(sse::concatenated(pieces) =~= sse::concatenated(pieces.drop_last()) + pieces.last());
    }
}

/// The pieces of an answer are collected in the order in which they come, and
/// nothing else changes.
pub proof fn law_pieces_are_collected(state: StateView, pieces: Seq<Seq<char>>)
    ensures
        after_events(state, tokens(pieces)) == (StateView {
            response: state.response + sse::concatenated(pieces),
            ..state
        }),
    decreases pieces.len(),
{
    if pieces.len() == 0 {
        assert(state.response + sse::concatenated(pieces) =~= state.response);
    } else {
        law_pieces_are_collected(state, pieces.drop_last());
        lemma_concatenated_push(pieces);
        assert(tokens(pieces).drop_last() =~= tokens(pieces.drop_last()));
        assert(tokens(pieces).last() == EventView::LlmToken(pieces.last()));
        assert(state.response + sse::concatenated(pieces) =~= (state.response + sse::concatenated(
            pieces.drop_last(),
        )) + pieces.last());
    }
}

/// A turn of the conversation, from idle to idle: the talk key starts the
/// microphone, whose recording is transcribed; the talk key stops it; the
/// transcript is sent with the whole conversation before it; the answer is
/// collected, read aloud, and both stand at the end of the conversation.
pub proof fn law_turn(
    state: StateView,
    talk: KeyCode,
    api_key: Seq<char>,
    sample_rate: u32,
    utterance: Seq<char>,
    pieces: Seq<Seq<char>>,
)
    requires
        state.status == Status::Idle,
        tui::is_talk_key(talk),
        utterance.len() > 0,
        (state.response + sse::concatenated(pieces)).len() > 0,
    ensures
        ({
            let answer = state.response + sse::concatenated(pieces);
            let asked = state.conversation.push(MessageView::User(utterance));
            let (s1, a1) = tui::key_pressed(state, talk, true);
            let (s2, a2) = tui::mic_answered(s1, Ok(()), api_key, sample_rate);
            let (s3, a3) = tui::key_pressed(s2, talk, true);
            let (s4, a4) = tui::event_seen(s3, EventView::TranscriptFinal(utterance));
            let s5 = after_events(s4, tokens(pieces));
            let (s6, a6) = tui::event_seen(s5, EventView::LlmComplete);
            let (s7, a7) = tui::event_seen(s6, EventView::TtsComplete);
            &&& a1 == ActionView::StartMic
            &&& s2.status == Status::Listening && s2.recording
            &&& a2 == ActionView::Transcribe { api_key, sample_rate }
            &&& s3.status == Status::Listening && !s3.recording
            &&& a3 == ActionView::StopMic
            &&& s4.status == Status::Thinking
            &&& a4 == ActionView::Complete { history: asked, stop_mic: false }
            &&& s6.status == Status::Speaking
            &&& a6 == ActionView::Speak { text: answer, stop_mic: false }
            &&& s7.status == Status::Idle
            &&& a7 == ActionView::Idle
            &&& s7.conversation == asked.push(MessageView::Assistant(answer))
            &&& s7.response == Seq::<char>::empty()
            &&& s7.scroll == 0
        }),
{
    let (s1, a1) = tui::key_pressed(state, talk, true);
    let (s2, a2) = tui::mic_answered(s1, Ok(()), api_key, sample_rate);
    let (s3, a3) = tui::key_pressed(s2, talk, true);
    let (s4, a4) = tui::event_seen(s3, EventView::TranscriptFinal(utterance));
    law_pieces_are_collected(s4, pieces);
}

/// The message that an event adds to a conversation: an utterance that was
/// understood, or a complete answer. An empty one is not added.
pub open spec fn added(response: Seq<char>, event: EventView) -> Option<MessageView> {
    match event {
        EventView::TranscriptFinal(t) if t.len() > 0 => Some(MessageView::User(t)),
        EventView::LlmComplete if response.len() > 0 => Some(MessageView::Assistant(response)),
        _ => None,
    }
}

/// A conversation with one message more, where there is one.
pub open spec fn extended(
    conversation: Seq<MessageView>,
    message: Option<MessageView>,
) -> Seq<MessageView> {
    match message {
        Some(m) => conversation.push(m),
        None => conversation,
    }
}

/// The history is kept in both front-ends: an event never changes or removes what
/// stands in the conversation. It grows by one message exactly on a final
/// transcript that is not empty and on the completion of an answer that is not
/// empty. Of the keys and commands only the one that clears it touches it, and the
/// outcome of starting the microphone does not.
pub proof fn law_history_is_kept(
    state: StateView,
    event: EventView,
    code: KeyCode,
    command: Command,
    microphone: bool,
    outcome: Result<(), String>,
    api_key: Seq<char>,
    sample_rate: u32,
)
    ensures
        ({
            let before = state.conversation;
            let full = tui::event_seen(state, event).0.conversation;
            let line = terminal::event_shown(shared(state), event).0.conversation;
            let grows = {
                ||| event matches EventView::TranscriptFinal(t) && t.len() > 0
                ||| event is LlmComplete && state.response.len() > 0
            };
            &&& full == extended(before, added(state.response, event))
            &&& line == extended(before, added(state.response, event))
            &&& before.is_prefix_of(full) && before.is_prefix_of(line)
            &&& full.len() == line.len()
            &&& full.len() == before.len() + if grows {
                1int
            } else {
                0
            }
        }),
        code != KeyCode::Char('c') ==> tui::key_pressed(state, code, microphone).0.conversation
            == state.conversation,
        command != Command::Clear ==> terminal::obeyed(
            shared(state),
            command,
            microphone,
        ).0.conversation == state.conversation,
        tui::mic_answered(state, outcome, api_key, sample_rate).0.conversation
            == state.conversation,
        terminal::mic_answered(shared(state), outcome, api_key, sample_rate).0.conversation
            == state.conversation,
{
}

/// After the conversation is cleared, the next utterance is sent alone.
pub proof fn law_clear_starts_afresh(state: StateView, microphone: bool, utterance: Seq<char>)
    requires
        utterance.len() > 0,
    ensures
        ({
            let cleared = tui::key_pressed(state, KeyCode::Char('c'), microphone).0;
            tui::event_seen(cleared, EventView::TranscriptFinal(utterance)).1
                == ActionView::Complete {
                history: seq![MessageView::User(utterance)],
                stop_mic: state.recording,
            }
        }),
        ({
            let cleared = terminal::obeyed(shared(state), Command::Clear, microphone).0;
            terminal::event_shown(cleared, EventView::TranscriptFinal(utterance)).1.action
                == ActionView::Complete {
                history: seq![MessageView::User(utterance)],
                stop_mic: state.recording,
            }
        }),
{
    assert(Seq::<MessageView>::empty().push(MessageView::User(utterance)) =~= seq![
        MessageView::User(utterance),
    ]);
}

/// What has come of an answer is dropped with the conversation: where nothing more
/// comes of it, it is neither spoken nor kept.
pub proof fn law_clear_drops_the_answer(state: StateView, microphone: bool)
    ensures
        ({
            let cleared = tui::key_pressed(state, KeyCode::Char('c'), microphone).0;
            let (after, action) = tui::event_seen(cleared, EventView::LlmComplete);
            &&& after.status == Status::Idle
            &&& after.conversation == Seq::<MessageView>::empty()
            &&& after.response == Seq::<char>::empty()
            &&& !(action is Speak)
        }),
        ({
            let cleared = terminal::obeyed(shared(state), Command::Clear, microphone).0;
            let (after, reply) = terminal::event_shown(cleared, EventView::LlmComplete);
            &&& after.status == Status::Idle
            &&& after.conversation == Seq::<MessageView>::empty()
            &&& after.response == Seq::<char>::empty()
            &&& !(reply.action is Speak)
        }),
{
}

/// While the final transcript or the answer is awaited, and while the answer is
/// read aloud, the talk keys do nothing.
pub proof fn law_talk_waits_for_the_answer(state: StateView, talk: KeyCode, microphone: bool)
    requires
        tui::is_talk_key(talk),
        state.status != Status::Idle,
        !(state.status == Status::Listening && state.recording),
    ensures
        tui::key_pressed(state, talk, microphone) == (state, ActionView::Idle),
{
}

/// The waveform keeps its length.
pub proof fn law_waveform_keeps_its_length(
    state: StateView,
    code: KeyCode,
    microphone: bool,
    outcome: Result<(), String>,
    api_key: Seq<char>,
    sample_rate: u32,
    event: EventView,
)
    requires
        state.waveform.len() == tui::WAVEFORM_LEN,
    ensures
        tui::opening().waveform.len() == tui::WAVEFORM_LEN,
        tui::key_pressed(state, code, microphone).0.waveform.len() == tui::WAVEFORM_LEN,
        tui::mic_answered(state, outcome, api_key, sample_rate).0.waveform.len()
            == tui::WAVEFORM_LEN,
        tui::event_seen(state, event).0.waveform.len() == tui::WAVEFORM_LEN,
{
}

/// The microphone records only while the status says that it listens: no key,
/// command, event or outcome of starting the microphone changes that, in either
/// front-end.
pub proof fn law_recording_is_listening(
    state: StateView,
    code: KeyCode,
    command: Command,
    microphone: bool,
    outcome: Result<(), String>,
    api_key: Seq<char>,
    sample_rate: u32,
    event: EventView,
)
    requires
        tui::records_in_turn(state.status, state.recording),
    ensures
        tui::records_in_turn(tui::opening().status, tui::opening().recording),
        ({
            let after = tui::key_pressed(state, code, microphone).0;
            tui::records_in_turn(after.status, after.recording)
        }),
        ({
            let after = tui::mic_answered(state, outcome, api_key, sample_rate).0;
            tui::records_in_turn(after.status, after.recording)
        }),
        ({
            let after = tui::event_seen(state, event).0;
            tui::records_in_turn(after.status, after.recording)
        }),
        terminal::obeyed(shared(state), command, microphone).0.well_formed(),
        terminal::mic_answered(shared(state), outcome, api_key, sample_rate).0.well_formed(),
        terminal::event_shown(shared(state), event).0.well_formed(),
{
}

/// A recording under way is stopped by the talk keys.
pub proof fn law_talk_stops_a_recording(state: StateView, talk: KeyCode)
    requires
        tui::is_talk_key(talk),
        tui::records_in_turn(state.status, state.recording),
        state.recording,
    ensures
        tui::key_pressed(state, talk, true) == (
            StateView { recording: false, ..state },
            ActionView::StopMic,
        ),
        terminal::talked(shared(state), true).0 == (TerminalView {
            recording: false,
            ..shared(state)
        }),
        terminal::talked(shared(state), true).1.action == ActionView::StopMic,
{
}

/// The microphone is stopped exactly when a recording ends, and no key or event
/// begins one: only a microphone that was started does.
pub proof fn law_microphone_follows_the_recording(
    state: StateView,
    code: KeyCode,
    microphone: bool,
    event: EventView,
)
    ensures
        ({
            let (after, action) = tui::key_pressed(state, code, microphone);
            &&& action.stops_mic() <==> state.recording && !after.recording
            &&& after.recording ==> state.recording
        }),
        ({
            let (after, action) = tui::event_seen(state, event);
            &&& action.stops_mic() <==> state.recording && !after.recording
            &&& after.recording ==> state.recording
        }),
{
}

/// The two front-ends differ only in what they show: where their common state
/// agrees, an event, the talk key and the outcome of starting the microphone
/// leave it in agreement and ask for the same action.
pub proof fn law_front_ends_agree(
    state: StateView,
    event: EventView,
    talk: KeyCode,
    microphone: bool,
    outcome: Result<(), String>,
    api_key: Seq<char>,
    sample_rate: u32,
)
    requires
        tui::is_talk_key(talk),
    ensures
        ({
            let (full, action) = tui::event_seen(state, event);
            let (line, reply) = terminal::event_shown(shared(state), event);
            shared(full) == line && action == reply.action
        }),
        ({
            let (full, action) = tui::key_pressed(state, talk, microphone);
            let (line, reply) = terminal::talked(shared(state), microphone);
            shared(full) == line && action == reply.action
        }),
        ({
            let (full, action) = tui::mic_answered(state, outcome, api_key, sample_rate);
            let (line, reply) = terminal::mic_answered(
                shared(state),
                outcome,
                api_key,
                sample_rate,
            );
            shared(full) == line && action == reply.action
        }),
{
}

/// Clearing the conversation does the same in both front-ends.
pub proof fn law_front_ends_clear_alike(state: StateView, microphone: bool)
    ensures
        ({
            let (full, action) = tui::key_pressed(state, KeyCode::Char('c'), microphone);
            let (line, reply) = terminal::obeyed(shared(state), Command::Clear, microphone);
            shared(full) == line && action == reply.action
        }),
{
}

/// The quit keys end the front-end, whatever is under way, and so does the word
/// for it in the line-based one.
pub proof fn law_quit(state: StateView, code: KeyCode, microphone: bool)
    requires
        code == KeyCode::Char('q') || code == KeyCode::Esc,
    ensures
        tui::quits(tui::key_pressed(state, code, microphone).0),
        terminal::command_in("q"@) == Command::Quit,
{
}

/// Nothing but the quit keys ends the front-end: no other key does, nor does the
/// outcome of starting the microphone, nor an event with another text than the one
/// that stands for quitting.
pub proof fn law_only_quit_keys_quit(
    state: StateView,
    code: KeyCode,
    microphone: bool,
    outcome: Result<(), String>,
    api_key: Seq<char>,
    sample_rate: u32,
    event: EventView,
)
    requires
        !tui::quits(state),
        code != KeyCode::Char('q') && code != KeyCode::Esc,
        event != EventView::Error(tui::QUIT@),
    ensures
        !tui::quits(tui::opening()),
        !tui::quits(tui::key_pressed(state, code, microphone).0),
        !tui::quits(tui::mic_answered(state, outcome, api_key, sample_rate).0),
        !tui::quits(tui::event_seen(state, event).0),
{
    reveal_strlit("__quit__");
    reveal_strlit("No microphone available");
    reveal_strlit("Mic error: ");
    assert(tui::QUIT@[0] == '_');
    assert("No microphone available"@[0] == 'N');
    match outcome {
        Ok(_) => {},
        Err(e) => {
            assert(("Mic error: "@ + e@)[0] == 'M');
        },
    }
}

/// What is reported when the language model refuses is shown as an error and does
/// not end the front-end.
pub proof fn law_refusal_does_not_quit(state: StateView, status: Seq<char>, body: Seq<char>)
    ensures
        ({
            let refusal = "LLM "@ + status + ": "@ + body;
            !tui::quits(tui::event_seen(state, EventView::Error(refusal)).0)
        }),
{
    reveal_strlit("__quit__");
    reveal_strlit("LLM ");
    assert(tui::QUIT@[0] == '_');
    assert(("LLM "@ + status + ": "@ + body)[0] == 'L');
}

/// An error ends the turn and is shown.
pub proof fn law_error_ends_the_turn(state: StateView, error: Seq<char>)
    requires
        error != tui::QUIT@,
    ensures
        ({
            let after = tui::event_seen(state, EventView::Error(error)).0;
            &&& after.status == Status::Idle
            &&& render::active_row(after) == Some(
                render::ActiveView {
                    content: error,
                    color: render::Color::Red,
                    title: " error "@,
                },
            )
        }),
        terminal::event_shown(shared(state), EventView::Error(error)).0.status == Status::Idle,
        terminal::event_shown(shared(state), EventView::Error(error)).1.prompt,
{
}

/// Scrolling back and forth again leaves the state as it was, except at the end
/// of the counter.
pub proof fn law_scroll_back_and_forth(state: StateView, microphone: bool)
    requires
        state.scroll < u16::MAX,
    ensures
        ({
            let up = tui::key_pressed(state, KeyCode::Up, microphone).0;
            tui::key_pressed(up, KeyCode::Down, microphone).0 == state
        }),
{
}

/// Where nothing is scrolled back, the latest messages are shown: as many as
/// there is room for, and the last message is the last shown.
pub proof fn law_latest_messages_are_shown(state: StateView, height: int)
    requires
        state.scroll == 0,
        0 <= height <= u16::MAX,
    ensures
        ({
            let shown = render::entries_shown(state, height);
            let total = state.conversation.len();
            &&& shown.len() == if total < render::room(height) {
                total as int
            } else {
                render::room(height)
            }
            &&& total > 0 ==> shown.len() > 0 && shown.last() == render::entry_of(
                state.conversation.last(),
            )
        }),
{
}

/// Every message can be scrolled to: each step back shows one earlier message,
/// until the first is shown.
pub proof fn law_scrolling_shows_earlier_messages(total: int, height: int, scroll: int)
    requires
        0 <= total,
        0 <= height <= u16::MAX,
        0 <= scroll,
    ensures
        0 <= render::first_shown(total, height, scroll) <= render::latest(total, height),
        render::first_shown(total, height, scroll) > 0 ==> render::first_shown(
            total,
            height,
            scroll + 1,
        ) == render::first_shown(total, height, scroll) - 1,
        render::first_shown(total, height, render::latest(total, height)) == 0,
{
}

/// How dense the character of a level is.
pub open spec fn density(c: char) -> int {
    if c == '█' {
        4
    } else if c == '▓' {
        3
    } else if c == '▒' {
        2
    } else if c == '░' {
        1
    } else {
        0
    }
}

/// The louder of two levels is drawn at least as densely.
pub proof fn law_louder_is_denser(soft: u32, loud: u32)
    requires
        soft <= loud <= render::INFINITY_BITS,
    ensures
        density(render::glyph(soft)) <= density(render::glyph(loud)),
{
}

/// From the response to the speech: however the text of the response is cut, the
/// pieces of the answer in it, put together, become the message that is added to
/// the conversation and read aloud; where there are none, the turn ends.
pub proof fn law_answer_is_spoken(state: StateView, response: Seq<Seq<char>>)
    requires
        state.response.len() == 0,
    ensures
        ({
            let new = StreamView { buffer: Seq::empty(), done: false };
            let events = sse::answered(new, response);
            let pieces = sse::drained(sse::concatenated(response)).pieces;
            let answer = sse::concatenated(pieces);
            let before = after_events(state, events.drop_last());
            let (after, action) = tui::event_seen(before, events.last());
            &&& after == after_events(state, events)
            &&& if pieces.len() > 0 {
                &&& after.status == Status::Speaking
                &&& after.conversation == state.conversation.push(MessageView::Assistant(answer))
                &&& after.response == Seq::<char>::empty()
                &&& action == ActionView::Speak { text: answer, stop_mic: state.recording }
            } else {
                &&& after == (StateView { status: Status::Idle, recording: false, ..state })
                &&& action == events::stopping(state.recording)
            }
        }),
{
    let new = StreamView { buffer: Seq::empty(), done: false };
    let events = sse::answered(new, response);
    let pieces = sse::drained(sse::concatenated(response)).pieces;
    sse::law_every_answer_completes_once(response);
    assert(events.drop_last() =~= tokens(pieces));
    assert(events.last() == EventView::LlmComplete);
    law_pieces_are_collected(state, pieces);
    assert(state.response + sse::concatenated(pieces) =~= sse::concatenated(pieces));
    sse::law_no_piece_is_empty(sse::concatenated(response));
    if pieces.len() > 0 {
        assert(pieces[0].len() > 0);
        assert(sse::concatenated(pieces).len() >= pieces[0].len());
    } else {
        assert(sse::concatenated(pieces) =~= Seq::<char>::empty());
        assert(state.response =~= Seq::<char>::empty());
    }
}

/// The front-end begins idle, with nothing said, heard, shown or scrolled, and a
/// silent waveform.
pub proof fn law_opening_is_empty(i: int)
    ensures
        tui::opening().status == Status::Idle,
        !tui::opening().recording,
        tui::opening().conversation.len() == 0,
        tui::opening().transcript.len() == 0,
        tui::opening().response.len() == 0,
        tui::opening().error is None,
        tui::opening().scroll == 0,
        tui::opening().waveform.len() == 60,
        0 <= i < 60 ==> tui::opening().waveform[i] == 0,
{
}

/// Each partial transcript takes the place of the one before: after it the transcript
/// is what it says, and nothing else has changed. So after two in a row the state is
/// as after the second alone. While listening without an error, it is shown.
pub proof fn law_partial_transcripts_replace(
    state: StateView,
    first: Seq<char>,
    second: Seq<char>,
)
    ensures
        ({
            let (after, action) = tui::event_seen(state, EventView::TranscriptPartial(second));
            let between = tui::event_seen(state, EventView::TranscriptPartial(first)).0;
            &&& action == ActionView::Idle
            &&& after.transcript == second
            &&& after.status == state.status
            &&& after.recording == state.recording
            &&& after.conversation == state.conversation
            &&& after.response == state.response
            &&& after.waveform == state.waveform
            &&& after.error == state.error
            &&& after.scroll == state.scroll
            &&& tui::event_seen(between, EventView::TranscriptPartial(second)) == (after, action)
            &&& state.status == Status::Listening && state.error is None ==> {
                &&& render::active_row(after) matches Some(row)
                &&& row.content == second
                &&& row.title == " transcript "@
            }
        }),
{
}

/// A level enters the waveform at its end and the oldest leaves it; nothing else
/// changes.
pub proof fn law_levels_move_through_the_waveform(state: StateView, level: u32, i: int)
    requires
        state.waveform.len() > 0,
    ensures
        ({
            let (after, action) = tui::event_seen(state, EventView::AudioLevel(level));
            let n = state.waveform.len() as int;
            &&& action == ActionView::Idle
            &&& after.waveform.len() == n
            &&& after.waveform[n - 1] == level
            &&& 0 <= i < n - 1 ==> after.waveform[i] == state.waveform[i + 1]
            &&& after.status == state.status
            &&& after.recording == state.recording
            &&& after.conversation == state.conversation
            &&& after.transcript == state.transcript
            &&& after.response == state.response
            &&& after.error == state.error
            &&& after.scroll == state.scroll
        }),
{
}

/// A final transcript that is not empty becomes the last message, as it is, behind
/// all that was said before, and the model is asked with exactly that conversation.
/// One that is empty ends the turn and leaves the conversation.
pub proof fn law_utterance_is_asked_verbatim(state: StateView, said: Seq<char>, i: int)
    ensures
        ({
            let (after, action) = tui::event_seen(state, EventView::TranscriptFinal(said));
            let n = state.conversation.len() as int;
            &&& after.transcript.len() == 0
            &&& !after.recording
            &&& after.response == state.response
            &&& after.waveform == state.waveform
            &&& after.error == state.error
            &&& said.len() > 0 ==> {
                &&& after.conversation.len() == n + 1
                &&& after.conversation[n] == MessageView::User(said)
                &&& 0 <= i < n ==> after.conversation[i] == state.conversation[i]
                &&& after.status == Status::Thinking
                &&& after.scroll == 0
                &&& action == ActionView::Complete {
                    history: after.conversation,
                    stop_mic: state.recording,
                }
            }
            &&& said.len() == 0 ==> {
                &&& after.conversation == state.conversation
                &&& after.status == Status::Idle
                &&& after.scroll == state.scroll
                &&& state.recording ==> action == ActionView::StopMic
                &&& !state.recording ==> action == ActionView::Idle
            }
        }),
{
}

/// A piece of an answer is appended as it is to what has come; nothing else changes.
pub proof fn law_pieces_are_appended_verbatim(state: StateView, piece: Seq<char>)
    ensures
        ({
            let (after, action) = tui::event_seen(state, EventView::LlmToken(piece));
            let n = state.response.len() as int;
            &&& action == ActionView::Idle
            &&& after.response.len() == n + piece.len()
            &&& after.response.take(n) == state.response
            &&& after.response.skip(n) == piece
            &&& after.status == state.status
            &&& after.recording == state.recording
            &&& after.conversation == state.conversation
            &&& after.transcript == state.transcript
            &&& after.waveform == state.waveform
            &&& after.error == state.error
            &&& after.scroll == state.scroll
        }),
{
    let n = state.response.len() as int;
    assert((state.response + piece).take(n) =~= state.response);
    assert((state.response + piece).skip(n) =~= piece);
}

/// A complete answer becomes the last message as it has come, and exactly that is
/// read aloud. Where nothing has come, the turn ends. An answer is used once: what
/// has come is empty then.
pub proof fn law_answer_is_kept_and_spoken_verbatim(state: StateView, i: int)
    ensures
        ({
            let (after, action) = tui::event_seen(state, EventView::LlmComplete);
            let n = state.conversation.len() as int;
            &&& after.response.len() == 0
            &&& !after.recording
            &&& after.transcript == state.transcript
            &&& after.waveform == state.waveform
            &&& after.error == state.error
            &&& after.scroll == state.scroll
            &&& state.response.len() > 0 ==> {
                &&& after.conversation.len() == n + 1
                &&& after.conversation[n] == MessageView::Assistant(state.response)
                &&& 0 <= i < n ==> after.conversation[i] == state.conversation[i]
                &&& after.status == Status::Speaking
                &&& action == ActionView::Speak {
                    text: state.response,
                    stop_mic: state.recording,
                }
            }
            &&& state.response.len() == 0 ==> {
                &&& after.conversation == state.conversation
                &&& after.status == Status::Idle
                &&& state.recording ==> action == ActionView::StopMic
                &&& !state.recording ==> action == ActionView::Idle
            }
        }),
{
}

/// The end of playback and an error end the turn. The error is kept as it is, in
/// place of an earlier one; nothing else changes but that a recording ends.
pub proof fn law_end_of_a_turn_keeps_the_rest(state: StateView, error: Seq<char>)
    ensures
        ({
            let (spoken, action) = tui::event_seen(state, EventView::TtsComplete);
            let (failed, reaction) = tui::event_seen(state, EventView::Error(error));
            &&& spoken.status == Status::Idle && failed.status == Status::Idle
            &&& !spoken.recording && !failed.recording
            &&& spoken.error == state.error
            &&& failed.error == Some(error)
            &&& spoken.conversation == state.conversation
            &&& failed.conversation == state.conversation
            &&& spoken.transcript == state.transcript && failed.transcript == state.transcript
            &&& spoken.response == state.response && failed.response == state.response
            &&& spoken.waveform == state.waveform && failed.waveform == state.waveform
            &&& spoken.scroll == state.scroll && failed.scroll == state.scroll
            &&& action == reaction
            &&& state.recording ==> action == ActionView::StopMic
            &&& !state.recording ==> action == ActionView::Idle
        }),
{
}

/// Clearing drops the conversation, what was heard, what has come of an answer and
/// the error, and leaves the turn, the waveform and the scrolling. Clearing again
/// changes nothing.
pub proof fn law_clear_keeps_the_turn(state: StateView, microphone: bool)
    ensures
        ({
            let (after, action) = tui::key_pressed(state, KeyCode::Char('c'), microphone);
            &&& action == ActionView::Idle
            &&& after.conversation.len() == 0
            &&& after.transcript.len() == 0
            &&& after.response.len() == 0
            &&& after.error is None
            &&& after.status == state.status
            &&& after.recording == state.recording
            &&& after.waveform == state.waveform
            &&& after.scroll == state.scroll
            &&& tui::key_pressed(after, KeyCode::Char('c'), microphone) == (after, action)
        }),
{
}

/// The arrow keys move the scrolling by one, up to the end of the counter and down to
/// nothing, and change nothing else. Keys without a meaning change nothing at all.
pub proof fn law_keys_do_what_they_name(state: StateView, code: KeyCode, microphone: bool)
    ensures
        ({
            let (up, action) = tui::key_pressed(state, KeyCode::Up, microphone);
            &&& action == ActionView::Idle
            &&& state.scroll < u16::MAX ==> up.scroll == state.scroll + 1
            &&& state.scroll == u16::MAX ==> up.scroll == u16::MAX
            &&& up == (StateView { scroll: up.scroll, ..state })
        }),
        ({
            let (down, action) = tui::key_pressed(state, KeyCode::Down, microphone);
            &&& action == ActionView::Idle
            &&& state.scroll > 0 ==> down.scroll == state.scroll - 1
            &&& state.scroll == 0 ==> down.scroll == 0
            &&& down == (StateView { scroll: down.scroll, ..state })
        }),
        ({
            let (quit, action) = tui::key_pressed(state, KeyCode::Esc, microphone);
            &&& action == ActionView::Idle
            &&& quit == (StateView { error: quit.error, ..state })
            &&& tui::key_pressed(state, KeyCode::Char('q'), microphone) == (quit, action)
        }),
        tui::key_pressed(state, KeyCode::Other, microphone) == (state, ActionView::Idle),
        code matches KeyCode::Char(c) ==> c != 'q' && c != 'c' && c != ' ' ==> tui::key_pressed(
            state,
            code,
            microphone,
        ) == (state, ActionView::Idle),
{
}

/// The two talk keys do the same. When idle they start the microphone and change
/// nothing yet, or say that there is none; while recording they stop it; else they do
/// nothing.
pub proof fn law_talk_toggles_the_recording(state: StateView)
    ensures
        tui::key_pressed(state, KeyCode::Char(' '), true) == tui::key_pressed(
            state,
            KeyCode::Enter,
            true,
        ),
        tui::key_pressed(state, KeyCode::Char(' '), false) == tui::key_pressed(
            state,
            KeyCode::Enter,
            false,
        ),
        state.status == Status::Idle ==> tui::key_pressed(state, KeyCode::Enter, true) == (
            state,
            ActionView::StartMic,
        ),
        state.status == Status::Idle ==> tui::key_pressed(state, KeyCode::Enter, false) == (
            StateView { error: Some("No microphone available"@), ..state },
            ActionView::Idle,
        ),
        state.status == Status::Listening && state.recording ==> tui::key_pressed(
            state,
            KeyCode::Enter,
            true,
        ) == (StateView { recording: false, ..state }, ActionView::StopMic),
        state.status == Status::Listening && !state.recording ==> tui::key_pressed(
            state,
            KeyCode::Enter,
            true,
        ) == (state, ActionView::Idle),
        state.status != Status::Idle ==> tui::key_pressed(state, KeyCode::Enter, false) == (
            state,
            ActionView::Idle,
        ),
{
}

/// A microphone that was started is listened to, with nothing heard yet and no error;
/// the recording goes to recognition with the key and the rate that are given. One
/// that failed is reported with what it said, and nothing else changes.
pub proof fn law_started_microphone_is_transcribed(
    state: StateView,
    failure: String,
    api_key: Seq<char>,
    sample_rate: u32,
)
    ensures
        ({
            let (after, action) = tui::mic_answered(state, Ok(()), api_key, sample_rate);
            &&& action == ActionView::Transcribe { api_key, sample_rate }
            &&& after.status == Status::Listening
            &&& after.recording
            &&& after.transcript.len() == 0
            &&& after.error is None
            &&& after.conversation == state.conversation
            &&& after.response == state.response
            &&& after.waveform == state.waveform
            &&& after.scroll == state.scroll
        }),
        ({
            let (after, action) = tui::mic_answered(state, Err(failure), api_key, sample_rate);
            &&& action == ActionView::Idle
            &&& after == (StateView { error: Some("Mic error: "@ + failure@), ..state })
        }),
{
}

/// What the line-based front-end prints of an event holds its text as it is, in its
/// colour.
pub proof fn law_texts_are_printed_verbatim(state: TerminalView, text: Seq<char>)
    ensures
        terminal::event_shown(state, EventView::TranscriptPartial(text)).1.output
            == terminal::CLEAR_LINE@ + (terminal::YELLOW@ + ("  ◉ "@ + text) + terminal::RESET@),
        text.len() > 0 ==> terminal::event_shown(
            state,
            EventView::TranscriptFinal(text),
        ).1.output == terminal::CLEAR_LINE@ + (terminal::DIM@ + terminal::YELLOW@ + ("  you: "@
            + text) + terminal::RESET@ + "\n"@) + "\n"@ + (terminal::MAGENTA@ + terminal::BOLD@
            + "  ◈ brainiac:"@ + terminal::RESET@) + " "@,
        terminal::event_shown(state, EventView::LlmToken(text)).1.output == terminal::CYAN@ + text
            + terminal::RESET@,
        terminal::event_shown(state, EventView::Error(text)).1.output == terminal::CLEAR_LINE@ + (
        terminal::RED@ + ("  error: "@ + text) + terminal::RESET@ + "\n"@),
        terminal::event_shown(state, EventView::TtsComplete).1.output.len() == 0,
{
}

/// The line-based front-end asks for the next command exactly when an event ends the
/// turn, and a level neither prints nor changes anything.
pub proof fn law_prompt_follows_the_turn(state: TerminalView, event: EventView, level: u32)
    ensures
        terminal::event_shown(state, event).1.prompt <==> {
            ||| event is TtsComplete
            ||| event is Error
            ||| event is LlmComplete && state.response.len() == 0
            ||| event matches EventView::TranscriptFinal(t) && t.len() == 0
        },
        terminal::event_shown(state, event).1.prompt ==> terminal::event_shown(
            state,
            event,
        ).0.status == Status::Idle,
        terminal::event_shown(state, EventView::AudioLevel(level)).0 == state,
        terminal::event_shown(state, EventView::AudioLevel(level)).1.output.len() == 0,
{
}

/// A word is a command only where it is written exactly so; every other line talks.
pub proof fn law_commands_are_exact(word: Seq<char>)
    ensures
        terminal::command_in(word) == Command::Quit <==> word == seq!['q'] || word == seq![
            'q',
            'u',
            'i',
            't',
        ] || word == seq!['e', 'x', 'i', 't'],
        terminal::command_in(word) == Command::Clear <==> word == seq!['c'] || word == seq![
            'c',
            'l',
            'e',
            'a',
            'r',
        ],
{
    reveal_strlit("q");
    reveal_strlit("quit");
    reveal_strlit("exit");
    reveal_strlit("c");
    reveal_strlit("clear");
    assert("q"@ =~= seq!['q']);
    assert("quit"@ =~= seq!['q', 'u', 'i', 't']);
    assert("exit"@ =~= seq!['e', 'x', 'i', 't']);
    assert("c"@ =~= seq!['c']);
    assert("clear"@ =~= seq!['c', 'l', 'e', 'a', 'r']);
    assert(seq!['q'][0] == 'q' && seq!['c'][0] == 'c');
    assert(seq!['q', 'u', 'i', 't'][0] == 'q' && seq!['e', 'x', 'i', 't'][0] == 'e');
    assert(seq!['q', 'u', 'i', 't'].len() == 4 && seq!['e', 'x', 'i', 't'].len() == 4);
    assert(seq!['c', 'l', 'e', 'a', 'r'].len() == 5);
}

/// The models hold the texts of what they stand for, character for character.
pub proof fn law_models_are_verbatim(
    state: AppState,
    line: State,
    message: Message,
    event: AppEvent,
    i: int,
)
    ensures
        state@.status == state.status,
        state@.recording == state.recording,
        state@.transcript == state.current_transcript@,
        state@.response == state.current_response@,
        state@.waveform == state.waveform@,
        state@.scroll == state.scroll_offset,
        state@.error is Some <==> state.error is Some,
        state.error is Some ==> state@.error->0 == state.error->0@,
        state@.conversation.len() == state.conversation@.len(),
        0 <= i < state.conversation@.len() ==> state@.conversation[i] == state.conversation@[i]@,
        line@.status == line.status,
        line@.recording == line.recording,
        line@.response == line.current_response@,
        line@.conversation.len() == line.conversation@.len(),
        0 <= i < line.conversation@.len() ==> line@.conversation[i] == line.conversation@[i]@,
        message matches Message::User(t) ==> message@ == MessageView::User(t@),
        message matches Message::Assistant(t) ==> message@ == MessageView::Assistant(t@),
        event matches AppEvent::AudioLevel(l) ==> event@ == EventView::AudioLevel(l),
        event matches AppEvent::TranscriptPartial(t) ==> event@ == EventView::TranscriptPartial(
            t@,
        ),
        event matches AppEvent::TranscriptFinal(t) ==> event@ == EventView::TranscriptFinal(t@),
        event matches AppEvent::LlmToken(t) ==> event@ == EventView::LlmToken(t@),
        event is LlmComplete ==> event@ == EventView::LlmComplete,
        event is TtsComplete ==> event@ == EventView::TtsComplete,
        event matches AppEvent::Error(e) ==> event@ == EventView::Error(e@),
{
}

/// The model of an action holds what is to be done, character for character.
pub proof fn law_actions_are_verbatim(action: Action, i: int)
    ensures
        action matches Action::Speak { text, stop_mic } ==> action@ == (ActionView::Speak {
            text: text@,
            stop_mic,
        }),
        action matches Action::Transcribe { api_key, sample_rate } ==> action@ == (
        ActionView::Transcribe { api_key: api_key@, sample_rate }),
        action matches Action::Complete { history, stop_mic } ==> {
            &&& action@ matches ActionView::Complete { history: sent, stop_mic: stops }
            &&& stops == stop_mic
            &&& sent.len() == history@.len()
            &&& 0 <= i < sent.len() ==> sent[i] == history@[i]@
        },
        action is Idle ==> action@ is Idle,
        action is StartMic ==> action@ is StartMic,
        action is StopMic ==> action@ is StopMic,
{
}

/// What the line-based front-end answers to the talk command and to the outcome of
/// starting the microphone; a failure is printed as it is.
pub proof fn law_talk_is_answered(
    state: TerminalView,
    failure: String,
    api_key: Seq<char>,
    sample_rate: u32,
)
    ensures
        state.status == Status::Idle ==> terminal::talked(state, true) == (
            state,
            ReplyView { output: Seq::empty(), action: ActionView::StartMic, prompt: false },
        ),
        state.status == Status::Idle ==> terminal::talked(state, false) == (
            state,
            ReplyView {
                output: terminal::RED@ + "  no microphone"@ + terminal::RESET@ + "\n"@,
                action: ActionView::Idle,
                prompt: true,
            },
        ),
        state.status != Status::Idle ==> !terminal::talked(state, true).1.prompt,
        ({
            let (after, reply) = terminal::mic_answered(state, Err(failure), api_key, sample_rate);
            &&& after == state
            &&& reply.output == terminal::RED@ + ("  mic error: "@ + failure@) + terminal::RESET@
                + "\n"@
            &&& reply.action == ActionView::Idle
            &&& reply.prompt
        }),
        ({
            let (after, reply) = terminal::mic_answered(state, Ok(()), api_key, sample_rate);
            &&& after.status == Status::Listening && after.recording
            &&& after.conversation == state.conversation
            &&& after.response == state.response
            &&& reply.action == ActionView::Transcribe { api_key, sample_rate }
            &&& !reply.prompt
        }),
{
}

/// The model of a reply holds what is printed, character for character.
pub proof fn law_replies_are_verbatim(reply: Reply)
    ensures
        reply@ == (ReplyView {
            output: reply.output@,
            action: reply.action@,
            prompt: reply.prompt,
        }),
{
}

} // verus!
