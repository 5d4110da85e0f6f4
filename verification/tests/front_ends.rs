//! Key presses, lines and events in both front-ends.

use brainiac::events::{Action, AppEvent};
use brainiac::llm::Message;
use brainiac::terminal;
use brainiac::terminal::{Command, State};
use brainiac::tui;
use brainiac::tui::{AppState, KeyCode, KeyKind, Status};

fn said(message: &Message) -> (&'static str, &str) {
    match message {
        Message::User(t) => ("user", t.as_str()),
        Message::Assistant(t) => ("assistant", t.as_str()),
    }
}

fn event(state: &mut AppState, e: AppEvent) -> Action {
    tui::handle_app_event(state, e)
}

fn text(t: &str) -> String {
    t.to_string()
}

#[test]
fn opening_state_is_idle_and_silent() {
    let state = AppState::default();
    assert_eq!(state.status, Status::Idle);
    assert!(!state.recording);
    assert!(state.conversation.is_empty());
    assert_eq!(state.current_transcript, "");
    assert_eq!(state.current_response, "");
    assert_eq!(state.waveform.len(), 60);
    assert!(state.waveform.iter().all(|&l| l == 0));
    assert!(state.error.is_none());
    assert_eq!(state.scroll_offset, 0);
}

#[test]
fn start_reports_a_missing_microphone() {
    let (state, rate) = AppState::start(Err(text("no device")));
    assert_eq!(state.error.as_deref(), Some("Mic unavailable: no device"));
    assert_eq!(rate, 16000);
    let (state, rate) = AppState::start(Ok(48000));
    assert!(state.error.is_none());
    assert_eq!(rate, 48000);
}

#[test]
fn labels_of_the_statuses() {
    assert_eq!(Status::Idle.label(), "IDLE");
    assert_eq!(Status::Listening.label(), "LISTENING");
    assert_eq!(Status::Thinking.label(), "THINKING");
    assert_eq!(Status::Speaking.label(), "SPEAKING");
}

#[test]
fn a_turn_goes_from_idle_to_idle() {
    for talk in [KeyCode::Char(' '), KeyCode::Enter] {
        let mut state = AppState::default();
        assert!(matches!(tui::handle_key(&mut state, talk, true), Action::StartMic));
        assert_eq!(state.status, Status::Idle);
        match tui::handle_mic_outcome(&mut state, Ok(()), "key", 44100) {
            Action::Transcribe { api_key, sample_rate } => {
                assert_eq!(api_key, "key");
                assert_eq!(sample_rate, 44100);
            }
            other => panic!("{:?}", other),
        }
        assert_eq!(state.status, Status::Listening);
        assert!(state.recording);
        assert!(matches!(
            event(&mut state, AppEvent::TranscriptPartial(text("what ti"))),
            Action::Idle
        ));
        assert_eq!(state.current_transcript, "what ti");
        assert!(matches!(tui::handle_key(&mut state, talk, true), Action::StopMic));
        assert_eq!(state.status, Status::Listening);
        assert!(!state.recording);
        assert!(matches!(tui::handle_key(&mut state, talk, true), Action::Idle));
        match event(&mut state, AppEvent::TranscriptFinal(text("what time is it"))) {
            Action::Complete { history, stop_mic } => {
                assert!(!stop_mic);
                assert_eq!(history.len(), 1);
                assert_eq!(said(&history[0]), ("user", "what time is it"));
            }
            other => panic!("{:?}", other),
        }
        assert_eq!(state.status, Status::Thinking);
        assert_eq!(state.current_transcript, "");
        assert!(matches!(tui::handle_key(&mut state, talk, true), Action::Idle));
        event(&mut state, AppEvent::LlmToken(text("Half ")));
        event(&mut state, AppEvent::LlmToken(text("past two.")));
        assert_eq!(state.current_response, "Half past two.");
        match event(&mut state, AppEvent::LlmComplete) {
            Action::Speak { text, stop_mic: false } => assert_eq!(text, "Half past two."),
            other => panic!("{:?}", other),
        }
        assert_eq!(state.status, Status::Speaking);
        assert_eq!(state.current_response, "");
        assert!(matches!(tui::handle_key(&mut state, talk, true), Action::Idle));
        assert!(matches!(event(&mut state, AppEvent::TtsComplete), Action::Idle));
        assert_eq!(state.status, Status::Idle);
        let all: Vec<_> = state.conversation.iter().map(said).collect();
        assert_eq!(all, vec![("user", "what time is it"), ("assistant", "Half past two.")]);
    }
}

#[test]
fn a_follow_up_is_sent_with_the_history() {
    let mut state = AppState::default();
    event(&mut state, AppEvent::TranscriptFinal(text("one")));
    event(&mut state, AppEvent::LlmToken(text("two")));
    event(&mut state, AppEvent::LlmComplete);
    event(&mut state, AppEvent::TtsComplete);
    match event(&mut state, AppEvent::TranscriptFinal(text("three"))) {
        Action::Complete { history, .. } => {
            let all: Vec<_> = history.iter().map(said).collect();
            assert_eq!(all, vec![("user", "one"), ("assistant", "two"), ("user", "three")]);
        }
        other => panic!("{:?}", other),
    }
    tui::handle_key(&mut state, KeyCode::Char('c'), true);
    assert!(state.conversation.is_empty());
    match event(&mut state, AppEvent::TranscriptFinal(text("four"))) {
        Action::Complete { history, .. } => assert_eq!(history.len(), 1),
        other => panic!("{:?}", other),
    }
}

#[test]
fn empty_transcripts_and_answers_end_the_turn() {
    let mut state = AppState::default();
    state.status = Status::Listening;
    state.current_transcript = text("x");
    event(&mut state, AppEvent::TranscriptFinal(text("")));
    assert_eq!(state.status, Status::Idle);
    assert_eq!(state.current_transcript, "");
    assert!(state.conversation.is_empty());
    state.status = Status::Thinking;
    assert!(matches!(event(&mut state, AppEvent::LlmComplete), Action::Idle));
    assert_eq!(state.status, Status::Idle);
    assert!(state.conversation.is_empty());
}

#[test]
fn errors_are_kept_and_end_the_turn() {
    let mut state = AppState::default();
    state.status = Status::Thinking;
    event(&mut state, AppEvent::Error(text("LLM 500: oops")));
    assert_eq!(state.status, Status::Idle);
    assert_eq!(state.error.as_deref(), Some("LLM 500: oops"));
    assert!(!state.should_quit());
}

#[test]
fn talk_without_a_microphone_is_an_error() {
    let mut state = AppState::default();
    assert!(matches!(tui::handle_key(&mut state, KeyCode::Enter, false), Action::Idle));
    assert_eq!(state.error.as_deref(), Some("No microphone available"));
    assert_eq!(state.status, Status::Idle);
    let mut state = AppState::default();
    tui::handle_mic_outcome(&mut state, Err(text("busy")), "k", 1);
    assert_eq!(state.error.as_deref(), Some("Mic error: busy"));
    assert_eq!(state.status, Status::Idle);
    assert!(!state.recording);
}

#[test]
fn quit_ends_at_once_whatever_is_under_way() {
    for status in [Status::Idle, Status::Listening, Status::Thinking, Status::Speaking] {
        for key in [KeyCode::Char('q'), KeyCode::Esc] {
            let mut state = AppState::default();
            state.status = status;
            state.recording = status == Status::Listening;
            assert!(!state.should_quit());
            assert!(matches!(tui::handle_key(&mut state, key, true), Action::Idle));
            assert!(state.should_quit());
        }
        let mut line = State::new();
        line.status = status;
        assert!(terminal::handle_line(&mut line, "Q", true).is_none());
    }
}

fn recording_state() -> (AppState, State) {
    let mut full = AppState::default();
    let mut line = State::new();
    tui::handle_mic_outcome(&mut full, Ok(()), "k", 16000);
    terminal::handle_mic_outcome(&mut line, Ok(()), "k", 16000);
    assert!(full.recording && full.status == Status::Listening);
    assert!(line.recording && line.status == Status::Listening);
    (full, line)
}

#[test]
fn a_recording_ends_with_the_listening() {
    for e in [
        AppEvent::TranscriptFinal(text("")),
        AppEvent::LlmComplete,
        AppEvent::TtsComplete,
        AppEvent::Error(text("late")),
    ] {
        let (mut full, mut line) = recording_state();
        assert!(matches!(event(&mut full, e.clone()), Action::StopMic));
        assert!(matches!(terminal::handle_event(&mut line, e).action, Action::StopMic));
        assert!(!full.recording && full.status == Status::Idle);
        assert!(!line.recording && line.status == Status::Idle);
    }
    let (mut full, mut line) = recording_state();
    let e = AppEvent::TranscriptFinal(text("hi"));
    assert!(matches!(
        event(&mut full, e.clone()),
        Action::Complete { stop_mic: true, .. }
    ));
    assert!(matches!(
        terminal::handle_event(&mut line, e).action,
        Action::Complete { stop_mic: true, .. }
    ));
    assert!(!full.recording && full.status == Status::Thinking);
    assert!(!line.recording && line.status == Status::Thinking);
    let (mut full, mut line) = recording_state();
    event(&mut full, AppEvent::LlmToken(text("a")));
    terminal::handle_event(&mut line, AppEvent::LlmToken(text("a")));
    assert!(full.recording && line.recording);
    let action = event(&mut full, AppEvent::LlmComplete);
    assert!(matches!(action, Action::Speak { stop_mic: true, .. }));
    let reply = terminal::handle_event(&mut line, AppEvent::LlmComplete);
    assert!(matches!(reply.action, Action::Speak { stop_mic: true, .. }));
    assert!(!full.recording && full.status == Status::Speaking);
    assert!(!line.recording && line.status == Status::Speaking);
}

#[test]
fn partial_transcripts_and_levels_leave_the_recording() {
    let (mut full, mut line) = recording_state();
    for e in [AppEvent::TranscriptPartial(text("so")), AppEvent::AudioLevel(3)] {
        assert!(matches!(event(&mut full, e.clone()), Action::Idle));
        assert!(matches!(terminal::handle_event(&mut line, e).action, Action::Idle));
    }
    assert!(full.recording && line.recording);
    assert!(matches!(tui::handle_key(&mut full, KeyCode::Enter, true), Action::StopMic));
    let reply = terminal::handle_line(&mut line, "", true).unwrap();
    assert!(matches!(reply.action, Action::StopMic));
}

#[test]
fn clearing_drops_a_half_answer_in_both() {
    let mut full = AppState::default();
    let mut line = State::new();
    for e in [AppEvent::TranscriptFinal(text("hi")), AppEvent::LlmToken(text("A"))] {
        event(&mut full, e.clone());
        terminal::handle_event(&mut line, e);
    }
    tui::handle_key(&mut full, KeyCode::Char('c'), true);
    terminal::handle_line(&mut line, "c", true);
    assert!(matches!(event(&mut full, AppEvent::LlmComplete), Action::Idle));
    let reply = terminal::handle_event(&mut line, AppEvent::LlmComplete);
    assert!(matches!(reply.action, Action::Idle));
    assert!(full.conversation.is_empty() && line.conversation.is_empty());
    assert!(full.status == Status::Idle && line.status == Status::Idle);
}

#[test]
fn other_keys_and_releases_do_nothing() {
    let mut state = AppState::default();
    for key in [KeyCode::Char('x'), KeyCode::Char('Q'), KeyCode::Other] {
        assert!(matches!(tui::handle_key(&mut state, key, true), Action::Idle));
    }
    let code = KeyCode::Char('q');
    tui::handle_key_event(&mut state, KeyKind::Release, code, true);
    assert!(state.error.is_none());
    tui::handle_key_event(&mut state, KeyKind::Repeat, code, true);
    assert!(state.should_quit());
    let mut state = AppState::default();
    tui::handle_key_event(&mut state, KeyKind::Press, code, true);
    assert!(state.should_quit());
}

#[test]
fn scrolling_saturates_and_a_new_utterance_resets_it() {
    let mut state = AppState::default();
    tui::handle_key(&mut state, KeyCode::Down, true);
    assert_eq!(state.scroll_offset, 0);
    tui::handle_key(&mut state, KeyCode::Up, true);
    tui::handle_key(&mut state, KeyCode::Up, true);
    tui::handle_key(&mut state, KeyCode::Down, true);
    assert_eq!(state.scroll_offset, 1);
    event(&mut state, AppEvent::TranscriptFinal(text("hi")));
    assert_eq!(state.scroll_offset, 0);
    state.scroll_offset = u16::MAX;
    tui::handle_key(&mut state, KeyCode::Up, true);
    assert_eq!(state.scroll_offset, u16::MAX);
}

#[test]
fn the_waveform_keeps_its_length() {
    let mut state = AppState::default();
    for i in 0..70u32 {
        event(&mut state, AppEvent::AudioLevel(i));
        assert_eq!(state.waveform.len(), 60);
    }
    assert_eq!(state.waveform[0], 10);
    assert_eq!(state.waveform[59], 69);
}

#[test]
fn clearing_drops_all_that_is_shown() {
    let mut state = AppState::default();
    state.conversation.push(Message::User(text("a")));
    state.current_transcript = text("b");
    state.current_response = text("c");
    state.error = Some(text("d"));
    tui::handle_key(&mut state, KeyCode::Char('c'), false);
    assert!(state.conversation.is_empty());
    assert_eq!(state.current_transcript, "");
    assert_eq!(state.current_response, "");
    assert!(state.error.is_none());
}

#[test]
fn commands_of_a_line() {
    assert_eq!(terminal::read_command("  QUIT \r\n"), Command::Quit);
    assert_eq!(terminal::read_command("q"), Command::Quit);
    assert_eq!(terminal::read_command("Exit"), Command::Quit);
    assert_eq!(terminal::read_command("C"), Command::Clear);
    assert_eq!(terminal::read_command("clear\u{3000}"), Command::Clear);
    assert_eq!(terminal::read_command(""), Command::Talk);
    assert_eq!(terminal::read_command("quit now"), Command::Talk);
    assert_eq!(terminal::word_command("QUIT"), Command::Talk);
}

#[test]
fn a_turn_in_the_terminal() {
    let mut state = State::new();
    let reply = terminal::handle_line(&mut state, "", true).unwrap();
    assert!(matches!(reply.action, Action::StartMic));
    assert_eq!(reply.output, "");
    assert!(!reply.prompt);
    let reply = terminal::handle_mic_outcome(&mut state, Ok(()), "key", 16000);
    assert_eq!(
        reply.output,
        "\n\x1b[33m\x1b[1m  ◉ listening\x1b[0m\x1b[2m  (ENTER to stop)\x1b[0m\n"
    );
    assert!(matches!(reply.action, Action::Transcribe { .. }));
    assert_eq!(state.status, Status::Listening);
    assert!(state.recording);
    let reply = terminal::handle_event(&mut state, AppEvent::TranscriptPartial(text("he")));
    assert_eq!(reply.output, "\x1b[2K\r\x1b[33m  ◉ he\x1b[0m");
    let reply = terminal::handle_line(&mut state, "x", true).unwrap();
    assert!(matches!(reply.action, Action::StopMic));
    assert_eq!(reply.output, "\x1b[2K\r\x1b[2m  processing...\x1b[0m");
    assert!(!state.recording);
    let reply = terminal::handle_event(&mut state, AppEvent::TranscriptFinal(text("hello")));
    assert_eq!(
        reply.output,
        "\x1b[2K\r\x1b[2m\x1b[33m  you: hello\x1b[0m\n\n\x1b[35m\x1b[1m  ◈ brainiac:\x1b[0m "
    );
    assert!(!reply.prompt);
    match reply.action {
        Action::Complete { history, .. } => assert_eq!(said(&history[0]), ("user", "hello")),
        other => panic!("{:?}", other),
    }
    assert_eq!(state.status, Status::Thinking);
    let reply = terminal::handle_line(&mut state, "", true).unwrap();
    assert!(matches!(reply.action, Action::Idle));
    assert_eq!(reply.output, "");
    let reply = terminal::handle_event(&mut state, AppEvent::LlmToken(text("Hi")));
    assert_eq!(reply.output, "\x1b[36mHi\x1b[0m");
    let reply = terminal::handle_event(&mut state, AppEvent::LlmComplete);
    assert_eq!(reply.output, "\n\x1b[2m  ◈ speaking...\x1b[0m\n");
    match reply.action {
        Action::Speak { text, stop_mic: false } => assert_eq!(text, "Hi"),
        other => panic!("{:?}", other),
    }
    assert_eq!(state.status, Status::Speaking);
    let reply = terminal::handle_event(&mut state, AppEvent::AudioLevel(7));
    assert_eq!(reply.output, "");
    assert!(!reply.prompt);
    let reply = terminal::handle_event(&mut state, AppEvent::TtsComplete);
    assert!(reply.prompt);
    assert_eq!(reply.output, "");
    assert_eq!(state.status, Status::Idle);
    assert_eq!(state.conversation.len(), 2);
}

#[test]
fn terminal_failures_and_empty_answers() {
    let mut state = State::new();
    let reply = terminal::handle_line(&mut state, "", false).unwrap();
    assert_eq!(reply.output, "\x1b[31m  no microphone\x1b[0m\n");
    assert!(reply.prompt);
    let reply = terminal::handle_mic_outcome(&mut state, Err(text("gone")), "k", 1);
    assert_eq!(reply.output, "\x1b[31m  mic error: gone\x1b[0m\n");
    assert!(reply.prompt);
    assert_eq!(state.status, Status::Idle);
    state.status = Status::Listening;
    let reply = terminal::handle_event(&mut state, AppEvent::TranscriptFinal(text("")));
    assert_eq!(reply.output, "\x1b[2K\r\x1b[2m  (no speech detected)\x1b[0m\n");
    assert!(reply.prompt);
    assert_eq!(state.status, Status::Idle);
    state.status = Status::Thinking;
    let reply = terminal::handle_event(&mut state, AppEvent::LlmComplete);
    assert_eq!(reply.output, "\n");
    assert!(reply.prompt);
    assert_eq!(state.status, Status::Idle);
    state.status = Status::Thinking;
    let reply = terminal::handle_event(&mut state, AppEvent::Error(text("bad")));
    assert_eq!(reply.output, "\x1b[2K\r\x1b[31m  error: bad\x1b[0m\n");
    assert!(reply.prompt);
    assert_eq!(state.status, Status::Idle);
}

#[test]
fn terminal_clear_and_quit() {
    let mut state = State::new();
    state.conversation.push(Message::User(text("a")));
    state.current_response = text("half an");
    let reply = terminal::handle_line(&mut state, " Clear ", true).unwrap();
    assert_eq!(reply.output, "\x1b[2m  conversation cleared\x1b[0m\n");
    assert!(reply.prompt);
    assert!(state.conversation.is_empty());
    assert_eq!(state.current_response, "");
    assert!(terminal::handle_line(&mut state, "quit", true).is_none());
    assert_eq!(terminal::farewell(), "\n\x1b[2m  brainiac offline\x1b[0m\n");
}

#[test]
fn terminal_texts() {
    assert_eq!(terminal::prompt(), "\x1b[32m  ▸ \x1b[0m");
    assert_eq!(terminal::mic_text(&Ok(44100)), "\x1b[2m  mic ready @ 44100Hz\x1b[0m\n");
    assert_eq!(
        terminal::mic_text(&Err(text("none"))),
        "\x1b[31m  mic unavailable: none\x1b[0m\n"
    );
    let rule = "\x1b[2m  ─────────────────────────────────────\x1b[0m\n";
    let expected = format!(
        "\n\x1b[36m\x1b[1m  ◈ BRAINIAC\x1b[0m\x1b[2m v0.1 — DeepSeek + Deepgram\x1b[0m\n{rule}\
         \x1b[2m  ENTER  start/stop listening\x1b[0m\n\
         \x1b[2m  c      clear conversation\x1b[0m\n\
         \x1b[2m  q      quit\x1b[0m\n{rule}\n"
    );
    assert_eq!(terminal::banner(), expected);
}

#[test]
fn both_front_ends_ask_for_the_same() {
    let mut full = AppState::default();
    let mut line = State::new();
    let events = vec![
        AppEvent::AudioLevel(9),
        AppEvent::TranscriptPartial(text("a")),
        AppEvent::TranscriptFinal(text("ab")),
        AppEvent::LlmToken(text("c")),
        AppEvent::TranscriptFinal(text("")),
        AppEvent::LlmToken(text("d")),
        AppEvent::Error(text("e")),
        AppEvent::LlmComplete,
        AppEvent::LlmComplete,
        AppEvent::TtsComplete,
    ];
    for e in events {
        let copy = e.clone();
        let action = tui::handle_app_event(&mut full, e);
        let reply = terminal::handle_event(&mut line, copy);
        assert_eq!(format!("{:?}", action), format!("{:?}", reply.action));
        assert_eq!(full.status, line.status);
        assert_eq!(full.recording, line.recording);
        assert_eq!(full.current_response, line.current_response);
        assert_eq!(
            format!("{:?}", full.conversation),
            format!("{:?}", line.conversation)
        );
    }
    assert_eq!(said(&full.conversation[1]), ("assistant", "cd"));
}
