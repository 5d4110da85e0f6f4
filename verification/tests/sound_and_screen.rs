//! Samples, levels, and what the screen shows.

use brainiac::audio;
use brainiac::audio::{Microphone, SampleFormat, StreamAction};
use brainiac::llm::Message;
use brainiac::render;
use brainiac::render::{Area, Color, Span};
use brainiac::tui::{AppState, Status};

fn texts(spans: &[Span]) -> Vec<(&str, Option<Color>, bool)> {
    spans.iter().map(|s| (s.text.as_str(), s.color, s.bold)).collect()
}

fn talk(n: usize) -> AppState {
    let mut state = AppState::default();
    for i in 0..n {
        let t = format!("m{i}");
        state.conversation.push(if i % 2 == 0 {
            Message::User(t)
        } else {
            Message::Assistant(t)
        });
    }
    state
}

fn words(state: &AppState, height: u16) -> Vec<String> {
    render::render_conversation(state, height)
        .iter()
        .map(|e| e.words.text.clone())
        .collect()
}

#[test]
fn one_channel_is_left_as_it_is() {
    assert_eq!(audio::i16_to_mono(&[3, -4, i16::MIN], 1), vec![3, -4, i16::MIN]);
}

#[test]
fn frames_become_their_means() {
    assert_eq!(audio::i16_to_mono(&[10, 20, -30, -41, 7], 2), vec![15, -35, 3]);
    assert_eq!(audio::i16_to_mono(&[-1, -1, 0], 3), vec![0]);
    assert_eq!(audio::i16_to_mono(&[i16::MIN, i16::MIN], 2), vec![i16::MIN]);
    assert_eq!(audio::i16_to_mono(&[i16::MAX, i16::MAX], 2), vec![i16::MAX]);
    assert!(audio::i16_to_mono(&[], 2).is_empty());
    assert_eq!(audio::i16_to_mono(&[9, 9, 9], 70000), vec![0]);
    assert_eq!(audio::i16_to_mono(&[1; 7], 3).len(), 3);
}

#[test]
fn the_peak_is_the_loudest_sample() {
    assert_eq!(audio::peak(&[]), 0);
    assert_eq!(audio::peak(&[0, 5, -6, 3]), 6);
    assert_eq!(audio::peak(&[i16::MIN, i16::MAX]), 32768);
}

#[test]
fn a_microphone_captures_only_while_it_records() {
    let mut mic = Microphone::spawn(SampleFormat::I16, "i16", 48000, 2).unwrap();
    assert_eq!(mic.sample_rate, 48000);
    assert!(mic.capture(&[1, 2]).is_none());
    assert_eq!(mic.start_listening(), StreamAction::Play);
    let captured = mic.capture(&[100, 200, -900, -1000]).unwrap();
    assert_eq!(captured.samples, vec![150, -950]);
    assert_eq!(captured.peak, 950);
    assert_eq!(mic.stop_listening(), StreamAction::Pause);
    assert!(mic.capture(&[1, 2]).is_none());
    let silent = Microphone::spawn(SampleFormat::I16, "i16", 48000, 0).unwrap();
    assert!(silent.capture(&[1, 2]).is_none());
}

#[test]
fn other_sample_formats_are_refused() {
    assert!(Microphone::spawn(SampleFormat::F32, "f32", 44100, 1).is_ok());
    let refused = Microphone::spawn(SampleFormat::Other, "U8", 44100, 1);
    assert_eq!(refused.unwrap_err(), "Unsupported sample format: U8");
    assert_eq!(audio::recording_rate(&Ok(8000)), 8000);
    assert_eq!(audio::recording_rate(&Err("x".to_string())), 16000);
}

#[test]
fn levels_are_drawn_as_their_numbers_say() {
    let glyph = |l: f32| {
        if l > 0.75 {
            '█'
        } else if l > 0.50 {
            '▓'
        } else if l > 0.25 {
            '▒'
        } else if l > 0.08 {
            '░'
        } else {
            ' '
        }
    };
    let mut levels = vec![
        0.0f32, -0.0, 0.08, 0.25, 0.5, 0.75, 1.0, 3.5, -0.9, f32::INFINITY, f32::NEG_INFINITY,
        f32::NAN, -f32::NAN, f32::MIN_POSITIVE,
    ];
    for t in [0.08f32, 0.25, 0.5, 0.75] {
        levels.push(f32::from_bits(t.to_bits() + 1));
        levels.push(f32::from_bits(t.to_bits() - 1));
    }
    for i in 0..4000 {
        levels.push(i as f32 / 3000.0);
    }
    for l in levels {
        assert_eq!(render::level_glyph(l.to_bits()), glyph(l), "{}", l);
    }
}

#[test]
fn the_waveform_fits_the_row() {
    let mut state = AppState::default();
    state.waveform.pop_front();
    state.waveform.push_front(1.0f32.to_bits());
    let wave = render::render_waveform(&state, 6);
    assert_eq!(wave.text, "█   ");
    assert_eq!(wave.color, Some(Color::Dim));
    assert_eq!(render::render_waveform(&state, 1).text, "");
    assert_eq!(render::render_waveform(&state, 200).text.chars().count(), 60);
    state.status = Status::Listening;
    assert_eq!(render::render_waveform(&state, 6).color, Some(Color::Yellow));
}

#[test]
fn colours() {
    assert_eq!(Status::Idle.color(), Color::Green);
    assert_eq!(Status::Listening.color(), Color::Yellow);
    assert_eq!(Status::Thinking.color(), Color::Magenta);
    assert_eq!(Status::Speaking.color(), Color::Cyan);
    assert_eq!(Color::Background.rgb(), Some((8, 8, 14)));
    assert_eq!(Color::Cyan.rgb(), Some((0, 240, 255)));
    assert_eq!(Color::Magenta.rgb(), Some((220, 0, 255)));
    assert_eq!(Color::Green.rgb(), Some((0, 255, 120)));
    assert_eq!(Color::Yellow.rgb(), Some((255, 210, 0)));
    assert_eq!(Color::Dim.rgb(), Some((70, 70, 90)));
    assert_eq!(Color::White.rgb(), Some((220, 220, 230)));
    assert_eq!(Color::Pale.rgb(), Some((160, 160, 190)));
    assert_eq!(Color::Red.rgb(), None);
}

#[test]
fn the_header_shows_the_status() {
    let mut state = AppState::default();
    state.status = Status::Thinking;
    let header = render::render_header(&state);
    assert_eq!(
        texts(&header.frame.label),
        vec![
            (" ◉ ", Some(Color::Magenta), true),
            ("THINKING", Some(Color::Magenta), true),
            (" ", None, false),
        ]
    );
    assert_eq!(header.frame.color, Color::Cyan);
    assert_eq!(
        texts(&header.title),
        vec![
            ("  ◈ BRAINIAC", Some(Color::Cyan), true),
            (" v0.1", Some(Color::Dim), false),
        ]
    );
}

#[test]
fn the_latest_messages_are_shown() {
    let state = talk(5);
    assert_eq!(words(&state, 8), vec!["  m3", "  m4"]);
    assert_eq!(words(&state, 7), vec!["  m4"]);
    assert_eq!(words(&state, 0), vec!["  m4"]);
    assert_eq!(words(&state, 100).len(), 5);
    let entries = render::render_conversation(&state, 100);
    assert_eq!(
        texts(std::slice::from_ref(&entries[0].speaker)),
        vec![("▸ You", Some(Color::Yellow), true)]
    );
    assert_eq!(entries[0].words.color, Some(Color::White));
    assert_eq!(
        texts(std::slice::from_ref(&entries[1].speaker)),
        vec![("◈ Brainiac", Some(Color::Cyan), true)]
    );
    assert_eq!(entries[1].words.color, Some(Color::Pale));
    assert!(words(&talk(0), 20).is_empty());
}

#[test]
fn scrolling_back_shows_earlier_messages() {
    let mut state = talk(5);
    state.scroll_offset = 1;
    assert_eq!(words(&state, 8)[0], "  m2");
    state.scroll_offset = 3;
    assert_eq!(words(&state, 8)[0], "  m0");
    state.scroll_offset = u16::MAX;
    assert_eq!(words(&state, 8)[0], "  m0");
}

#[test]
fn what_is_going_on() {
    let mut state = AppState::default();
    state.current_transcript = "heard".to_string();
    state.current_response = "so far".to_string();
    let shown = |s: &AppState| {
        render::render_active(s).map(|a| (a.content, a.color, a.title))
    };
    assert_eq!(shown(&state), None);
    state.status = Status::Listening;
    assert_eq!(shown(&state), Some(("heard".to_string(), Color::Yellow, " transcript ")));
    state.status = Status::Thinking;
    assert_eq!(shown(&state), Some(("so far".to_string(), Color::Magenta, " generating ")));
    state.status = Status::Speaking;
    assert_eq!(shown(&state), Some(("so far".to_string(), Color::Cyan, " speaking ")));
    state.error = Some("bad".to_string());
    assert_eq!(shown(&state), Some(("bad".to_string(), Color::Red, " error ")));
    state.error = Some("__quit__".to_string());
    assert_eq!(shown(&state), None);
}

#[test]
fn the_footer_names_the_keys() {
    let footer = render::render_footer();
    let text: String = footer.iter().map(|s| s.text.as_str()).collect();
    assert_eq!(
        text,
        "  [SPACE/ENTER] push-to-talk   [C] clear   [↑↓] scroll   [Q/ESC] quit  "
    );
    for (i, span) in footer.iter().enumerate() {
        assert_eq!(span.bold, i % 2 == 0);
        let color = if i % 2 == 0 { Color::Cyan } else { Color::Dim };
        assert_eq!(span.color, Some(color));
    }
}

#[test]
fn rows_fill_a_screen_with_room() {
    let state = talk(4);
    let mut heights: Vec<u16> = (17..400).collect();
    heights.extend([1000, 5000, 32767, 32768, 40000, 65000]);
    for height in heights {
        for y in [0u16, 3, 500] {
            let area = Area { x: 2, y, width: 90, height };
            let screen = render::render(area, &state);
            let row = |y: u16, height: u16| Area { x: 2, y, width: 90, height };
            assert_eq!(
                screen.rows,
                vec![
                    row(y, 3),
                    row(y + 3, height - 12),
                    row(y + height - 9, 3),
                    row(y + height - 6, 3),
                    row(y + height - 3, 3),
                ]
            );
        }
    }
    let full = Area { x: 0, y: 0, width: u16::MAX, height: u16::MAX };
    let screen = render::render(full, &state);
    assert_eq!(screen.rows[1].height, u16::MAX - 12);
    let screen = render::render(Area { x: 0, y: 0, width: 40, height: 20 }, &state);
    assert_eq!(screen.conversation.len(), 2);
    assert_eq!(screen.waveform.text.chars().count(), 38);
    assert_eq!(texts(&screen.conversation_frame.label), vec![(" conversation ", Some(Color::Dim), false)]);
    assert_eq!(texts(&screen.waveform_frame.label), vec![(" mic ", Some(Color::Dim), false)]);
    assert!(screen.footer_frame.label.is_empty());
}

#[test]
fn rows_fill_a_screen_without_room() {
    let state = talk(4);
    for height in (0..40u16).chain([300, u16::MAX]) {
        for y in [0u16, 7, u16::MAX - 40, u16::MAX - 18, u16::MAX - 17, u16::MAX - 4, u16::MAX] {
            let screen = render::render(Area { x: 1, y, width: 30, height }, &state);
            let lines = height.min(u16::MAX - y);
            assert_eq!(screen.rows.len(), 5);
            let mut next = y;
            for row in &screen.rows {
                assert_eq!((row.x, row.width), (1, 30));
                assert_eq!(row.y, next);
                next += row.height;
            }
            assert_eq!(next, y + lines);
            for i in [0, 2, 3, 4] {
                assert!(screen.rows[i].height <= 3);
            }
            let talk_lines = if lines >= 17 { lines - 12 } else { lines.min(5) };
            assert_eq!(screen.rows[1].height, talk_lines);
        }
    }
}

#[test]
fn an_entry_ends_with_an_empty_line() {
    let state = talk(1);
    let entries = render::render_conversation(&state, 20);
    let lines = render::entry_lines(&entries[0]);
    assert_eq!(lines.len(), 3);
    assert_eq!(lines[0].text, entries[0].speaker.text);
    assert!(lines[0].bold);
    assert_eq!(lines[1].text, entries[0].words.text);
    assert_eq!(lines[1].color, Some(Color::White));
    assert_eq!((lines[2].text.as_str(), lines[2].color, lines[2].bold), ("", None, false));
}
