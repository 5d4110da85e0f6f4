//! Settings, requests, replies and the streamed answer.

use brainiac::cli;
use brainiac::cli::Mode;
use brainiac::config::{Config, ConfigError, Environment};
use brainiac::events::AppEvent;
use brainiac::llm;
use brainiac::llm::Message;
use brainiac::sse;
use brainiac::sse::{ChatStream, Line};
use brainiac::stt;
use brainiac::stt::{AudioEvent, AudioSender, DgAlternative, DgChannel, DgResponse, SendAction};
use brainiac::text;
use brainiac::tts;

fn environment() -> Environment {
    Environment {
        deepgram_api_key: Some("dg".to_string()),
        deepseek_api_key: Some("ds".to_string()),
        deepseek_base_url: None,
        deepseek_model: None,
        tts_voice: None,
    }
}

fn config() -> Config {
    Config::from_env(environment()).unwrap()
}

fn json(text: &str) -> serde_json::Value {
    serde_json::from_str(text).unwrap()
}

fn shown(events: &[AppEvent]) -> Vec<String> {
    events.iter().map(|e| format!("{:?}", e)).collect()
}

fn data(content: &str) -> String {
    format!("data: {{\"choices\":[{{\"delta\":{{\"content\":\"{content}\"}}}}]}}\n\n")
}

#[test]
fn defaults_of_the_settings() {
    let c = config();
    assert_eq!(c.deepgram_api_key, "dg");
    assert_eq!(c.deepseek_api_key, "ds");
    assert_eq!(c.deepseek_base_url, "https://api.deepseek.com");
    assert_eq!(c.deepseek_model, "deepseek-chat");
    assert_eq!(c.tts_voice, "aura-asteria-en");
}

#[test]
fn settings_that_are_given() {
    let mut env = environment();
    env.deepseek_base_url = Some("http://localhost".to_string());
    env.deepseek_model = Some("m".to_string());
    env.tts_voice = Some(String::new());
    let c = Config::from_env(env).unwrap().clone();
    assert_eq!(c.deepseek_base_url, "http://localhost");
    assert_eq!(c.deepseek_model, "m");
    assert_eq!(c.tts_voice, "");
}

#[test]
fn missing_keys_are_reported_in_order() {
    let mut env = environment();
    env.deepseek_api_key = None;
    let e = Config::from_env(env).unwrap_err();
    assert_eq!(e, ConfigError::DeepseekApiKey);
    assert_eq!(e.message(), "DEEPSEEK_API_KEY not set");
    let mut env = environment();
    env.deepseek_api_key = None;
    env.deepgram_api_key = None;
    let e = Config::from_env(env).unwrap_err();
    assert_eq!(e, ConfigError::DeepgramApiKey);
    assert_eq!(e.message(), "DEEPGRAM_API_KEY not set");
}

#[test]
fn modes_of_the_command_line() {
    let mode = |args: &[&str]| cli::mode(&args.iter().map(|a| a.to_string()).collect());
    assert_eq!(mode(&[]), Mode::Full);
    assert_eq!(mode(&["-m"]), Mode::Minimal);
    assert_eq!(mode(&["x", "--minimal"]), Mode::Minimal);
    assert_eq!(mode(&["--mini"]), Mode::Minimal);
    assert_eq!(mode(&["--minim"]), Mode::Full);
    assert_eq!(mode(&["-m", "-h"]), Mode::Help);
    assert_eq!(mode(&["--help"]), Mode::Help);
}

#[test]
fn chat_requests() {
    let history = vec![
        Message::User("hi \"you\"".to_string()),
        Message::Assistant("yes".to_string()),
    ];
    let request = llm::chat_request(&config(), &history);
    assert_eq!(request.url, "https://api.deepseek.com/v1/chat/completions");
    assert_eq!(request.authorization, "Bearer ds");
    assert_eq!(request.content_type, "application/json");
    let mut expected = json(
        "{\"model\":\"deepseek-chat\",\"stream\":true,\"max_tokens\":512,\"temperature\":0.7,
          \"messages\":[{\"role\":\"system\",\"content\":\"\"},
                        {\"role\":\"user\",\"content\":\"hi \\\"you\\\"\"},
                        {\"role\":\"assistant\",\"content\":\"yes\"}]}",
    );
    expected["messages"][0]["content"] = serde_json::Value::from(llm::SYSTEM_PROMPT);
    assert_eq!(request.body, expected);
    assert_eq!(request.body["temperature"].as_f64(), Some(0.7));
    assert!(llm::SYSTEM_PROMPT.starts_with("You are Brainiac — a voice-activated AI assistant"));
    assert!(llm::SYSTEM_PROMPT.ends_with("polymath. \n\nRules:\n- Be concise, technically precise, and direct. No filler words.\n- Assume expert-level comprehension across all domains.\n- When discussing code, default to Rust or C++ for systems work, TypeScript/Next.js for web.\n- Keep responses short enough to read aloud comfortably — expand only when depth is explicitly requested.\n- Dry wit is welcome. Jargon is fine."));
}

#[test]
fn refused_requests() {
    match llm::refusal("401 Unauthorized", "no key") {
        AppEvent::Error(e) => assert_eq!(e, "LLM 401 Unauthorized: no key"),
        other => panic!("{:?}", other),
    }
    assert_eq!(
        tts::refusal("500 Internal Server Error"),
        "TTS request failed: 500 Internal Server Error"
    );
}

#[test]
fn speech_requests() {
    let request = tts::speech_request(&config(), "say \"this\"");
    assert_eq!(
        request.url,
        "https://api.deepgram.com/v1/speak?model=aura-asteria-en&encoding=linear16&container=wav"
    );
    assert_eq!(request.authorization, "Token dg");
    assert_eq!(request.content_type, "application/json");
    assert_eq!(request.body, json("{\"text\":\"say \\\"this\\\"\"}"));
}

#[test]
fn listen_requests() {
    let request = stt::listen_request("dg", 44100);
    assert_eq!(
        request.url,
        "wss://api.deepgram.com/v1/listen?encoding=linear16&sample_rate=44100&channels=1\
         &model=nova-2&language=en-IN&endpointing=300&utterance_end_ms=1000&interim_results=true"
    );
    assert_eq!(request.authorization, "Token dg");
}

#[test]
fn numerals() {
    for n in [0u32, 7, 10, 99, 100, 16000, 48000, 1234567890, u32::MAX] {
        assert_eq!(text::decimal_of(n), n.to_string());
    }
}

#[test]
fn white_space_is_as_in_the_standard_library() {
    for n in 0..=0x10ffffu32 {
        if let Some(c) = char::from_u32(n) {
            assert_eq!(text::is_white_space(c), c.is_whitespace(), "{:x}", n);
        }
    }
    for s in ["", " ", " a b\u{a0}", "\u{2003}x\n\n", "no", "\t\r\n"] {
        assert_eq!(text::trim_text(s), s.trim());
    }
}

#[test]
fn lines_are_as_in_the_standard_library() {
    for s in ["", "a", "a\n", "a\nb", "a\r\nb\r", "\n", "\n\nx", "a\rb\n\r\nc", "\r\n"] {
        let chars = text::chars_of(s);
        let lines: Vec<String> =
            text::split_lines(&chars).iter().map(|l| text::string_of(l)).collect();
        let expected: Vec<String> = s.lines().map(|l| l.to_string()).collect();
        assert_eq!(lines, expected, "{:?}", s);
    }
}

fn reply(transcript: &str, is_final: Option<bool>, speech_final: Option<bool>) -> DgResponse {
    DgResponse {
        channel: Some(DgChannel {
            alternatives: vec![
                DgAlternative { transcript: transcript.to_string() },
                DgAlternative { transcript: "other".to_string() },
            ],
        }),
        is_final,
        speech_final,
    }
}

#[test]
fn replies_become_transcripts() {
    let event = |r: DgResponse| stt::transcript_event(&r).map(|e| format!("{:?}", e));
    let partial = Some("TranscriptPartial(\"hi there\")".to_string());
    let last = Some("TranscriptFinal(\"hi there\")".to_string());
    assert_eq!(event(reply(" hi there\n", None, None)), partial);
    assert_eq!(event(reply("hi there", Some(false), Some(false))), partial);
    assert_eq!(event(reply("hi there", Some(true), None)), last);
    assert_eq!(event(reply("hi there", None, Some(true))), last);
    assert_eq!(event(reply("  ", Some(true), Some(true))), None);
    let none = DgResponse { channel: None, is_final: Some(true), speech_final: None };
    assert_eq!(event(none), None);
    let empty = DgResponse {
        channel: Some(DgChannel { alternatives: vec![] }),
        is_final: Some(true),
        speech_final: None,
    };
    assert_eq!(event(empty), None);
}

#[test]
fn samples_are_sent_in_little_endian_order() {
    let samples = [0i16, 1, -1, 258, i16::MIN, i16::MAX];
    let bytes = stt::pcm_bytes(&samples);
    let expected: Vec<u8> = samples.iter().flat_map(|s| s.to_le_bytes()).collect();
    assert_eq!(bytes, expected);
    for (i, s) in samples.iter().enumerate() {
        assert_eq!(i16::from_le_bytes([bytes[2 * i], bytes[2 * i + 1]]), *s);
    }
}

#[test]
fn the_sender_of_audio_closes_once() {
    for end in [AudioEvent::Stopped, AudioEvent::SendFailed] {
        let mut sender = AudioSender::new();
        for (samples, expected) in [(vec![1, -2], vec![1, 0, 0xfe, 0xff]), (vec![], vec![])] {
            match sender.send_step(AudioEvent::Samples(samples)) {
                Some(SendAction::Send(bytes)) => assert_eq!(bytes, expected),
                other => panic!("{:?}", other),
            }
            assert!(!sender.ended);
        }
        assert!(matches!(sender.send_step(end), Some(SendAction::Close)));
        assert!(sender.ended);
        assert!(sender.send_step(AudioEvent::SendFailed).is_none());
        assert!(sender.send_step(AudioEvent::Stopped).is_none());
        assert!(sender.send_step(AudioEvent::Samples(vec![3])).is_none());
        assert!(sender.ended);
    }
}

#[test]
fn all_but_successes_are_refusals() {
    for status in [100, 199, 300, 301, 404, 500, u16::MAX] {
        assert!(llm::is_refused(status));
    }
    for status in [200, 204, 299] {
        assert!(!llm::is_refused(status));
    }
}

#[test]
fn lines_of_an_event() {
    let line = |s: &str| format!("{:?}", sse::read_line(&text::chars_of(s)));
    assert_eq!(line(": keep-alive"), "Other");
    assert_eq!(line("data:x"), "Other");
    assert_eq!(line("data"), "Other");
    assert_eq!(line("data: [DONE]"), "Done");
    assert_eq!(line("data:   [DONE] "), "Done");
    assert_eq!(line("data: {}"), "Data(\"{}\")");
    assert!(matches!(sse::read_line(&[]), Line::Other));
}

#[test]
fn pieces_in_documents() {
    let piece = |s: &str| sse::read_data(s);
    assert_eq!(
        piece("{\"choices\":[{\"delta\":{\"content\":\"Hi\"}}]}").as_deref(),
        Some("Hi")
    );
    assert_eq!(piece("{\"choices\":[{\"delta\":{\"content\":\"\"}}]}"), None);
    assert_eq!(piece("{\"choices\":[{\"delta\":{\"content\":null}}]}"), None);
    assert_eq!(piece("{\"choices\":{\"0\":{\"delta\":{\"content\":\"Hi\"}}}}"), None);
    assert_eq!(piece("{\"choices\":[]}"), None);
    assert_eq!(piece("[1,2]"), None);
    assert_eq!(piece("not json"), None);
    assert_eq!(
        sse::read_document(&json("{\"choices\":[{\"delta\":{\"content\":\"a\"}}]}")),
        Some("a".to_string())
    );
}

#[test]
fn an_answer_is_streamed() {
    let mut stream = ChatStream::new();
    let text = format!("{}{}data: [DONE]\n\n{}", data("Hel"), data("lo"), data("never"));
    let events = stream.feed(text.as_bytes());
    assert_eq!(
        shown(&events),
        vec!["LlmToken(\"Hel\")", "LlmToken(\"lo\")", "LlmComplete"]
    );
    assert!(stream.is_done());
    assert!(stream.feed(data("x").as_bytes()).is_empty());
    assert!(stream.finish().is_none());
}

#[test]
fn cuts_do_not_matter() {
    let text = format!(
        "event: m\r\n{}: c\n\n{}\n{}data: [DONE]\n\n",
        data("a"),
        data("ß"),
        data("c")
    );
    let mut whole = ChatStream::new();
    let expected = shown(&whole.feed_text(&text));
    assert_eq!(expected.len(), 4);
    let cuts: Vec<usize> = (0..=text.len()).filter(|&i| text.is_char_boundary(i)).collect();
    for &i in &cuts {
        let mut stream = ChatStream::new();
        let mut events = stream.feed(text[..i].as_bytes());
        events.extend(stream.feed(text[i..].as_bytes()));
        assert_eq!(shown(&events), expected, "{}", i);
    }
    let mut stream = ChatStream::new();
    let mut events = Vec::new();
    for c in text.chars() {
        events.extend(stream.feed_text(&c.to_string()));
    }
    assert_eq!(shown(&events), expected);
}

#[test]
fn an_answer_that_breaks_off_is_completed() {
    let mut stream = ChatStream::new();
    let events = stream.feed_text(&format!("{}data: {{\"cho", data("a")));
    assert_eq!(shown(&events), vec!["LlmToken(\"a\")"]);
    assert!(!stream.is_done());
    assert!(matches!(stream.finish(), Some(AppEvent::LlmComplete)));
    assert!(stream.is_done());
    assert!(stream.finish().is_none());
}

#[test]
fn several_lines_in_one_event() {
    let mut stream = ChatStream::new();
    let one = data("a");
    let two = data("b");
    let text = format!(" \n{}\r\n{}", one.trim_end(), two);
    assert_eq!(
        shown(&stream.feed_text(&text)),
        vec!["LlmToken(\"a\")", "LlmToken(\"b\")"]
    );
}

#[test]
fn bytes_that_are_not_utf8_are_replaced() {
    let mut stream = ChatStream::new();
    let mut bytes = b"data: {\"choices\":[{\"delta\":{\"content\":\"a".to_vec();
    bytes.push(0xff);
    bytes.extend_from_slice(b"b\"}}]}\n\n");
    assert_eq!(shown(&stream.feed(&bytes)), vec!["LlmToken(\"a\u{fffd}b\")"]);
}
