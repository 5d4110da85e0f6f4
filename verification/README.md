# Brainiac

A voice-activated assistant in the terminal. A turn of the conversation goes from
the microphone to speech recognition, on to a language model, and back as speech.

The decisions and computations are a library that is proved with Verus; devices,
network and screen are left to the program around it.

| Path | What it holds |
|---|---|
| `src/audio.rs` | the microphone: when it records, down-mixing, the loudest sample |
| `src/stt.rs` | speech recognition: the request, the bytes sent, what a reply reports |
| `src/llm.rs` | the language model: the conversation and the request for an answer |
| `src/sse.rs` | the streamed answer: events, lines, pieces |
| `src/tts.rs` | speech synthesis: the request |
| `src/tui.rs`, `src/render.rs` | the full-screen front-end and what it shows |
| `src/terminal.rs` | the line-based front-end and what it prints |
| `src/config.rs`, `src/cli.rs` | settings and command line |
| `src/json.rs`, `src/text.rs` | JSON documents and text |
| `src/laws.rs` | what holds of the program as a whole |
| `app/` | the program: threads, sockets, terminal |
| `tests/` | examples, with the outside crates linked |

A few functions in `src/json.rs`, `src/text.rs` and `src/render.rs` call code that is
not proved here. Their doc comments say which, and what is taken for granted of it.
