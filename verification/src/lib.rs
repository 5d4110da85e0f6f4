//! Brainiac, a voice-activated assistant in the terminal: the part of it that
//! decides and computes.
//!
//! A turn goes from the microphone (`audio`) to speech recognition (`stt`), the
//! language model (`llm`, whose streamed answer `sse` reads) and speech synthesis
//! (`tts`). Two front-ends drive it: `tui`, with what it shows in `render`, and
//! `terminal`. Each takes key presses, lines and events, changes its state, and
//! says what is to be done next; devices, network and screen are left to the
//! program around this library. What holds of it as a whole stands in `laws`.

pub mod audio;
pub mod cli;
pub mod config;
pub mod events;
pub mod json;
pub mod laws;
pub mod llm;
pub mod render;
pub mod sse;
pub mod stt;
pub mod terminal;
pub mod text;
pub mod tts;
pub mod tui;
