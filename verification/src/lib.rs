//! Remote control of an Agon emulator, for automated testing.
//!
//! A client drives the emulator over HTTP: it reads the status, the screen, the sound, the memory
//! and the registers, steps the machine frame by frame, halts it and lets it run, injects keys and
//! resets it. This crate decides what each request asks for, what it does to the state that the
//! emulator's threads share, and what it is answered; it also maps joypad input to GPIO pins and
//! keeps the rolling capture of the sound.

pub mod answer_laws;
pub mod audio;
pub mod control_server;
pub mod debugger;
pub mod http;
pub mod joypad;
pub mod laws;
pub mod link;
pub mod query;
pub mod text;
pub mod text_laws;
