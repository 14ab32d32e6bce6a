//! A phone as a second screen and an input surface for a desktop.
//!
//! The crate holds the host's rules: the wire protocol, the encrypted framing around it, the
//! handling of encoded video, the choice of an encoder, the course of a session,
//! what input does, and the diagnostics. What touches sockets, files, child processes and
//! the display server is left to the program around it.

pub mod annexb;
pub mod backend;
pub mod bytes;
pub mod capture;
pub mod cli;
pub mod client;
pub mod config;
pub mod diagnostics;
pub mod doctor;
pub mod encode;
pub mod hex;
pub mod input;
pub mod keymap;
pub mod latency;
pub mod modes;
pub mod noise;
pub mod pairing;
pub mod pixels;
pub mod proto;
pub mod recording;
pub mod session;
pub mod setting;
pub mod stream;
pub mod text;
