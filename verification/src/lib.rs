//! Verified core of a set of small programs built around a llama.cpp
//! binding: tool-call extraction and dispatch, chat history management,
//! prompt framing, greedy-decode bookkeeping, download progress and the
//! server launcher's argument and exit-code rules.

pub mod chat;
pub mod download;
pub mod generation;
pub mod json;
pub mod launcher;
pub mod prompt;
pub mod text;
pub mod tools;
