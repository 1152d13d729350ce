//! Core of a dual-pane terminal file manager with optional remote access.
//!
//! The heart of the crate is the embedded-shell subsystem: a from-scratch
//! VT100/ANSI escape-sequence interpreter over a styled, cursor-addressed
//! virtual screen (`terminal`), its SGR style resolver (`style`), and the
//! bounded, cache-carrying output buffer a shell session streams into
//! (`outbuf`). `laws` proves what the interpreter shows for whole classes of
//! input. Around that core stand the pure rules of the browser itself: file
//! metadata formatting and entry ordering (`filesystem`), panel selection and
//! scrolling (`file_panel`), the application state with its key bindings and
//! confirmation decisions (`app`), and connection-string parsing (`ssh`).
//!
//! Everything that touches a process, a socket, a file descriptor or a
//! screen lives outside this crate and talks to it in plain values.

pub mod app;
pub mod file_panel;
pub mod filesystem;
pub mod laws;
pub mod outbuf;
pub mod params;
pub mod ssh;
pub mod strutil;
pub mod style;
pub mod terminal;
