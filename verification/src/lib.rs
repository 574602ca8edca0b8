//! The decisions of a small terminal multiplexer: sessions, windows, panes and
//! the layouts that tile them, the keys and commands that drive them, the wire
//! protocol between client and server, and the text that is put on screen.
//!
//! Everything here computes on plain values. Terminals, sockets and the screen
//! belong to the program around this library, which performs what the library
//! decides and hands back what came of it.

pub mod cli;
pub mod cli_laws;
pub mod client;
pub mod clipboard;
pub mod command_laws;
pub mod drawing_laws;
pub mod error;
pub mod format;
pub mod format_laws;
pub mod geometry;
pub mod input_laws;
pub mod ipc;
pub mod key_laws;
pub mod keys;
pub mod layout;
pub mod layout_laws;
pub mod list_laws;
pub mod mouse_laws;
pub mod mux;
pub mod mux_laws;
pub mod options;
pub mod paste;
pub mod place_laws;
pub mod protocol;
pub mod render;
pub mod resize_laws;
pub mod send_keys;
pub mod server;
pub mod server_laws;
pub mod session;
pub mod session_laws;
pub mod soundness;
pub mod source;
pub mod source_laws;
pub mod state;
pub mod target;
pub mod terminal_laws;
pub mod text;
pub mod text_laws;
pub mod view;
pub mod view_laws;
pub mod width;
pub mod window;
pub mod window_laws;
