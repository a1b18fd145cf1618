pub mod text;
pub mod hex;
pub mod forth_state;
pub mod show_words;
pub mod connection;
pub mod patterns;
pub mod reset_state;
pub mod handshake_state;
pub mod connected_state;
pub mod session;
