//! One-time-pad encryption with password-wrapped keys and integrity files.

pub mod ansi;
pub mod cli;
pub mod commands;
pub mod commit;
pub mod encoding;
pub mod hash;
pub mod hexcode;
pub mod key;
pub mod otp;
pub mod output;
pub mod plan;
pub mod prompt;
pub mod secure;
pub mod terminal;
pub mod text;
pub mod wrap;

pub use otp::{decrypt, encrypt, generate_key};
