//! Verified core of the Mineradio desktop music player backend.
#![allow(unused_imports)]

pub mod text;
pub mod json;
pub mod cover;
pub mod lru;
pub mod crypto;
pub mod cookie;
pub mod urlcode;
pub mod qq;
pub mod netease;
pub mod pkg;
pub mod dispatch;
pub mod version;
pub mod discover;
pub mod we;
pub mod hotkeys;
pub mod login;
pub mod scanner;
pub mod commands;
pub mod sidecar;
pub mod overlay;
pub mod tracks;
pub mod requests;
