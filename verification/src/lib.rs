use vstd::prelude::*;

pub mod asr;
pub mod audio;
pub mod bench;
pub mod civil;
pub mod commands;
pub mod db;
pub mod digest;
pub mod error;
pub mod flow;
pub mod hotkey;
pub mod inject;
pub mod keystore;
pub mod llm;
pub mod order;
pub mod seed;
pub mod session;
pub mod store;
pub mod text;
pub mod vad;
