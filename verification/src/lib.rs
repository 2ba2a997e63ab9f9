//! ReformoJuste: correction and rewording of a selected text. This crate holds
//! the decisions of the application, each with its contract.
use vstd::prelude::*;

pub mod ai;
pub mod autostart;
pub mod clipboard;
pub mod config;
pub mod cursor;
pub mod hotkey;
pub mod runtime;
pub mod text;

verus! {

} // verus!
