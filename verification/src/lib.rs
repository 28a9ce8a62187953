use vstd::prelude::*;

pub mod text;
pub mod translation;
pub mod popup;
pub mod app_state;
pub mod commands;
pub mod selection;
pub mod hex;
pub mod config;
pub mod shortcut;

verus! {
}
