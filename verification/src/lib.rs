use vstd::prelude::*;

pub mod account;
pub mod cdp;
pub mod inspector;
pub mod json;
pub mod models;
pub mod order;
pub mod plugin;
pub mod scripts;
pub mod ports;
pub mod search;
pub mod shortcut;
pub mod switch;
pub mod text;

verus! {
} // verus!
