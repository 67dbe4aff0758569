use vstd::prelude::*;

pub mod adblock_engine;
pub mod blocker;
pub mod browser;
pub mod chrome;
pub mod config;
pub mod default_browser;
pub mod downloads;
pub mod navigation;
pub mod text;
pub mod ui;
pub mod updater;
pub mod web_url;

verus! {

} // verus!
