use vstd::prelude::*;

pub mod events;
pub mod fileinfo;
pub mod finder;
pub mod preview;
pub mod filter;
pub mod fuzzy;
pub mod input;
pub mod session;
pub mod status;
pub mod walker;

verus! {

/// Application-wide startup state: the option string handed in by the entry
/// point, and the walk mode it selected.
pub struct AppState {
    pub option: std::sync::Arc<String>,
    pub show_mode: walker::FindType,
}

} // verus!
