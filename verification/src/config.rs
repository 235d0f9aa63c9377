//! The persisted settings of the planner.
use vstd::prelude::*;

verus! {

/// The OpenRouter key and model saved between sessions.
#[derive(Debug, Clone, Default)]
pub struct AppConfig {
    pub openrouter_api_key: Option<String>,
    pub openrouter_model: Option<String>,
}

/// The text of an optional string.
pub open spec fn opt_string_view(o: Option<String>) -> Option<Seq<char>> {
    match o {
        Some(s) => Some(s@),
        None => None,
    }
}

impl View for AppConfig {
    type V = (Option<Seq<char>>, Option<Seq<char>>);

    open spec fn view(&self) -> (Option<Seq<char>>, Option<Seq<char>>) {
        (opt_string_view(self.openrouter_api_key), opt_string_view(self.openrouter_model))
    }
}

} // verus!
