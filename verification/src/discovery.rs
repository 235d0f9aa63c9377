//! How models are discovered on OpenRouter: which lists are asked for, with which key, and
//! what a listed model becomes.
use vstd::prelude::*;
use crate::config::opt_string_view;
use crate::logs::concat;
use crate::model::ModelListItem;
use crate::strs::{trim, trim_str};
use crate::text::str_to_string;

verus! {

/// The address of OpenRouter's API.
pub open spec fn openrouter_base() -> Seq<char> {
    "https://openrouter.ai/api/v1"@
}

/// The key sent along, if any: the given one, unless it is blank.
pub open spec fn discovery_key_of(api_key: Option<Seq<char>>) -> Option<Seq<char>> {
    match api_key {
        Some(k) => if trim(k).len() > 0 { Some(k) } else { None },
        None => None,
    }
}

/// Computes `discovery_key_of`.
pub fn discovery_key(api_key: Option<&str>) -> (r: Option<String>)
    ensures
        opt_string_view(r) == discovery_key_of(match api_key { Some(k) => Some(k@), None => None }),
{
    match api_key {
        Some(k) => if trim_str(k).as_str().is_empty() { None } else { Some(str_to_string(k)) },
        None => None,
    }
}

/// The list of the models that the key's account can use; asked for first when there is a
/// key.
pub fn user_models_url() -> (r: String)
    ensures
        r@ == openrouter_base() + "/models/user"@,
{
    proof {
        reveal_strlit("https://openrouter.ai/api/v1");
    }
    concat("https://openrouter.ai/api/v1", "/models/user")
}

/// The public list of models; asked for without a key, or when the account's list could
/// not be had or was empty.
pub fn public_models_url() -> (r: String)
    ensures
        r@ == openrouter_base() + "/models"@,
{
    proof {
        reveal_strlit("https://openrouter.ai/api/v1");
    }
    concat("https://openrouter.ai/api/v1", "/models")
}

/// Whether the account's list answers the discovery: it came back and is not empty.
pub fn user_models_answer(result: &Result<Vec<ModelListItem>, String>) -> (r: bool)
    ensures
        r == (result matches Ok(v) && v@.len() > 0),
{
    match result {
        Ok(v) => v.len() > 0,
        Err(_) => false,
    }
}

/// A listed model as the planner keeps it: its name defaults to its id.
pub fn model_list_item(
    id: String,
    name: Option<String>,
    context_length: Option<u64>,
    pricing_prompt: Option<String>,
    pricing_completion: Option<String>,
) -> (r: ModelListItem)
    ensures
        r.id@ == id@,
        r.name@ == (match name { Some(n) => n@, None => id@ }),
        r.context_length == context_length,
        opt_string_view(r.pricing_prompt) == opt_string_view(pricing_prompt),
        opt_string_view(r.pricing_completion) == opt_string_view(pricing_completion),
{
    let shown = match name {
        Some(n) => n,
        None => id.clone(),
    };
    ModelListItem { id, name: shown, context_length, pricing_prompt, pricing_completion }
}

} // verus!
