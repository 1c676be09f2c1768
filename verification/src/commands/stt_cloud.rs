//! Messages, key status and the settings writes of cloud speech-to-text.

use vstd::prelude::*;
use crate::autolearn::detect::string_views;
use crate::settings::{file_value, has_key, lookup, lookup_value, pairs_view, unfile};
use crate::text::{concat, same_text, trim, trim_ws};

verus! {

/// Why cloud transcription cannot be used.
#[derive(Clone, Copy, Debug, PartialEq, Eq, Structural)]
pub enum CloudSttUnavailableReason {
    NotEnabled,
    SelectedProviderMissing,
    MissingApiKey,
    NoModelConfigured,
}

/// A failure to resolve the cloud transcription configuration.
#[derive(Clone, Debug)]
pub struct CloudSttResolutionError {
    pub reason: CloudSttUnavailableReason,
    /// The selected provider's id, when one is selected.
    pub provider_id: Option<String>,
    /// The selected provider's name, when it is known.
    pub provider_label: Option<String>,
}

/// `s`, or `fallback` when there is none.
pub open spec fn or_else(s: Option<String>, fallback: Seq<char>) -> Seq<char> {
    match s {
        Some(v) => v@,
        None => fallback,
    }
}

pub const NOT_ENABLED: &'static str = "Cloud transcription is turned off";
pub const UNKNOWN_PROVIDER: &'static str = "Unknown provider: ";
pub const NO_PROVIDER: &'static str = "(none)";
pub const ADD_KEY: &'static str = "Add an API key for ";
pub const CHOOSE_MODEL: &'static str = "Choose a model for ";
pub const THIS_PROVIDER: &'static str = "this provider";
pub const FIRST: &'static str = " first";

/// The text of an optional string, or `fallback`.
fn text_or(s: Option<String>, fallback: &str) -> (r: String)
    ensures
        r@ == or_else(s, fallback@),
{
    match s {
        Some(v) => v,
        None => fallback.to_owned(),
    }
}

/// Turn a resolution failure into a message for the user.
pub fn describe_unavailable(error: CloudSttResolutionError) -> (r: String)
    ensures
        r@ == match error.reason {
            CloudSttUnavailableReason::NotEnabled => NOT_ENABLED@,
            CloudSttUnavailableReason::SelectedProviderMissing => UNKNOWN_PROVIDER@ + or_else(
                error.provider_id,
                NO_PROVIDER@,
            ),
            CloudSttUnavailableReason::MissingApiKey => ADD_KEY@ + or_else(
                error.provider_label,
                THIS_PROVIDER@,
            ) + FIRST@,
            CloudSttUnavailableReason::NoModelConfigured => CHOOSE_MODEL@ + or_else(
                error.provider_label,
                THIS_PROVIDER@,
            ) + FIRST@,
        },
{
    match error.reason {
        CloudSttUnavailableReason::NotEnabled => NOT_ENABLED.to_owned(),
        CloudSttUnavailableReason::SelectedProviderMissing => {
            let id = text_or(error.provider_id, NO_PROVIDER);
            concat(UNKNOWN_PROVIDER, id.as_str())
        },
        CloudSttUnavailableReason::MissingApiKey => {
            let label = text_or(error.provider_label, THIS_PROVIDER);
            let head = concat(ADD_KEY, label.as_str());
            concat(head.as_str(), FIRST)
        },
        CloudSttUnavailableReason::NoModelConfigured => {
            let label = text_or(error.provider_label, THIS_PROVIDER);
            let head = concat(CHOOSE_MODEL, label.as_str());
            concat(head.as_str(), FIRST)
        },
    }
}

/// Whether a non-blank key is on file for each provider, in the providers'
/// order.
pub fn cloud_stt_key_status(provider_ids: &Vec<String>, keys: &Vec<(String, String)>) -> (r: Vec<
    (String, bool),
>)
    ensures
        r@.len() == provider_ids@.len(),
        forall|i: int|
            0 <= i < r@.len() ==> (#[trigger] r@[i]).0@ == provider_ids@[i]@ && r@[i].1 == (trim_ws(
                lookup(pairs_view(keys@), provider_ids@[i]@),
            ).len() > 0),
{
    let mut out: Vec<(String, bool)> = Vec::new();
    let mut i: usize = 0;
    while i < provider_ids.len()
        invariant
            i <= provider_ids@.len(),
            out@.len() == i,
            forall|t: int|
                0 <= t < i ==> (#[trigger] out@[t]).0@ == provider_ids@[t]@ && out@[t].1 == (
                trim_ws(lookup(pairs_view(keys@), provider_ids@[t]@)).len() > 0),
        decreases provider_ids.len() - i,
    {
        let key = lookup_value(keys, &provider_ids[i]);
        let has_key = trim(key.as_str()).unicode_len() > 0;
        out.push((provider_ids[i].clone(), has_key));
        i += 1;
    }
    out
}


/// Store a provider's API key, trimmed: reading the provider's key back
/// gives it, and every other provider's key is as it was.
pub fn set_cloud_stt_api_key(keys: &mut Vec<(String, String)>, provider_id: &str, api_key: &str)
    ensures
        lookup(pairs_view(final(keys)@), provider_id@) == trim_ws(api_key@),
        forall|k: Seq<char>|
            k != provider_id@ ==> #[trigger] lookup(pairs_view(final(keys)@), k) == lookup(
                pairs_view(old(keys)@),
                k,
            ),
{
    file_value(keys, provider_id, trim(api_key));
}

/// Set the model of one provider, trimmed, leaving the other providers'
/// models alone.
pub fn set_cloud_stt_model(models: &mut Vec<(String, String)>, provider_id: &str, model: &str)
    ensures
        lookup(pairs_view(final(models)@), provider_id@) == trim_ws(model@),
        forall|k: Seq<char>|
            k != provider_id@ ==> #[trigger] lookup(pairs_view(final(models)@), k) == lookup(
                pairs_view(old(models)@),
                k,
            ),
{
    file_value(models, provider_id, trim(model));
}

/// Set the address override of one provider, trimmed; a blank address
/// removes the override, so the provider's own address applies again.
pub fn set_cloud_stt_base_url(urls: &mut Vec<(String, String)>, provider_id: &str, base_url: &str)
    ensures
        trim_ws(base_url@).len() == 0 ==> !has_key(pairs_view(final(urls)@), provider_id@),
        trim_ws(base_url@).len() > 0 ==> has_key(pairs_view(final(urls)@), provider_id@) && lookup(
            pairs_view(final(urls)@),
            provider_id@,
        ) == trim_ws(base_url@),
        forall|k: Seq<char>|
            k != provider_id@ ==> #[trigger] lookup(pairs_view(final(urls)@), k) == lookup(
                pairs_view(old(urls)@),
                k,
            ) && has_key(pairs_view(final(urls)@), k) == has_key(pairs_view(old(urls)@), k),
{
    let trimmed = trim(base_url);
    if trimmed.as_str().is_empty() {
        unfile(urls, provider_id);
    } else {
        file_value(urls, provider_id, trimmed);
    }
}

/// Select the active cloud provider, only when it is one of the configured
/// ones; gives whether the selection changed hands to it.
pub fn set_cloud_stt_provider(provider_ids: &[String], active: &mut String, provider_id: &str) -> (r:
    bool)
    ensures
        r == string_views(provider_ids@).contains(provider_id@),
        final(active)@ == if r {
            provider_id@
        } else {
            old(active)@
        },
{
    let ghost ids = string_views(provider_ids@);
    let mut i: usize = 0;
    while i < provider_ids.len()
        invariant
            i <= provider_ids@.len(),
            ids == string_views(provider_ids@),
            forall|t: int| 0 <= t < i ==> ids[t] != provider_id@,
            active@ == old(active)@,
        decreases provider_ids.len() - i,
    {
        if same_text(provider_ids[i].as_str(), provider_id) {
            assert(ids[i as int] == provider_id@);
            *active = provider_id.to_string();
            return true;
        }
        i += 1;
    }
    false
}

} // verus!
