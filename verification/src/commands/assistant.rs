//! What the assistant's settings commands accept.

use vstd::prelude::*;
use crate::text::{concat, same_text};
use crate::settings::{file_value, lookup, pairs_view};
use crate::autolearn::detect::string_views;

verus! {

/// A setting's value is refused: the message names the setting and the value.
pub open spec fn refusal(what: Seq<char>, value: Seq<char>) -> Seq<char> {
    "Unknown "@ + what + ": "@ + value
}

/// The message refusing `value` for the setting named `what`.
fn refuse(what: &str, value: &str) -> (r: String)
    ensures
        r@ == refusal(what@, value@),
{
    concat(concat(concat("Unknown ", what).as_str(), ": ").as_str(), value)
}

/// Accept a font size of the panel: "small", "medium" or "large".
pub fn check_font_size(size: &str) -> (r: Result<(), String>)
    ensures
        match r {
            Ok(()) => size@ == "small"@ || size@ == "medium"@ || size@ == "large"@,
            Err(e) => !(size@ == "small"@ || size@ == "medium"@ || size@ == "large"@) && e@
                == refusal("font size"@, size@),
        },
{
    if same_text(size, "small") || same_text(size, "medium") || same_text(size, "large") {
        Ok(())
    } else {
        Err(refuse("font size", size))
    }
}

/// Accept a speech engine: "kokoro", "openai", "elevenlabs" or "azure".
pub fn check_tts_engine(engine: &str) -> (r: Result<(), String>)
    ensures
        match r {
            Ok(()) => engine@ == "kokoro"@ || engine@ == "openai"@ || engine@ == "elevenlabs"@
                || engine@ == "azure"@,
            Err(e) => !(engine@ == "kokoro"@ || engine@ == "openai"@ || engine@ == "elevenlabs"@
                || engine@ == "azure"@) && e@ == refusal("TTS engine"@, engine@),
        },
{
    if same_text(engine, "kokoro") || same_text(engine, "openai") || same_text(engine, "elevenlabs")
        || same_text(engine, "azure") {
        Ok(())
    } else {
        Err(refuse("TTS engine", engine))
    }
}

/// Accept a precision of the local voice model: "fp32", "fp16", "q8", "q4"
/// or "q4f16".
pub fn check_kokoro_dtype(dtype: &str) -> (r: Result<(), String>)
    ensures
        match r {
            Ok(()) => dtype@ == "fp32"@ || dtype@ == "fp16"@ || dtype@ == "q8"@ || dtype@ == "q4"@
                || dtype@ == "q4f16"@,
            Err(e) => !(dtype@ == "fp32"@ || dtype@ == "fp16"@ || dtype@ == "q8"@ || dtype@
                == "q4"@ || dtype@ == "q4f16"@) && e@ == refusal("Kokoro dtype"@, dtype@),
        },
{
    if same_text(dtype, "fp32") || same_text(dtype, "fp16") || same_text(dtype, "q8") || same_text(
        dtype,
        "q4",
    ) || same_text(dtype, "q4f16") {
        Ok(())
    } else {
        Err(refuse("Kokoro dtype", dtype))
    }
}

/// Accept a panel size: "compact", "standard" or "large".
pub fn check_panel_size(size: &str) -> (r: Result<(), String>)
    ensures
        match r {
            Ok(()) => size@ == "compact"@ || size@ == "standard"@ || size@ == "large"@,
            Err(e) => !(size@ == "compact"@ || size@ == "standard"@ || size@ == "large"@) && e@
                == refusal("panel size"@, size@),
        },
{
    if same_text(size, "compact") || same_text(size, "standard") || same_text(size, "large") {
        Ok(())
    } else {
        Err(refuse("panel size", size))
    }
}

/// Accept an assistant provider only when it is one of the configured ones.
pub fn check_provider_known(provider_ids: &[String], provider_id: &str) -> (r: Result<(), String>)
    ensures
        match r {
            Ok(()) => string_views(provider_ids@).contains(provider_id@),
            Err(e) => !string_views(provider_ids@).contains(provider_id@) && e@ == refusal(
                "provider"@,
                provider_id@,
            ),
        },
{
    let ghost ids = string_views(provider_ids@);
    let mut i: usize = 0;
    while i < provider_ids.len()
        invariant
            i <= provider_ids@.len(),
            ids == string_views(provider_ids@),
            forall|t: int| 0 <= t < i ==> ids[t] != provider_id@,
        decreases provider_ids.len() - i,
    {
        if same_text(provider_ids[i].as_str(), provider_id) {
            assert(ids[i as int] == provider_id@);
            return Ok(());
        }
        i += 1;
    }
    Err(refuse("provider", provider_id))
}

/// Most prior messages a model may receive as context.
pub const MAX_HISTORY_MESSAGES_SETTING: u32 = 200;

/// The stored number of prior messages sent as context: at most
/// `MAX_HISTORY_MESSAGES_SETTING`.
pub fn clamp_max_history_messages(count: u32) -> (r: u32)
    ensures
        r == if count < MAX_HISTORY_MESSAGES_SETTING {
            count
        } else {
            MAX_HISTORY_MESSAGES_SETTING
        },
{
    if count < MAX_HISTORY_MESSAGES_SETTING {
        count
    } else {
        MAX_HISTORY_MESSAGES_SETTING
    }
}

/// Whether a reply is spoken in the panel (the local engine plays there)
/// rather than by the remote engine.
pub fn speaks_in_panel(engine: &str) -> (r: bool)
    ensures
        r == (engine@ == "kokoro"@),
{
    same_text(engine, "kokoro")
}

/// What the "Test voice" button says: the local engine is tested in the panel.
pub const KOKORO_TEST_REFUSAL: &'static str =
    "Kokoro is tested locally in the browser, not via this command";

/// The sentence spoken to test the remote engine.
pub const TTS_TEST_SAMPLE: &'static str = "Hi! This is a test of Handy's voice output.";

/// What testing the voice does: the sample to speak with the remote engine,
/// or the refusal for the local one.
pub fn tts_test_sample(engine: &str) -> (r: Result<&'static str, String>)
    ensures
        match r {
            Ok(s) => engine@ != "kokoro"@ && s@ == TTS_TEST_SAMPLE@,
            Err(e) => engine@ == "kokoro"@ && e@ == KOKORO_TEST_REFUSAL@,
        },
{
    if same_text(engine, "kokoro") {
        Err(KOKORO_TEST_REFUSAL.to_string())
    } else {
        Ok(TTS_TEST_SAMPLE)
    }
}


/// Set the assistant's model for one provider, as given, leaving the other
/// providers' models alone.
pub fn change_assistant_model_setting(
    models: &mut Vec<(String, String)>,
    provider_id: &str,
    model: String,
)
    ensures
        lookup(pairs_view(final(models)@), provider_id@) == model@,
        forall|k: Seq<char>|
            k != provider_id@ ==> #[trigger] lookup(pairs_view(final(models)@), k) == lookup(
                pairs_view(old(models)@),
                k,
            ),
{
    file_value(models, provider_id, model);
}

} // verus!
