//! The assistant's shortcuts, the screen its panel opens on, and the shape
//! the panel's webview draws.

use vstd::prelude::*;
use crate::text::same_text;

verus! {

/// The shortcut bindings that belong to the assistant: the quick ask and the
/// call.
pub const ASSISTANT_BINDING: &'static str = "assistant";

/// The call shortcut.
pub const ASSISTANT_CALL_BINDING: &'static str = "assistant_call";

/// Whether a shortcut belongs to the assistant, and so is switched off with
/// it. Shift "lock" variants are matched by their base id.
pub fn is_assistant_binding(binding_id: &str) -> (r: bool)
    ensures
        r == (binding_id@ == ASSISTANT_BINDING@ || binding_id@ == ASSISTANT_CALL_BINDING@),
{
    same_text(binding_id, ASSISTANT_BINDING) || same_text(binding_id, ASSISTANT_CALL_BINDING)
}

/// Open on the screen the panel was last on.
pub const DISPLAY_LAST_USED: &'static str = "last_used";

/// Open on the screen under the mouse.
pub const DISPLAY_CURSOR: &'static str = "cursor";

/// Open on the primary screen.
pub const DISPLAY_PRIMARY: &'static str = "primary";

/// Whether an `assistant_ask_display` value names a specific screen rather
/// than one of the three policies. Only a named screen is rewritten when the
/// panel is dragged to another monitor.
pub fn display_choice_is_named(choice: &str) -> (r: bool)
    ensures
        r == !(choice@ == DISPLAY_LAST_USED@ || choice@ == DISPLAY_CURSOR@ || choice@
            == DISPLAY_PRIMARY@),
{
    !(same_text(choice, DISPLAY_LAST_USED) || same_text(choice, DISPLAY_CURSOR) || same_text(
        choice,
        DISPLAY_PRIMARY,
    ))
}

/// A connected display, as the settings dropdown describes it.
#[derive(Clone, Debug)]
pub struct DisplayChoice {
    /// The value stored in the settings: the monitor's name where it has
    /// one, and its origin otherwise.
    pub id: String,
    /// The monitor's name as the system reports it.
    pub name: String,
    pub width: u32,
    pub height: u32,
    pub is_primary: bool,
    /// The display the panel would open on right now.
    pub is_current: bool,
}

/// Which shape the panel's webview draws.
#[derive(Clone, Copy, Debug, PartialEq, Eq, Structural)]
pub enum AskStage {
    /// The talking pill: listening, transcribing, thinking.
    Pill,
    /// The pill, on its way out.
    Leaving,
    /// The answer card.
    Card,
}

impl AskStage {
    /// The name the webview matches on.
    pub fn as_str(self) -> (r: &'static str)
        ensures
            r@ == match self {
                AskStage::Pill => "pill"@,
                AskStage::Leaving => "leaving"@,
                AskStage::Card => "card"@,
            },
    {
        match self {
            AskStage::Pill => "pill",
            AskStage::Leaving => "leaving",
            AskStage::Card => "card",
        }
    }
}

} // verus!
