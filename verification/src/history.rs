//! Immutable library history events.

use vstd::prelude::*;
use vstd::string::*;

use crate::ids::{is_v4, AssetId, HistoryEventId};
use crate::text::str_eq;

verus! {

/// What the user did with an asset.
#[derive(Clone, Copy, Debug, PartialEq, Eq, Structural)]
pub enum HistoryAction {
    /// Asset was discovered through search or indexing.
    Discovered,
    /// Asset was opened for composition preview.
    Previewed,
    /// Asset was applied as wallpaper.
    Applied,
    /// Asset was added to favorites.
    Favorited,
    /// Asset was added to a named collection.
    Collected,
}

/// One append-only history record.
#[derive(Clone, Copy, Debug, PartialEq, Eq, Structural)]
pub struct HistoryEvent {
    /// Stable identity.
    pub id: HistoryEventId,
    /// Asset touched by the event.
    pub asset_id: AssetId,
    /// Action performed.
    pub action: HistoryAction,
    /// Unix timestamp in seconds (UTC).
    pub occurred_at_unix: u64,
}

impl HistoryEvent {
    /// Creates a history event for the given asset and action.
    pub fn new(asset_id: AssetId, action: HistoryAction, occurred_at_unix: u64) -> (r: Self)
        ensures
            is_v4(r.id.0),
            r.asset_id == asset_id,
            r.action == action,
            r.occurred_at_unix == occurred_at_unix,
    {
        HistoryEvent { id: HistoryEventId::new(), asset_id, action, occurred_at_unix }
    }
}

/// Stored key of a history action.
pub open spec fn action_key(action: HistoryAction) -> Seq<char> {
    match action {
        HistoryAction::Discovered => "discovered"@,
        HistoryAction::Previewed => "previewed"@,
        HistoryAction::Applied => "applied"@,
        HistoryAction::Favorited => "favorited"@,
        HistoryAction::Collected => "collected"@,
    }
}

/// The stored key of a history action.
pub fn history_action_key(action: HistoryAction) -> (r: &'static str)
    ensures
        r@ == action_key(action),
{
    match action {
        HistoryAction::Discovered => "discovered",
        HistoryAction::Previewed => "previewed",
        HistoryAction::Applied => "applied",
        HistoryAction::Favorited => "favorited",
        HistoryAction::Collected => "collected",
    }
}

/// Reads a stored history action key; unknown keys are reported with the offending text.
pub fn parse_history_action(value: &str) -> (r: Result<HistoryAction, String>)
    ensures
        match r {
            Ok(a) => action_key(a) == value@,
            Err(message) => (forall|a: HistoryAction| action_key(a) != value@) && message@
                == "unknown history action: "@ + value@,
        },
{
    if str_eq(value, "discovered") {
        Ok(HistoryAction::Discovered)
    } else if str_eq(value, "previewed") {
        Ok(HistoryAction::Previewed)
    } else if str_eq(value, "applied") {
        Ok(HistoryAction::Applied)
    } else if str_eq(value, "favorited") {
        Ok(HistoryAction::Favorited)
    } else if str_eq(value, "collected") {
        Ok(HistoryAction::Collected)
    } else {
        let mut message = String::from_str("unknown history action: ");
        message.append(value);
        Err(message)
    }
}

/// Reading back a stored key gives the same action.
pub proof fn lemma_action_key_roundtrip(a: HistoryAction, b: HistoryAction)
    ensures
        action_key(a) == action_key(b) ==> a == b,
{
    reveal_strlit("discovered");
    reveal_strlit("previewed");
    reveal_strlit("applied");
    reveal_strlit("favorited");
    reveal_strlit("collected");
    if action_key(a) == action_key(b) {
        assert(action_key(a).len() == action_key(b).len());
        assert(action_key(a)[0] == action_key(b)[0]);
        assert(action_key(a)[1] == action_key(b)[1]);
    }
}

} // verus!
