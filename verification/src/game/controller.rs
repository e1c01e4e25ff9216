//! What a player can ask for with a key or a button.

use vstd::prelude::*;

verus! {

#[derive(Clone, Copy, Debug, PartialEq, Eq, Structural, Hash)]
pub enum PlayerAction {
    OpenKeyBinds,
    ToggleInspector,
    Scream,
    /// Selects the player's nexus.
    SelectNexus,
    /// Selects the node that was selected before, if one was.
    SelectPrevNode,
    /// Selects the next node, after the previous one was selected.
    SelectNextNode,
    /// Selects a replicator; pressed again, the next one, and after the last
    /// the first again.
    SelectReplicator,
    /// Opens the qubit dialog.
    OpenQubitTradePanel,
    /// Triggers the selected recombinator.
    TriggerRecombinator,
    OpenOptionsMenu,
    HotKey1,
    HotKey2,
    HotKey3,
    HotKey4,
    PanUp,
    PanDown,
    PanLeft,
    PanRight,
    ZoomIn,
    ZoomOut,
}

} // verus!
