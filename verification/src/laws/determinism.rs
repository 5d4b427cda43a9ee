//! The same boards and the same draws give the same fight.

use crate::battle::{is_combat, is_fight, TurnDraw};
use crate::events::CombatEvents;
use crate::player::PlayerData;
use vstd::prelude::*;

verus! {

/// The same boards and the same draws give the same fight: the log and the
/// boards that are left depend on nothing else.
pub proof fn lemma_fight_is_determined(
    hb1: PlayerData,
    hb2: PlayerData,
    to_play: bool,
    draws: Seq<TurnDraw>,
    once: (PlayerData, PlayerData, Seq<CombatEvents>),
    again: (PlayerData, PlayerData, Seq<CombatEvents>),
)
    requires
        is_fight(hb1, hb2, to_play, draws, once.0, once.1, once.2),
        is_fight(hb1, hb2, to_play, draws, again.0, again.1, again.2),
    ensures
        once.2 == again.2,
        once.0.board@ == again.0.board@,
        once.1.board@ == again.1.board@,
{
}

/// The same boards and the same draws give the same log.
pub proof fn lemma_combat_is_determined(
    hb1: PlayerData,
    hb2: PlayerData,
    to_play: bool,
    draws: Seq<TurnDraw>,
    once: Seq<CombatEvents>,
    again: Seq<CombatEvents>,
)
    requires
        is_combat(hb1, hb2, to_play, draws, once),
        is_combat(hb1, hb2, to_play, draws, again),
    ensures
        once == again,
{
}

} // verus!
