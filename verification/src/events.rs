use crate::card::Abilities;
use vstd::prelude::*;

verus! {

/// One entry of the log of a fight. The log is read in order: an entry tells
/// of something that happened after all that the entries before it tell of.
///
/// Players are named by their identifier, cards by their identifier or by
/// their place on their owner's board at the time of the entry.
#[derive(Copy, Clone, Debug, PartialEq, Eq, Structural)]
pub enum CombatEvents {
    /// A card strikes a card of the other board. `def_hp` is what the strike
    /// leaves of the struck card's hit points, never less than zero.
    Attack { att_id: u16, att_card_index: u8, def_id: u16, def_card_index: u8, def_hp: u16 },
    /// A card of `player_id` dies.
    Death { player_id: u16, card_id: u32 },
    /// The stats of a card of `player_id` change by `hp` and `at`.
    StatsChange { player_id: u16, card_id: u32, hp: i32, at: i32 },
    /// The ability of a card of `player_id` fires.
    ApplyAbility { card_index: u8, player_id: u16, ability: Abilities, card_id: u32 },
    /// The gold of `player_id` changes by `change`.
    GoldChange { player_id: u16, change: i32 },
    /// The fight is over: `att_id` has won it, and the hit points of the
    /// other player change by `change_def_hp`.
    PlayersAttack { att_id: u16, change_def_hp: i32 },
}

} // verus!
