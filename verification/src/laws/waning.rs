//! Boards only wane: a fight adds no card, no hit point and no move.

use crate::battle::{battle_after, draws_fit, is_fight, is_over, lemma_turn_wanes, Battle, TurnDraw};
use crate::board::wanes;
use crate::events::CombatEvents;
use crate::player::PlayerData;
use vstd::prelude::*;

verus! {

/// Boards only wane: from any point of a fight to any later one, neither
/// board gains a card, a hit point or a move.
pub proof fn lemma_battle_wanes(
    id1: u16,
    id2: u16,
    start: Battle,
    draws: Seq<TurnDraw>,
    earlier: nat,
    later: nat,
)
    requires
        earlier <= later,
        draws_fit(id1, id2, start, draws, later),
    ensures
        wanes(
            battle_after(id1, id2, start, draws, earlier).hb1,
            battle_after(id1, id2, start, draws, later).hb1,
        ),
        wanes(
            battle_after(id1, id2, start, draws, earlier).hb2,
            battle_after(id1, id2, start, draws, later).hb2,
        ),
    decreases later,
{
    if earlier < later {
        lemma_battle_wanes(id1, id2, start, draws, earlier, (later - 1) as nat);
        let battle = battle_after(id1, id2, start, draws, (later - 1) as nat);
        let draw = draws[later - 1];
        if !is_over(battle.hb1, battle.hb2, battle.to_play) {
            if battle.to_play {
                lemma_turn_wanes(id1, battle.hb1, id2, battle.hb2, draw);
            } else {
                lemma_turn_wanes(id2, battle.hb2, id1, battle.hb1, draw);
            }
        }
    }
}

/// A fight leaves neither player with more cards than they came with.
pub proof fn lemma_fight_never_adds_a_card(
    hb1: PlayerData,
    hb2: PlayerData,
    to_play: bool,
    draws: Seq<TurnDraw>,
    hb1_after: PlayerData,
    hb2_after: PlayerData,
    events: Seq<CombatEvents>,
)
    requires
        is_fight(hb1, hb2, to_play, draws, hb1_after, hb2_after, events),
    ensures
        hb1_after.board@.len() <= hb1.board@.len(),
        hb2_after.board@.len() <= hb2.board@.len(),
{
    let start = Battle { hb1: hb1.board@, hb2: hb2.board@, to_play, events: seq![] };
    lemma_battle_wanes(hb1.id, hb2.id, start, draws, 0, draws.len());
}

} // verus!
