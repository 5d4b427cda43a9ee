//! Nothing is logged to take hit points or attack below zero.

use crate::attack::{
    after_exchange, attack_outcome, fire_attacker, fire_defender, spec_exchange, AttackDraw,
    Exchange,
};
use crate::battle::{
    battle_after, combat_end, is_fight, players_attack, sent, verdict, Battle, TurnDraw,
};
use crate::board::{card_position, lemma_total_rank_bound, next_to_play, total_rank};
use crate::card::{Abilities, Card};
use crate::effect::effect_outcome;
use crate::events::CombatEvents;
use crate::follow::hp_followed_all;
use crate::laws::waning::lemma_battle_wanes;
use crate::player::PlayerData;
use crate::util::spec_lowered;
use vstd::prelude::*;

verus! {

/// The loser is never charged more hit points than they have, and never
/// given any.
pub proof fn lemma_players_attack_spares_zero(winner_id: u16, winner: Seq<Card>, loser_hp: u16)
    requires
        winner.len() <= u8::MAX,
    ensures
        players_attack(winner_id, winner, loser_hp) matches CombatEvents::PlayersAttack {
            change_def_hp,
            ..
        } && 0 <= loser_hp + change_def_hp <= loser_hp,
{
    lemma_total_rank_bound(winner);
}

/// Whether the entry tells of a change to the stats of a card of `board`,
/// the board of `owner`, that leaves neither stat of the card below zero.
pub open spec fn change_fits(event: CombatEvents, owner: u16, board: Seq<Card>) -> bool {
    match event {
        CombatEvents::StatsChange { player_id, card_id, hp, at } => player_id == owner
            && exists|i: int|
            0 <= i < board.len() && (#[trigger] board[i]).id == card_id && board[i].hp + hp >= 0
                && board[i].atk + at >= 0,
        _ => false,
    }
}

/// No ability is ever logged to take a stat below zero: each change of stats
/// in the log of an ability is that of a card of one of the two boards, and
/// the card has at least what the change takes.
pub proof fn lemma_effect_changes_fit(
    player_id: u16,
    player: Seq<Card>,
    card_index: int,
    opponent_id: u16,
    opponent: Seq<Card>,
    opponent_card_index: int,
    coin: bool,
    at: int,
)
    requires
        0 <= card_index < player.len(),
        0 <= opponent_card_index < opponent.len(),
        0 <= at < effect_outcome(
            player_id,
            player,
            card_index,
            opponent_id,
            opponent,
            opponent_card_index,
            coin,
        ).events.len(),
    ensures
        ({
            let event = effect_outcome(
                player_id,
                player,
                card_index,
                opponent_id,
                opponent,
                opponent_card_index,
                coin,
            ).events[at];
            event is StatsChange ==> change_fits(event, player_id, player) || change_fits(
                event,
                opponent_id,
                opponent,
            )
        }),
{
    reveal(effect_outcome);
    let event = effect_outcome(
        player_id,
        player,
        card_index,
        opponent_id,
        opponent,
        opponent_card_index,
        coin,
    ).events[at];
    if event is StatsChange {
        match player[card_index].base_card.spec_ability() {
            Abilities::Gigantism => {
                assert(player[card_index].id == event->StatsChange_card_id);
                assert(change_fits(event, player_id, player));
            },
            Abilities::ExplodingArmour => {
                assert(opponent[at - 1].id == event->StatsChange_card_id);
                assert(change_fits(event, opponent_id, opponent));
            },
            _ => {
                assert(opponent[opponent_card_index].id == event->StatsChange_card_id);
                assert(change_fits(event, opponent_id, opponent));
            },
        }
    }
}

/// A strike is logged with the hit points that it leaves: those that the
/// struck card has on its board after the exchange, never less than zero.
pub proof fn lemma_exchange_shows_hit_points(
    att_id: u16,
    att: Seq<Card>,
    att_index: int,
    def_id: u16,
    def: Seq<Card>,
    def_index: int,
)
    requires
        0 <= att_index < att.len(),
        0 <= def_index < def.len(),
    ensures
        ({
            let exchanged = after_exchange(att_id, att, att_index, def_id, def, def_index);
            &&& exchanged.events[0] matches CombatEvents::Attack { def_hp, .. } && def_hp
                == exchanged.def[def_index].hp
            &&& spec_exchange(att[att_index], def[def_index]) != Exchange::Kill ==> (
            exchanged.events[1] matches CombatEvents::Attack { def_hp, .. } && def_hp
                == exchanged.att[att_index].hp)
        }),
{
}

/// Whether no entry of `log` is the verdict of a fight.
pub open spec fn is_unjudged(log: Seq<CombatEvents>) -> bool {
    forall|at: int| 0 <= at < log.len() ==> !(#[trigger] log[at] is PlayersAttack)
}

/// A log without a verdict leaves the hit points of the players alone.
pub proof fn lemma_unjudged_log_keeps_hp(owner: u16, hp: u16, log: Seq<CombatEvents>)
    requires
        is_unjudged(log),
    ensures
        hp_followed_all(owner, hp, log) == hp,
    decreases log.len(),
{
    if log.len() > 0 {
        let rest = log.drop_last();
        assert(forall|at: int| 0 <= at < rest.len() ==> rest[at] == log[at]);
        lemma_unjudged_log_keeps_hp(owner, hp, rest);
        assert(log.last() == log[log.len() - 1]);
    }
}

/// No ability gives a verdict.
pub proof fn lemma_effect_is_unjudged(
    player_id: u16,
    player: Seq<Card>,
    card_index: int,
    opponent_id: u16,
    opponent: Seq<Card>,
    opponent_card_index: int,
    coin: bool,
)
    ensures
        is_unjudged(
            effect_outcome(
                player_id,
                player,
                card_index,
                opponent_id,
                opponent,
                opponent_card_index,
                coin,
            ).events,
        ),
{
    reveal(effect_outcome);
}

/// No attack gives a verdict.
pub proof fn lemma_attack_is_unjudged(
    att_id: u16,
    att: Seq<Card>,
    att_index: int,
    def_id: u16,
    def: Seq<Card>,
    draw: AttackDraw,
)
    ensures
        is_unjudged(attack_outcome(att_id, att, att_index, def_id, def, draw).events),
{
    let def_index = draw.target;
    let exchanged = after_exchange(att_id, att, att_index, def_id, def, def_index);
    let how = spec_exchange(att[att_index], def[def_index]);
    let first = if how == Exchange::CounterKill {
        lemma_effect_is_unjudged(
            def_id,
            exchanged.def,
            def_index,
            att_id,
            exchanged.att,
            att_index,
            draw.first_coin,
        );
        fire_defender(exchanged, att_id, att_index, def_id, def_index, draw.first_coin)
    } else {
        lemma_effect_is_unjudged(
            att_id,
            exchanged.att,
            att_index,
            def_id,
            exchanged.def,
            def_index,
            draw.first_coin,
        );
        fire_attacker(exchanged, att_id, att_index, def_id, def_index, draw.first_coin)
    };
    assert(is_unjudged(exchanged.events));
    assert(is_unjudged(first.events));
    lemma_effect_is_unjudged(
        att_id,
        exchanged.att,
        att_index,
        def_id,
        exchanged.def,
        def_index,
        draw.second_coin,
    );
    lemma_effect_is_unjudged(
        def_id,
        exchanged.def,
        def_index,
        att_id,
        exchanged.att,
        att_index,
        draw.second_coin,
    );
    lemma_effect_is_unjudged(
        att_id,
        first.att,
        att_index,
        def_id,
        first.def,
        def_index,
        draw.second_coin,
    );
    lemma_effect_is_unjudged(
        def_id,
        first.def,
        def_index,
        att_id,
        first.att,
        att_index,
        draw.second_coin,
    );
}

/// The verdict comes at the close of the log and nowhere else: the turns of
/// a fight log none.
pub proof fn lemma_battle_is_unjudged(
    id1: u16,
    id2: u16,
    start: Battle,
    draws: Seq<TurnDraw>,
    turns: nat,
)
    requires
        is_unjudged(start.events),
    ensures
        is_unjudged(battle_after(id1, id2, start, draws, turns).events),
    decreases turns,
{
    if turns > 0 {
        lemma_battle_is_unjudged(id1, id2, start, draws, (turns - 1) as nat);
        let battle = battle_after(id1, id2, start, draws, (turns - 1) as nat);
        let draw = draws[turns - 1];
        let (player_id, player, opponent_id, opponent) = if battle.to_play {
            (id1, battle.hb1, id2, battle.hb2)
        } else {
            (id2, battle.hb2, id1, battle.hb1)
        };
        let index = next_to_play(player);
        let strike = attack_outcome(
            player_id,
            sent(player, index),
            index,
            opponent_id,
            opponent,
            draw.strike,
        );
        lemma_attack_is_unjudged(
            player_id,
            sent(player, index),
            index,
            opponent_id,
            opponent,
            draw.strike,
        );
        lemma_attack_is_unjudged(
            player_id,
            strike.att,
            card_position(strike.att, player[index].id),
            opponent_id,
            strike.def,
            draw.replay,
        );
    }
}

/// The log tells what the fight costs. Let two players fight whom their
/// identifiers tell apart. A reader who follows the log learns of the hit
/// points of a player that they are what they were, unless the player has
/// lost the fight: then they are lower by the ranks of the winner's board,
/// and zero where the ranks come to more than the player had. They are never
/// taken below zero.
pub proof fn lemma_log_tells_the_cost(
    hb1: PlayerData,
    hb2: PlayerData,
    to_play: bool,
    draws: Seq<TurnDraw>,
    hb1_after: PlayerData,
    hb2_after: PlayerData,
    events: Seq<CombatEvents>,
)
    requires
        is_fight(hb1, hb2, to_play, draws, hb1_after, hb2_after, events),
        hb1.id != hb2.id,
        hb1.board@.len() <= u8::MAX,
        hb2.board@.len() <= u8::MAX,
    ensures
        hp_followed_all(hb1.id, hb1.hp, events) == if hb1_after.board@.len() == 0 {
            spec_lowered(hb1.hp, total_rank(hb2_after.board@) as u16)
        } else {
            hb1.hp
        },
        hp_followed_all(hb2.id, hb2.hp, events) == if hb1_after.board@.len() > 0
            && hb2_after.board@.len() == 0 {
            spec_lowered(hb2.hp, total_rank(hb1_after.board@) as u16)
        } else {
            hb2.hp
        },
{
    let start = Battle { hb1: hb1.board@, hb2: hb2.board@, to_play, events: seq![] };
    let end = combat_end(hb1.id, hb1.board@, hb2.id, hb2.board@, to_play, draws);
    lemma_battle_is_unjudged(hb1.id, hb2.id, start, draws, draws.len());
    lemma_unjudged_log_keeps_hp(hb1.id, hb1.hp, end.events);
    lemma_unjudged_log_keeps_hp(hb2.id, hb2.hp, end.events);
    lemma_battle_wanes(hb1.id, hb2.id, start, draws, 0, draws.len());
    lemma_total_rank_bound(end.hb1);
    lemma_total_rank_bound(end.hb2);
    let closing = verdict(hb1.id, hb1.hp, end.hb1, hb2.id, hb2.hp, end.hb2);
    if closing.len() > 0 {
        assert(events.drop_last() =~= end.events);
        assert(events.last() == closing[0]);
    } else {
        assert(events =~= end.events);
    }
}

} // verus!
