//! Cause before effect: no death is logged before what has killed.

use crate::attack::{
    after_exchange, attack_outcome, fire_attacker, fire_defender, spec_attacker_fires,
    spec_defender_fires, spec_exchange, AttackDraw, Exchange,
};
use crate::battle::{
    battle_after, combat_end, is_combat, is_over, sent, turn_outcome, verdict, Battle, TurnDraw,
};
use crate::board::{card_position, next_to_play};
use crate::card::{Abilities, Card};
use crate::effect::effect_outcome;
use crate::events::CombatEvents;
use crate::player::PlayerData;
use vstd::prelude::*;

verus! {

/// Whether the ability can take the last hit points of a card.
pub open spec fn is_deadly(ability: Abilities) -> bool {
    ability == Abilities::ToxicSpores || ability == Abilities::Poisonous || ability
        == Abilities::ExplodingArmour || ability == Abilities::Glitch
}

/// Whether the entry tells of something that can kill a card of `owner`: a
/// strike that leaves a card of `owner` without hit points, or a deadly
/// ability of the other player.
pub open spec fn may_kill(event: CombatEvents, owner: u16) -> bool {
    match event {
        CombatEvents::Attack { def_id, def_hp, .. } => def_id == owner && def_hp == 0,
        CombatEvents::ApplyAbility { player_id, ability, .. } => player_id != owner && is_deadly(
            ability,
        ),
        _ => false,
    }
}

/// Whether entry `at` of `log`, where it tells of a death, comes after an
/// entry that tells of what can have killed the card.
pub open spec fn death_has_cause(log: Seq<CombatEvents>, at: int) -> bool {
    match log[at] {
        CombatEvents::Death { player_id, .. } => exists|before: int|
            0 <= before < at && may_kill(#[trigger] log[before], player_id),
        _ => true,
    }
}

/// Whether no death is logged before its cause.
pub open spec fn is_causal(log: Seq<CombatEvents>) -> bool {
    forall|at: int| 0 <= at < log.len() ==> #[trigger] death_has_cause(log, at)
}

/// Two logs in which no death comes before its cause make one such log.
pub proof fn lemma_causal_logs_join(first: Seq<CombatEvents>, second: Seq<CombatEvents>)
    requires
        is_causal(first),
        is_causal(second),
    ensures
        is_causal(first + second),
{
    let log = first + second;
    assert forall|at: int| 0 <= at < log.len() implies #[trigger] death_has_cause(log, at) by {
        if at < first.len() {
            assert(death_has_cause(first, at));
            if let CombatEvents::Death { player_id, .. } = first[at] {
                let before = choose|before: int|
                    0 <= before < at && may_kill(#[trigger] first[before], player_id);
                assert(may_kill(log[before], player_id));
            }
        } else {
            let back = at - first.len();
            assert(death_has_cause(second, back));
            if let CombatEvents::Death { player_id, .. } = second[back] {
                let before = choose|before: int|
                    0 <= before < back && may_kill(#[trigger] second[before], player_id);
                assert(may_kill(log[before + first.len()], player_id));
            }
        }
    }
}

/// In the log of an ability no death comes before its cause: the log opens
/// with the ability, and only a deadly one logs a death.
pub proof fn lemma_effect_log_is_causal(
    player_id: u16,
    player: Seq<Card>,
    card_index: int,
    opponent_id: u16,
    opponent: Seq<Card>,
    opponent_card_index: int,
    coin: bool,
)
    requires
        player_id != opponent_id,
    ensures
        is_causal(
            effect_outcome(
                player_id,
                player,
                card_index,
                opponent_id,
                opponent,
                opponent_card_index,
                coin,
            ).events,
        ),
{
    reveal(effect_outcome);
    let log = effect_outcome(
        player_id,
        player,
        card_index,
        opponent_id,
        opponent,
        opponent_card_index,
        coin,
    ).events;
    assert forall|at: int| 0 <= at < log.len() implies #[trigger] death_has_cause(log, at) by {
        if let CombatEvents::Death { player_id: owner, .. } = log[at] {
            assert(may_kill(log[0], owner));
        }
    }
}

/// In the log of an attack no death comes before its cause.
pub proof fn lemma_attack_log_is_causal(
    att_id: u16,
    att: Seq<Card>,
    att_index: int,
    def_id: u16,
    def: Seq<Card>,
    draw: AttackDraw,
)
    requires
        att_id != def_id,
    ensures
        is_causal(attack_outcome(att_id, att, att_index, def_id, def, draw).events),
{
    let def_index = draw.target;
    let attacker = att[att_index];
    let defender = def[def_index];
    let how = spec_exchange(attacker, defender);
    let exchanged = after_exchange(att_id, att, att_index, def_id, def, def_index);
    let log = exchanged.events;
    assert forall|at: int| 0 <= at < log.len() implies #[trigger] death_has_cause(log, at) by {
        if let CombatEvents::Death { player_id: owner, .. } = log[at] {
            assert(may_kill(log[at - 1], owner));
        }
    }
    let att_fires = spec_attacker_fires(how, attacker.base_card.spec_trigger());
    let def_fires = spec_defender_fires(how, defender.base_card.spec_trigger());
    if how == Exchange::CounterKill {
        let first = if def_fires {
            lemma_effect_log_is_causal(
                def_id,
                exchanged.def,
                def_index,
                att_id,
                exchanged.att,
                att_index,
                draw.first_coin,
            );
            fire_defender(exchanged, att_id, att_index, def_id, def_index, draw.first_coin)
        } else {
            exchanged
        };
        if def_fires {
            lemma_causal_logs_join(
                log,
                effect_outcome(
                    def_id,
                    exchanged.def,
                    def_index,
                    att_id,
                    exchanged.att,
                    att_index,
                    draw.first_coin,
                ).events,
            );
        }
        if att_fires {
            lemma_effect_log_is_causal(
                att_id,
                first.att,
                att_index,
                def_id,
                first.def,
                def_index,
                draw.second_coin,
            );
            lemma_causal_logs_join(
                first.events,
                effect_outcome(
                    att_id,
                    first.att,
                    att_index,
                    def_id,
                    first.def,
                    def_index,
                    draw.second_coin,
                ).events,
            );
        }
    } else {
        let first = if att_fires {
            lemma_effect_log_is_causal(
                att_id,
                exchanged.att,
                att_index,
                def_id,
                exchanged.def,
                def_index,
                draw.first_coin,
            );
            fire_attacker(exchanged, att_id, att_index, def_id, def_index, draw.first_coin)
        } else {
            exchanged
        };
        if att_fires {
            lemma_causal_logs_join(
                log,
                effect_outcome(
                    att_id,
                    exchanged.att,
                    att_index,
                    def_id,
                    exchanged.def,
                    def_index,
                    draw.first_coin,
                ).events,
            );
        }
        if def_fires {
            lemma_effect_log_is_causal(
                def_id,
                first.def,
                def_index,
                att_id,
                first.att,
                att_index,
                draw.second_coin,
            );
            lemma_causal_logs_join(
                first.events,
                effect_outcome(
                    def_id,
                    first.def,
                    def_index,
                    att_id,
                    first.att,
                    att_index,
                    draw.second_coin,
                ).events,
            );
        }
    }
}

/// In the log of a turn no death comes before its cause.
pub proof fn lemma_turn_log_is_causal(
    player_id: u16,
    player: Seq<Card>,
    opponent_id: u16,
    opponent: Seq<Card>,
    draw: TurnDraw,
)
    requires
        player_id != opponent_id,
    ensures
        is_causal(turn_outcome(player_id, player, opponent_id, opponent, draw).events),
{
    let index = next_to_play(player);
    let strike = attack_outcome(
        player_id,
        sent(player, index),
        index,
        opponent_id,
        opponent,
        draw.strike,
    );
    lemma_attack_log_is_causal(
        player_id,
        sent(player, index),
        index,
        opponent_id,
        opponent,
        draw.strike,
    );
    if strike.replay {
        let again = card_position(strike.att, player[index].id);
        lemma_attack_log_is_causal(
            player_id,
            strike.att,
            again,
            opponent_id,
            strike.def,
            draw.replay,
        );
        let replay = attack_outcome(
            player_id,
            strike.att,
            again,
            opponent_id,
            strike.def,
            draw.replay,
        );
        lemma_causal_logs_join(strike.events, replay.events);
    }
}

/// As a fight goes on, no death is logged before its cause.
pub proof fn lemma_battle_log_is_causal(
    id1: u16,
    id2: u16,
    start: Battle,
    draws: Seq<TurnDraw>,
    turns: nat,
)
    requires
        id1 != id2,
        is_causal(start.events),
    ensures
        is_causal(battle_after(id1, id2, start, draws, turns).events),
    decreases turns,
{
    if turns > 0 {
        lemma_battle_log_is_causal(id1, id2, start, draws, (turns - 1) as nat);
        let battle = battle_after(id1, id2, start, draws, (turns - 1) as nat);
        let draw = draws[turns - 1];
        if !is_over(battle.hb1, battle.hb2, battle.to_play) {
            if battle.to_play {
                lemma_turn_log_is_causal(id1, battle.hb1, id2, battle.hb2, draw);
                lemma_causal_logs_join(
                    battle.events,
                    turn_outcome(id1, battle.hb1, id2, battle.hb2, draw).events,
                );
            } else {
                lemma_turn_log_is_causal(id2, battle.hb2, id1, battle.hb1, draw);
                lemma_causal_logs_join(
                    battle.events,
                    turn_outcome(id2, battle.hb2, id1, battle.hb1, draw).events,
                );
            }
        }
    }
}

/// Cause before effect: in the log of a fight between two players that
/// their identifiers tell apart, every death comes after a strike that left
/// a card of its owner without hit points, or after a deadly ability of the
/// other player.
pub proof fn lemma_combat_log_is_causal(
    hb1: PlayerData,
    hb2: PlayerData,
    to_play: bool,
    draws: Seq<TurnDraw>,
    events: Seq<CombatEvents>,
)
    requires
        hb1.id != hb2.id,
        is_combat(hb1, hb2, to_play, draws, events),
    ensures
        is_causal(events),
{
    let start = Battle { hb1: hb1.board@, hb2: hb2.board@, to_play, events: seq![] };
    let end = combat_end(hb1.id, hb1.board@, hb2.id, hb2.board@, to_play, draws);
    lemma_battle_log_is_causal(hb1.id, hb2.id, start, draws, draws.len());
    let closing = verdict(hb1.id, hb1.hp, end.hb1, hb2.id, hb2.hp, end.hb2);
    assert(is_causal(closing));
    lemma_causal_logs_join(end.events, closing);
}

} // verus!
