//! How long a fight can last, and when it ends with a loser.

use crate::attack::{
    after_abilities, after_exchange, attack_outcome, fire_attacker, fire_defender,
    spec_attacker_fires, spec_defender_fires, spec_exchange, AttackDraw, Exchange,
};
use crate::battle::{
    battle_after, combat_end, draws_fit, is_combat, is_over, sent, turn_draw_fits, turn_outcome,
    verdict, Battle, TurnDraw,
};
use crate::board::{
    blasted, card_position, is_alive, lemma_card_position_exists, lemma_next_to_play_exists,
    lemma_survivors_stood, lemma_survivors_wane, lemma_update_totals, lemma_worn_board_wanes,
    next_to_play, out_of_moves, survivors, total_hp,
};
use crate::card::{lemma_armour_fires_on_death, Abilities, Card};
use crate::effect::{effect_outcome, lemma_effect_wanes, ARMOUR_DAMAGE};
use crate::events::CombatEvents;
use crate::laws::lineage::{board_stems_from, lemma_battle_stems, stems_from};
use crate::player::PlayerData;
use vstd::prelude::*;

verus! {

/// Whether the ability lowers the attack of a card.
pub open spec fn saps_attack(ability: Abilities) -> bool {
    ability == Abilities::Trap || ability == Abilities::Glitch
}

/// Whether every card of `board` has attack, and none has an ability that
/// lowers the attack of another.
pub open spec fn is_armed(board: Seq<Card>) -> bool {
    forall|i: int|
        0 <= i < board.len() ==> (#[trigger] board[i]).atk >= 1 && !saps_attack(
            board[i].base_card.spec_ability(),
        )
}

/// How many attacks were made in the first `turns` of `draws`, as the fight
/// is played from `start`.
pub open spec fn attacks_made(
    id1: u16,
    id2: u16,
    start: Battle,
    draws: Seq<TurnDraw>,
    turns: nat,
) -> nat
    decreases turns,
{
    if turns == 0 {
        0
    } else {
        let battle = battle_after(id1, id2, start, draws, (turns - 1) as nat);
        let before = attacks_made(id1, id2, start, draws, (turns - 1) as nat);
        if is_over(battle.hb1, battle.hb2, battle.to_play) {
            before
        } else if battle.to_play {
            before + turn_outcome(id1, battle.hb1, id2, battle.hb2, draws[turns - 1]).attacks
        } else {
            before + turn_outcome(id2, battle.hb2, id1, battle.hb1, draws[turns - 1]).attacks
        }
    }
}

/// The survivors of an armed board are armed, and alive.
pub proof fn lemma_survivors_are_steady(board: Seq<Card>)
    requires
        is_armed(board),
    ensures
        is_armed(survivors(board)),
        is_alive(survivors(board)),
{
    let left = survivors(board);
    assert forall|i: int| 0 <= i < left.len() implies (#[trigger] left[i]).hp > 0 && left[i].atk
        >= 1 && !saps_attack(left[i].base_card.spec_ability()) by {
        lemma_survivors_stood(board, i);
        let from = choose|from: int| 0 <= from < board.len() && board[from] == left[i];
        assert(board[from].atk >= 1);
    }
}

/// Between armed boards, an ability leaves both boards armed.
pub proof fn lemma_effect_keeps_armed(
    player_id: u16,
    player: Seq<Card>,
    card_index: int,
    opponent_id: u16,
    opponent: Seq<Card>,
    opponent_card_index: int,
    coin: bool,
)
    requires
        0 <= card_index < player.len(),
        0 <= opponent_card_index < opponent.len(),
        is_armed(player),
        is_armed(opponent),
    ensures
        is_armed(
            effect_outcome(
                player_id,
                player,
                card_index,
                opponent_id,
                opponent,
                opponent_card_index,
                coin,
            ).player,
        ),
        is_armed(
            effect_outcome(
                player_id,
                player,
                card_index,
                opponent_id,
                opponent,
                opponent_card_index,
                coin,
            ).opponent,
        ),
{
    reveal(effect_outcome);
    assert(!saps_attack(player[card_index].base_card.spec_ability()));
    if player[card_index].base_card.spec_ability() == Abilities::ExplodingArmour {
        let hit = blasted(opponent, ARMOUR_DAMAGE);
        assert forall|i: int| 0 <= i < hit.len() implies (#[trigger] hit[i]).atk >= 1
            && !saps_attack(hit[i].base_card.spec_ability()) by {
            assert(opponent[i].atk >= 1);
        }
        lemma_survivors_are_steady(hit);
    } else {
        let outcome = effect_outcome(
            player_id,
            player,
            card_index,
            opponent_id,
            opponent,
            opponent_card_index,
            coin,
        );
        assert forall|i: int| 0 <= i < outcome.opponent.len() implies (
        #[trigger] outcome.opponent[i]).atk >= 1 && !saps_attack(
            outcome.opponent[i].base_card.spec_ability(),
        ) by {
            assert(opponent[i].atk >= 1);
        }
    }
    let outcome = effect_outcome(
        player_id,
        player,
        card_index,
        opponent_id,
        opponent,
        opponent_card_index,
        coin,
    );
    assert forall|i: int| 0 <= i < outcome.player.len() implies (#[trigger] outcome.player[i]).atk
        >= 1 && !saps_attack(outcome.player[i].base_card.spec_ability()) by {
        assert(player[i].atk >= 1);
    }
}

/// Between armed boards whose cards are alive, an attack costs a hit point
/// at least, and leaves both boards armed and their cards alive.
pub proof fn lemma_attack_costs_a_hit_point(
    att_id: u16,
    att: Seq<Card>,
    att_index: int,
    def_id: u16,
    def: Seq<Card>,
    draw: AttackDraw,
)
    requires
        0 <= att_index < att.len(),
        0 <= draw.target < def.len(),
        is_armed(att),
        is_armed(def),
        is_alive(def),
    ensures
        ({
            let outcome = attack_outcome(att_id, att, att_index, def_id, def, draw);
            &&& is_armed(outcome.att)
            &&& is_armed(outcome.def)
            &&& is_alive(outcome.att)
            &&& is_alive(outcome.def)
            &&& total_hp(outcome.att) + total_hp(outcome.def) < total_hp(att) + total_hp(def)
        }),
{
    let def_index = draw.target;
    let attacker = att[att_index];
    let defender = def[def_index];
    let how = spec_exchange(attacker, defender);
    let exchanged = after_exchange(att_id, att, att_index, def_id, def, def_index);
    lemma_update_totals(def, def_index, exchanged.def[def_index]);
    assert(exchanged.def == def.update(def_index, exchanged.def[def_index]));
    assert(total_hp(exchanged.def) < total_hp(def));
    lemma_worn_board_wanes(att, exchanged.att);
    assert forall|i: int| 0 <= i < exchanged.att.len() implies (#[trigger] exchanged.att[i]).atk
        >= 1 && !saps_attack(exchanged.att[i].base_card.spec_ability()) by {
        assert(att[i].atk >= 1);
    }
    assert forall|i: int| 0 <= i < exchanged.def.len() implies (#[trigger] exchanged.def[i]).atk
        >= 1 && !saps_attack(exchanged.def[i].base_card.spec_ability()) by {
        assert(def[i].atk >= 1);
    }
    lemma_armour_fires_on_death(attacker.base_card);
    lemma_armour_fires_on_death(defender.base_card);
    let att_fires = spec_attacker_fires(how, attacker.base_card.spec_trigger());
    let def_fires = spec_defender_fires(how, defender.base_card.spec_trigger());
    if how == Exchange::CounterKill {
        let first = if def_fires {
            lemma_effect_wanes(
                def_id,
                exchanged.def,
                def_index,
                att_id,
                exchanged.att,
                att_index,
                draw.first_coin,
            );
            lemma_effect_keeps_armed(
                def_id,
                exchanged.def,
                def_index,
                att_id,
                exchanged.att,
                att_index,
                draw.first_coin,
            );
            fire_defender(exchanged, att_id, att_index, def_id, def_index, draw.first_coin)
        } else {
            exchanged
        };
        if att_fires {
            lemma_effect_wanes(
                att_id,
                first.att,
                att_index,
                def_id,
                first.def,
                def_index,
                draw.second_coin,
            );
            lemma_effect_keeps_armed(
                att_id,
                first.att,
                att_index,
                def_id,
                first.def,
                def_index,
                draw.second_coin,
            );
        }
    } else {
        let first = if att_fires {
            lemma_effect_wanes(
                att_id,
                exchanged.att,
                att_index,
                def_id,
                exchanged.def,
                def_index,
                draw.first_coin,
            );
            lemma_effect_keeps_armed(
                att_id,
                exchanged.att,
                att_index,
                def_id,
                exchanged.def,
                def_index,
                draw.first_coin,
            );
            fire_attacker(exchanged, att_id, att_index, def_id, def_index, draw.first_coin)
        } else {
            exchanged
        };
        if def_fires {
            lemma_effect_wanes(
                def_id,
                first.def,
                def_index,
                att_id,
                first.att,
                att_index,
                draw.second_coin,
            );
            lemma_effect_keeps_armed(
                def_id,
                first.def,
                def_index,
                att_id,
                first.att,
                att_index,
                draw.second_coin,
            );
        }
    }
    let fought = after_abilities(
        att_id,
        att,
        att_index,
        def_id,
        def,
        def_index,
        draw.first_coin,
        draw.second_coin,
    );
    lemma_survivors_wane(fought.att);
    lemma_survivors_wane(fought.def);
    lemma_survivors_are_steady(fought.att);
    lemma_survivors_are_steady(fought.def);
}

/// Between armed boards whose cards are alive, a turn costs a hit point at
/// least for each attack made in it, and leaves both boards armed and their
/// cards alive.
pub proof fn lemma_turn_costs_hit_points(
    player_id: u16,
    player: Seq<Card>,
    opponent_id: u16,
    opponent: Seq<Card>,
    draw: TurnDraw,
)
    requires
        player.len() > 0,
        turn_draw_fits(player_id, player, opponent_id, opponent, draw),
        is_armed(player),
        is_armed(opponent),
        is_alive(opponent),
    ensures
        ({
            let outcome = turn_outcome(player_id, player, opponent_id, opponent, draw);
            &&& is_armed(outcome.player)
            &&& is_armed(outcome.opponent)
            &&& is_alive(outcome.player)
            &&& is_alive(outcome.opponent)
            &&& outcome.attacks + total_hp(outcome.player) + total_hp(outcome.opponent)
                <= total_hp(player) + total_hp(opponent)
        }),
{
    lemma_next_to_play_exists(player);
    let index = next_to_play(player);
    let lined = sent(player, index);
    lemma_update_totals(player, index, lined[index]);
    assert forall|i: int| 0 <= i < lined.len() implies (#[trigger] lined[i]).atk >= 1
        && !saps_attack(lined[i].base_card.spec_ability()) by {
        assert(player[i].atk >= 1);
    }
    let strike = attack_outcome(player_id, lined, index, opponent_id, opponent, draw.strike);
    lemma_attack_costs_a_hit_point(player_id, lined, index, opponent_id, opponent, draw.strike);
    if strike.replay {
        lemma_card_position_exists(strike.att, player[index].id);
        let again = card_position(strike.att, player[index].id);
        lemma_attack_costs_a_hit_point(
            player_id,
            strike.att,
            again,
            opponent_id,
            strike.def,
            draw.replay,
        );
    }
}

/// A bound on the length of a fight. Between boards whose cards are all
/// alive and have attack, and none of which has an ability that lowers the
/// attack of another, every attack costs a hit point at least: the attacks
/// made so far and the hit points left come to no more than the hit points
/// that the fight started with. So no more attacks are made in the fight
/// than the two boards have hit points at its start.
pub proof fn lemma_attacks_are_bounded(
    id1: u16,
    id2: u16,
    start: Battle,
    draws: Seq<TurnDraw>,
    turns: nat,
)
    requires
        is_armed(start.hb1),
        is_armed(start.hb2),
        is_alive(start.hb1),
        is_alive(start.hb2),
        draws_fit(id1, id2, start, draws, turns),
    ensures
        ({
            let battle = battle_after(id1, id2, start, draws, turns);
            &&& is_armed(battle.hb1)
            &&& is_armed(battle.hb2)
            &&& is_alive(battle.hb1)
            &&& is_alive(battle.hb2)
            &&& attacks_made(id1, id2, start, draws, turns) + total_hp(battle.hb1) + total_hp(
                battle.hb2,
            ) <= total_hp(start.hb1) + total_hp(start.hb2)
        }),
    decreases turns,
{
    if turns > 0 {
        lemma_attacks_are_bounded(id1, id2, start, draws, (turns - 1) as nat);
        let battle = battle_after(id1, id2, start, draws, (turns - 1) as nat);
        let draw = draws[turns - 1];
        if !is_over(battle.hb1, battle.hb2, battle.to_play) {
            if battle.to_play {
                lemma_turn_costs_hit_points(id1, battle.hb1, id2, battle.hb2, draw);
            } else {
                lemma_turn_costs_hit_points(id2, battle.hb2, id1, battle.hb1, draw);
            }
        }
    }
}

/// Whether no card of `board` has been sent to attack more than `bound`
/// times.
pub open spec fn played_within(board: Seq<Card>, bound: nat) -> bool {
    forall|i: int| 0 <= i < board.len() ==> (#[trigger] board[i]).played <= bound
}

/// A fight that ends. Let every card of both boards be alive and have
/// attack, let none have an ability that lowers the attack of another, and
/// let the cards be fresh enough that none can run out of moves before the
/// boards run out of hit points. Then, whatever is drawn, the fight ends
/// with an empty board, and its log with what the fight costs the loser.
pub proof fn lemma_steady_fight_has_a_loser(
    hb1: PlayerData,
    hb2: PlayerData,
    to_play: bool,
    draws: Seq<TurnDraw>,
    events: Seq<CombatEvents>,
    played: nat,
)
    requires
        is_combat(hb1, hb2, to_play, draws, events),
        is_armed(hb1.board@),
        is_armed(hb2.board@),
        is_alive(hb1.board@),
        is_alive(hb2.board@),
        played_within(hb1.board@, played),
        played_within(hb2.board@, played),
        played + total_hp(hb1.board@) + total_hp(hb2.board@) < u8::MAX,
    ensures
        ({
            let end = combat_end(hb1.id, hb1.board@, hb2.id, hb2.board@, to_play, draws);
            &&& end.hb1.len() == 0 || end.hb2.len() == 0
            &&& events.len() > 0
            &&& events.last() is PlayersAttack
        }),
{
    let start = Battle { hb1: hb1.board@, hb2: hb2.board@, to_play, events: seq![] };
    let end = combat_end(hb1.id, hb1.board@, hb2.id, hb2.board@, to_play, draws);
    lemma_attacks_are_bounded(hb1.id, hb2.id, start, draws, draws.len());
    lemma_battle_stems(hb1.id, hb2.id, start, draws, draws.len());
    let made = attacks_made(hb1.id, hb2.id, start, draws, draws.len());
    if end.hb1.len() > 0 && end.hb2.len() > 0 {
        let board = if end.to_play {
            end.hb1
        } else {
            end.hb2
        };
        let from = if end.to_play {
            start.hb1
        } else {
            start.hb2
        };
        assert(board_stems_from(board, from, made));
        let i = choose|i: int|
            0 <= i < from.len() && stems_from(board[0], #[trigger] from[i], made);
        assert(from[i].played <= played);
        assert(board[0].played < u8::MAX);
        assert(!out_of_moves(board));
    }
    let closing = verdict(hb1.id, hb1.hp, end.hb1, hb2.id, hb2.hp, end.hb2);
    assert(closing.len() == 1);
    assert(events.last() == closing[0]);
}

} // verus!
