//! No fight makes a card: every card on a board stood there before.

use crate::attack::{
    after_abilities, after_exchange, attack_outcome, fire_attacker, fire_defender,
    spec_attacker_fires, spec_defender_fires, spec_exchange, AttackDraw, Exchange,
};
use crate::battle::{
    battle_after, draws_fit, is_fight, is_over, sent, turn_draw_fits, turn_outcome, Battle,
    TurnDraw,
};
use crate::board::{
    blasted, card_position, lemma_card_position_exists, lemma_next_to_play_exists,
    lemma_survivors_stood, next_to_play, out_of_moves, survivors,
};
use crate::card::{lemma_armour_fires_on_death, Abilities, Card};
use crate::effect::{effect_outcome, lemma_effect_wanes, ARMOUR_DAMAGE};
use crate::events::CombatEvents;
use crate::laws::length::attacks_made;
use crate::player::PlayerData;
use vstd::prelude::*;

verus! {

/// Whether `after` is the card `before` later in a fight, sent to attack
/// `moves` times at most in between: it has the identifier and the type of
/// `before`, no more hit points, and has attacked as often as `before` or up
/// to `moves` times more.
pub open spec fn stems_from(after: Card, before: Card, moves: nat) -> bool {
    &&& after.id == before.id
    &&& after.base_card == before.base_card
    &&& after.hp <= before.hp
    &&& before.played <= after.played <= before.played + moves
}

/// Whether `card` is a card of `before` later in a fight (see
/// [`stems_from`]).
pub open spec fn has_ancestor(card: Card, before: Seq<Card>, moves: nat) -> bool {
    exists|i: int| 0 <= i < before.len() && stems_from(card, #[trigger] before[i], moves)
}

/// Whether every card of `after` is a card of `before` later in a fight.
pub open spec fn board_stems_from(after: Seq<Card>, before: Seq<Card>, moves: nat) -> bool {
    forall|j: int| 0 <= j < after.len() ==> has_ancestor(#[trigger] after[j], before, moves)
}

/// A board whose cards have only lost hit points, each in its place, stems
/// from what it was.
pub proof fn lemma_worn_board_stems(after: Seq<Card>, before: Seq<Card>)
    requires
        after.len() == before.len(),
        forall|i: int| 0 <= i < after.len() ==> stems_from(after[i], before[i], 0),
    ensures
        board_stems_from(after, before, 0),
{
    assert forall|j: int| 0 <= j < after.len() implies has_ancestor(
        #[trigger] after[j],
        before,
        0,
    ) by {
        assert(stems_from(after[j], before[j], 0));
    }
}

/// What stems from a board that stems from another stems from that other.
pub proof fn lemma_stems_go_on(
    last: Seq<Card>,
    middle: Seq<Card>,
    first: Seq<Card>,
    later: nat,
    earlier: nat,
)
    requires
        board_stems_from(last, middle, later),
        board_stems_from(middle, first, earlier),
    ensures
        board_stems_from(last, first, earlier + later),
{
    assert forall|j: int| 0 <= j < last.len() implies has_ancestor(
        #[trigger] last[j],
        first,
        earlier + later,
    ) by {
        let m = choose|m: int|
            0 <= m < middle.len() && stems_from(last[j], #[trigger] middle[m], later);
        let i = choose|i: int|
            0 <= i < first.len() && stems_from(middle[m], #[trigger] first[i], earlier);
        assert(stems_from(last[j], first[i], earlier + later));
    }
}

/// The survivors of a board stem from it.
pub proof fn lemma_survivors_stem(board: Seq<Card>)
    ensures
        board_stems_from(survivors(board), board, 0),
{
    let left = survivors(board);
    assert forall|j: int| 0 <= j < left.len() implies has_ancestor(
        #[trigger] left[j],
        board,
        0,
    ) by {
        lemma_survivors_stood(board, j);
        let i = choose|i: int| 0 <= i < board.len() && board[i] == left[j];
        assert(stems_from(left[j], board[i], 0));
    }
}

/// No ability makes a card: after one, each board stems from what it was.
pub proof fn lemma_effect_stems(
    player_id: u16,
    player: Seq<Card>,
    card_index: int,
    opponent_id: u16,
    opponent: Seq<Card>,
    opponent_card_index: int,
    coin: bool,
)
    requires
        0 <= card_index < player.len(),
        0 <= opponent_card_index < opponent.len(),
    ensures
        board_stems_from(
            effect_outcome(
                player_id,
                player,
                card_index,
                opponent_id,
                opponent,
                opponent_card_index,
                coin,
            ).player,
            player,
            0,
        ),
        board_stems_from(
            effect_outcome(
                player_id,
                player,
                card_index,
                opponent_id,
                opponent,
                opponent_card_index,
                coin,
            ).opponent,
            opponent,
            0,
        ),
{
    reveal(effect_outcome);
    let outcome = effect_outcome(
        player_id,
        player,
        card_index,
        opponent_id,
        opponent,
        opponent_card_index,
        coin,
    );
    lemma_worn_board_stems(outcome.player, player);
    if player[card_index].base_card.spec_ability() == Abilities::ExplodingArmour {
        let hit = blasted(opponent, ARMOUR_DAMAGE);
        lemma_worn_board_stems(hit, opponent);
        lemma_survivors_stem(hit);
        lemma_stems_go_on(survivors(hit), hit, opponent, 0, 0);
    } else {
        lemma_worn_board_stems(outcome.opponent, opponent);
    }
}

/// No attack makes a card: after one, each board stems from what it was.
pub proof fn lemma_attack_stems(
    att_id: u16,
    att: Seq<Card>,
    att_index: int,
    def_id: u16,
    def: Seq<Card>,
    draw: AttackDraw,
)
    requires
        0 <= att_index < att.len(),
        0 <= draw.target < def.len(),
    ensures
        board_stems_from(attack_outcome(att_id, att, att_index, def_id, def, draw).att, att, 0),
        board_stems_from(attack_outcome(att_id, att, att_index, def_id, def, draw).def, def, 0),
{
    let def_index = draw.target;
    let attacker = att[att_index];
    let defender = def[def_index];
    let how = spec_exchange(attacker, defender);
    let exchanged = after_exchange(att_id, att, att_index, def_id, def, def_index);
    lemma_worn_board_stems(exchanged.att, att);
    lemma_worn_board_stems(exchanged.def, def);
    lemma_armour_fires_on_death(attacker.base_card);
    lemma_armour_fires_on_death(defender.base_card);
    let att_fires = spec_attacker_fires(how, attacker.base_card.spec_trigger());
    let def_fires = spec_defender_fires(how, defender.base_card.spec_trigger());
    let first = if how == Exchange::CounterKill {
        if def_fires {
            lemma_effect_wanes(
                def_id,
                exchanged.def,
                def_index,
                att_id,
                exchanged.att,
                att_index,
                draw.first_coin,
            );
            lemma_effect_stems(
                def_id,
                exchanged.def,
                def_index,
                att_id,
                exchanged.att,
                att_index,
                draw.first_coin,
            );
            fire_defender(exchanged, att_id, att_index, def_id, def_index, draw.first_coin)
        } else {
            exchanged
        }
    } else {
        if att_fires {
            lemma_effect_wanes(
                att_id,
                exchanged.att,
                att_index,
                def_id,
                exchanged.def,
                def_index,
                draw.first_coin,
            );
            lemma_effect_stems(
                att_id,
                exchanged.att,
                att_index,
                def_id,
                exchanged.def,
                def_index,
                draw.first_coin,
            );
            fire_attacker(exchanged, att_id, att_index, def_id, def_index, draw.first_coin)
        } else {
            exchanged
        }
    };
    lemma_stems_go_on(first.att, exchanged.att, att, 0, 0);
    lemma_stems_go_on(first.def, exchanged.def, def, 0, 0);
    let fought = after_abilities(
        att_id,
        att,
        att_index,
        def_id,
        def,
        def_index,
        draw.first_coin,
        draw.second_coin,
    );
    if how == Exchange::CounterKill {
        if att_fires {
            lemma_effect_stems(
                att_id,
                first.att,
                att_index,
                def_id,
                first.def,
                def_index,
                draw.second_coin,
            );
        }
    } else {
        if def_fires {
            lemma_effect_stems(
                def_id,
                first.def,
                def_index,
                att_id,
                first.att,
                att_index,
                draw.second_coin,
            );
        }
    }
    lemma_stems_go_on(fought.att, first.att, att, 0, 0);
    lemma_stems_go_on(fought.def, first.def, def, 0, 0);
    lemma_survivors_stem(fought.att);
    lemma_survivors_stem(fought.def);
    lemma_stems_go_on(survivors(fought.att), fought.att, att, 0, 0);
    lemma_stems_go_on(survivors(fought.def), fought.def, def, 0, 0);
}

/// No turn makes a card: after one, each board stems from what it was, and
/// no card was sent to attack more than once.
pub proof fn lemma_turn_stems(
    player_id: u16,
    player: Seq<Card>,
    opponent_id: u16,
    opponent: Seq<Card>,
    draw: TurnDraw,
)
    requires
        player.len() > 0,
        !out_of_moves(player),
        turn_draw_fits(player_id, player, opponent_id, opponent, draw),
    ensures
        board_stems_from(
            turn_outcome(player_id, player, opponent_id, opponent, draw).player,
            player,
            1,
        ),
        board_stems_from(
            turn_outcome(player_id, player, opponent_id, opponent, draw).opponent,
            opponent,
            1,
        ),
{
    lemma_next_to_play_exists(player);
    let index = next_to_play(player);
    let lined = sent(player, index);
    assert forall|j: int| 0 <= j < lined.len() implies has_ancestor(
        #[trigger] lined[j],
        player,
        1,
    ) by {
        assert(stems_from(lined[j], player[j], 1));
    }
    let strike = attack_outcome(player_id, lined, index, opponent_id, opponent, draw.strike);
    lemma_attack_stems(player_id, lined, index, opponent_id, opponent, draw.strike);
    lemma_stems_go_on(strike.att, lined, player, 0, 1);
    if strike.replay {
        lemma_card_position_exists(strike.att, player[index].id);
        let again = card_position(strike.att, player[index].id);
        let replay = attack_outcome(
            player_id,
            strike.att,
            again,
            opponent_id,
            strike.def,
            draw.replay,
        );
        lemma_attack_stems(player_id, strike.att, again, opponent_id, strike.def, draw.replay);
        lemma_stems_go_on(replay.att, strike.att, player, 0, 1);
        lemma_stems_go_on(replay.def, strike.def, opponent, 0, 0);
    }
    let outcome = turn_outcome(player_id, player, opponent_id, opponent, draw);
    assert forall|j: int| 0 <= j < outcome.opponent.len() implies has_ancestor(
        #[trigger] outcome.opponent[j],
        opponent,
        1,
    ) by {
        let i = choose|i: int|
            0 <= i < opponent.len() && stems_from(outcome.opponent[j], #[trigger] opponent[i], 0);
        assert(stems_from(outcome.opponent[j], opponent[i], 1));
    }
}

/// Sending a card to attack more often than it was is no harm to what stems
/// from it.
pub proof fn lemma_stems_with_more_moves(
    after: Seq<Card>,
    before: Seq<Card>,
    moves: nat,
    more: nat,
)
    requires
        board_stems_from(after, before, moves),
        moves <= more,
    ensures
        board_stems_from(after, before, more),
{
    assert forall|j: int| 0 <= j < after.len() implies has_ancestor(
        #[trigger] after[j],
        before,
        more,
    ) by {
        let i = choose|i: int|
            0 <= i < before.len() && stems_from(after[j], #[trigger] before[i], moves);
        assert(stems_from(after[j], before[i], more));
    }
}

/// No fight makes a card. Whatever is drawn, every card that stands on a
/// board in the course of a fight stood there at its start, with the same
/// identifier and the same type, with no fewer hit points, and was sent to
/// attack no more often since than attacks were made.
pub proof fn lemma_battle_stems(
    id1: u16,
    id2: u16,
    start: Battle,
    draws: Seq<TurnDraw>,
    turns: nat,
)
    requires
        draws_fit(id1, id2, start, draws, turns),
    ensures
        board_stems_from(
            battle_after(id1, id2, start, draws, turns).hb1,
            start.hb1,
            attacks_made(id1, id2, start, draws, turns),
        ),
        board_stems_from(
            battle_after(id1, id2, start, draws, turns).hb2,
            start.hb2,
            attacks_made(id1, id2, start, draws, turns),
        ),
    decreases turns,
{
    if turns == 0 {
        lemma_worn_board_stems(start.hb1, start.hb1);
        lemma_worn_board_stems(start.hb2, start.hb2);
    } else {
        lemma_battle_stems(id1, id2, start, draws, (turns - 1) as nat);
        let battle = battle_after(id1, id2, start, draws, (turns - 1) as nat);
        let after = battle_after(id1, id2, start, draws, turns);
        let before = attacks_made(id1, id2, start, draws, (turns - 1) as nat);
        let made = attacks_made(id1, id2, start, draws, turns);
        let draw = draws[turns - 1];
        if !is_over(battle.hb1, battle.hb2, battle.to_play) {
            if battle.to_play {
                lemma_turn_stems(id1, battle.hb1, id2, battle.hb2, draw);
            } else {
                lemma_turn_stems(id2, battle.hb2, id1, battle.hb1, draw);
            }
            lemma_stems_go_on(after.hb1, battle.hb1, start.hb1, 1, before);
            lemma_stems_go_on(after.hb2, battle.hb2, start.hb2, 1, before);
            lemma_stems_with_more_moves(after.hb1, start.hb1, before + 1, made);
            lemma_stems_with_more_moves(after.hb2, start.hb2, before + 1, made);
        }
    }
}

/// Whether `card` is one of the cards of `board`, as far as its identifier
/// and its type tell.
pub open spec fn came_with(card: Card, board: Seq<Card>) -> bool {
    exists|i: int|
        0 <= i < board.len() && (#[trigger] board[i]).id == card.id && board[i].base_card
            == card.base_card && card.hp <= board[i].hp
}

/// A fight hands out no cards: whatever is drawn, each card that a player is
/// left with is one that they came with, and has no more hit points than it
/// came with.
pub proof fn lemma_fight_makes_no_card(
    hb1: PlayerData,
    hb2: PlayerData,
    to_play: bool,
    draws: Seq<TurnDraw>,
    hb1_after: PlayerData,
    hb2_after: PlayerData,
    events: Seq<CombatEvents>,
)
    requires
        is_fight(hb1, hb2, to_play, draws, hb1_after, hb2_after, events),
    ensures
        forall|j: int|
            0 <= j < hb1_after.board@.len() ==> came_with(
                #[trigger] hb1_after.board@[j],
                hb1.board@,
            ),
        forall|j: int|
            0 <= j < hb2_after.board@.len() ==> came_with(
                #[trigger] hb2_after.board@[j],
                hb2.board@,
            ),
{
    let start = Battle { hb1: hb1.board@, hb2: hb2.board@, to_play, events: seq![] };
    lemma_battle_stems(hb1.id, hb2.id, start, draws, draws.len());
    let made = attacks_made(hb1.id, hb2.id, start, draws, draws.len());
    assert forall|j: int| 0 <= j < hb1_after.board@.len() implies came_with(
        #[trigger] hb1_after.board@[j],
        hb1.board@,
    ) by {
        let card = hb1_after.board@[j];
        assert(has_ancestor(card, hb1.board@, made));
        let i = choose|i: int|
            0 <= i < hb1.board@.len() && stems_from(card, #[trigger] hb1.board@[i], made);
        assert(hb1.board@[i].id == card.id);
    }
    assert forall|j: int| 0 <= j < hb2_after.board@.len() implies came_with(
        #[trigger] hb2_after.board@[j],
        hb2.board@,
    ) by {
        let card = hb2_after.board@[j];
        assert(has_ancestor(card, hb2.board@, made));
        let i = choose|i: int|
            0 <= i < hb2.board@.len() && stems_from(card, #[trigger] hb2.board@[i], made);
        assert(hb2.board@[i].id == card.id);
    }
}

} // verus!
