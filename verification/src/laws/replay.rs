//! The log tells the whole fight: who follows it knows the boards.

use crate::attack::{
    after_abilities, after_exchange, attack_outcome, fire_attacker, fire_defender,
    lemma_attack_wanes, spec_attacker_fires, spec_defender_fires, spec_exchange, struck_by,
    AttackDraw, Exchange,
};
use crate::battle::{
    battle_after, combat_end, draws_fit, is_fight, is_over, sent, turn_draw_fits, turn_outcome,
    verdict, Battle, TurnDraw,
};
use crate::board::{
    blasted, card_position, holds_card, is_alive, lemma_card_position_exists,
    lemma_next_to_play_exists, lemma_survivors_stood, next_to_play, survivors,
};
use crate::card::{lemma_armour_fires_on_death, Abilities, Card};
use crate::effect::{
    blast_events, effect_outcome, lemma_effect_wanes, stats_change, ARMOUR_DAMAGE, GIGANTISM_BONUS,
    GLITCH_DAMAGE, PILLAGE_GOLD,
};
use crate::events::CombatEvents;
use crate::follow::{
    board_followed, board_followed_all, spec_with_change, with_stats_change, without_card,
};
use crate::player::PlayerData;
use crate::util::{spec_lowered, spec_raised};
use vstd::prelude::*;

verus! {

/// Whether a reader of the log who sees the card `seen` sees `card` as it
/// is, but for how often it was sent to attack, of which the log tells
/// nothing.
pub open spec fn looks_like(seen: Card, card: Card) -> bool {
    &&& seen.id == card.id
    &&& seen.base_card == card.base_card
    &&& seen.hp == card.hp
    &&& seen.atk == card.atk
}

/// Whether a reader who sees the board `seen` sees `board` as it is, card by
/// card (see [`looks_like`]).
pub open spec fn same_cards(seen: Seq<Card>, board: Seq<Card>) -> bool {
    &&& seen.len() == board.len()
    &&& forall|i: int| 0 <= i < seen.len() ==> looks_like(#[trigger] seen[i], board[i])
}

/// Whether a reader who sees the board `seen` sees what is left of `board`
/// once the dead have gone. In the course of an attack a card without hit
/// points stays on its board until the attack is over, while the reader
/// takes it off when its death is logged.
pub open spec fn reads(seen: Seq<Card>, board: Seq<Card>) -> bool {
    same_cards(seen, survivors(board))
}

/// Whether no two cards of `board` carry the same identifier.
pub open spec fn ids_differ(board: Seq<Card>) -> bool {
    forall|i: int, j: int|
        0 <= i < j < board.len() ==> (#[trigger] board[i]).id != (#[trigger] board[j]).id
}

/// Where no card is dead none leaves.
pub proof fn lemma_alive_survive(board: Seq<Card>)
    requires
        is_alive(board),
    ensures
        survivors(board) == board,
    decreases board.len(),
{
    if board.len() > 0 {
        let rest = board.drop_last();
        assert(forall|i: int| 0 <= i < rest.len() ==> rest[i] == board[i]);
        lemma_alive_survive(rest);
        assert(board.last() == board[board.len() - 1]);
        assert(rest.push(board.last()) == board);
    }
}

/// The survivors are alive.
pub proof fn lemma_survivors_alive(board: Seq<Card>)
    ensures
        is_alive(survivors(board)),
{
    assert forall|i: int| 0 <= i < survivors(board).len() implies (
    #[trigger] survivors(board)[i]).hp > 0 by {
        lemma_survivors_stood(board, i);
    }
}

/// A card of the survivors is a card of the board.
pub proof fn lemma_survivors_hold(board: Seq<Card>, id: u32)
    requires
        holds_card(survivors(board), id),
    ensures
        holds_card(board, id),
{
    let left = survivors(board);
    let j = choose|j: int| 0 <= j < left.len() && left[j].id == id;
    lemma_survivors_stood(board, j);
    let i = choose|i: int| 0 <= i < board.len() && board[i] == left[j];
    assert(board[i].id == id);
}

/// The survivors of a board without doubles are without doubles.
pub proof fn lemma_survivors_ids_differ(board: Seq<Card>)
    requires
        ids_differ(board),
    ensures
        ids_differ(survivors(board)),
    decreases board.len(),
{
    if board.len() > 0 {
        let rest = board.drop_last();
        let last = board.len() - 1;
        assert(forall|i: int| 0 <= i < rest.len() ==> rest[i] == board[i]);
        lemma_survivors_ids_differ(rest);
        if board.last().hp > 0 {
            let left = survivors(rest);
            let all = survivors(board);
            assert forall|i: int, j: int| 0 <= i < j < all.len() implies (#[trigger] all[i]).id != (
            #[trigger] all[j]).id by {
                if j == left.len() {
                    if all[i].id == board[last].id {
                        assert(left[i].id == board[last].id);
                        lemma_survivors_hold(rest, board[last].id);
                        let k = choose|k: int| 0 <= k < rest.len() && rest[k].id == board[last].id;
                        assert(board[k].id == board[last].id);
                    }
                } else {
                    assert(all[i] == left[i] && all[j] == left[j]);
                }
            }
        }
    }
}

/// A reader who sees a board sees no card that the board does not hold.
pub proof fn lemma_seen_cards_stand(seen: Seq<Card>, board: Seq<Card>, id: u32)
    requires
        reads(seen, board),
        holds_card(seen, id),
    ensures
        holds_card(board, id),
{
    let j = choose|j: int| 0 <= j < seen.len() && seen[j].id == id;
    assert(looks_like(seen[j], survivors(board)[j]));
    assert(survivors(board)[j].id == id);
    lemma_survivors_hold(board, id);
}

/// What is logged of a card that the reader does not see changes nothing
/// for the reader.
pub proof fn lemma_unseen_card(seen: Seq<Card>, id: u32, hp: i32, at: i32)
    requires
        !holds_card(seen, id),
    ensures
        with_stats_change(seen, id, hp, at) == seen,
        without_card(seen, id) == seen,
    decreases seen.len(),
{
    assert(with_stats_change(seen, id, hp, at) =~= seen) by {
        assert forall|i: int| 0 <= i < seen.len() implies with_stats_change(seen, id, hp, at)[i]
            == seen[i] by {
            assert(seen[i].id != id);
        }
    }
    if seen.len() > 0 {
        let rest = seen.drop_last();
        assert(forall|i: int| 0 <= i < rest.len() ==> rest[i] == seen[i]);
        assert(seen[seen.len() - 1].id != id);
        lemma_unseen_card(rest, id, hp, at);
        assert(rest.push(seen.last()) == seen);
    }
}

/// Taking a card off the board undoes whatever was logged of its stats
/// before.
pub proof fn lemma_without_changed_card(seen: Seq<Card>, id: u32, hp: i32, at: i32)
    ensures
        without_card(with_stats_change(seen, id, hp, at), id) == without_card(seen, id),
    decreases seen.len(),
{
    let changed = with_stats_change(seen, id, hp, at);
    if seen.len() > 0 {
        let rest = seen.drop_last();
        assert(changed.drop_last() =~= with_stats_change(rest, id, hp, at));
        lemma_without_changed_card(rest, id, hp, at);
    }
}

/// Taking a card off the board undoes a strike at it.
pub proof fn lemma_without_struck_card(seen: Seq<Card>, index: int, struck: Card)
    requires
        0 <= index < seen.len(),
        struck.id == seen[index].id,
    ensures
        without_card(seen.update(index, struck), struck.id) == without_card(seen, struck.id),
    decreases seen.len(),
{
    let hit = seen.update(index, struck);
    let rest = seen.drop_last();
    if index == seen.len() - 1 {
        assert(hit.drop_last() =~= rest);
    } else {
        assert(hit.drop_last() =~= rest.update(index, struck));
        lemma_without_struck_card(rest, index, struck);
    }
}

/// A change that the log tells of, read right. Let a card of a board
/// without doubles change its stats, and stay dead or alive as it was. A
/// reader who saw the board before, and reads the change of stats, sees the
/// board after.
pub proof fn lemma_change_is_read(seen: Seq<Card>, board: Seq<Card>, index: int, card: Card)
    requires
        reads(seen, board),
        ids_differ(board),
        0 <= index < board.len(),
        card.id == board[index].id,
        card.base_card == board[index].base_card,
        (card.hp > 0) == (board[index].hp > 0),
    ensures
        reads(
            with_stats_change(
                seen,
                card.id,
                (card.hp - board[index].hp) as i32,
                (card.atk - board[index].atk) as i32,
            ),
            board.update(index, card),
        ),
    decreases board.len(),
{
    let id = card.id;
    let hp = (card.hp - board[index].hp) as i32;
    let at = (card.atk - board[index].atk) as i32;
    let last = board.len() - 1;
    let rest = board.drop_last();
    let after = board.update(index, card);
    assert(forall|i: int| 0 <= i < rest.len() ==> rest[i] == board[i]);
    assert(board.last() == board[last]);
    if index == last {
        assert(after.drop_last() =~= rest);
        assert(after.last() == card);
        if !holds_card(rest, id) {
        } else {
            let k = choose|k: int| 0 <= k < rest.len() && rest[k].id == id;
            assert(board[k].id == board[last].id);
        }
        if board[last].hp > 0 {
            let before = seen.drop_last();
            assert(same_cards(before, survivors(rest))) by {
                assert forall|i: int| 0 <= i < before.len() implies looks_like(
                    #[trigger] before[i],
                    survivors(rest)[i],
                ) by {
                    assert(looks_like(seen[i], survivors(board)[i]));
                }
            }
            if holds_card(before, id) {
                lemma_seen_cards_stand(before, rest, id);
            }
            lemma_unseen_card(before, id, hp, at);
            let read = with_stats_change(seen, id, hp, at);
            assert(looks_like(seen[seen.len() - 1], survivors(board)[seen.len() - 1]));
            assert(read =~= before.push(spec_with_change(seen.last(), hp, at))) by {
                assert forall|i: int| 0 <= i < before.len() implies read[i] == before[i] by {
                    assert(with_stats_change(before, id, hp, at)[i] == before[i]);
                }
            }
            assert forall|i: int| 0 <= i < read.len() implies looks_like(
                #[trigger] read[i],
                survivors(after)[i],
            ) by {
                if i < before.len() {
                    assert(looks_like(seen[i], survivors(board)[i]));
                }
            }
        } else {
            if holds_card(seen, id) {
                lemma_seen_cards_stand(seen, rest, id);
            }
            lemma_unseen_card(seen, id, hp, at);
        }
    } else {
        assert(after.drop_last() =~= rest.update(index, card));
        assert(after.last() == board[last]);
        assert(board[index].id != board[last].id);
        if board[last].hp > 0 {
            let before = seen.drop_last();
            assert(same_cards(before, survivors(rest))) by {
                assert forall|i: int| 0 <= i < before.len() implies looks_like(
                    #[trigger] before[i],
                    survivors(rest)[i],
                ) by {
                    assert(looks_like(seen[i], survivors(board)[i]));
                }
            }
            lemma_change_is_read(before, rest, index, card);
            let read = with_stats_change(seen, id, hp, at);
            let read_before = with_stats_change(before, id, hp, at);
            assert(looks_like(seen[seen.len() - 1], survivors(board)[seen.len() - 1]));
            assert(read =~= read_before.push(seen.last()));
            assert forall|i: int| 0 <= i < read.len() implies looks_like(
                #[trigger] read[i],
                survivors(after)[i],
            ) by {
                if i < read_before.len() {
                    assert(looks_like(read_before[i], survivors(rest.update(index, card))[i]));
                }
            }
        } else {
            lemma_change_is_read(seen, rest, index, card);
        }
    }
}

/// A death that the log tells of, read right. Let a card of a board without
/// doubles lose its last hit points, or be dead already. A reader who saw
/// the board before, and reads the death of the card, sees the board after.
pub proof fn lemma_death_is_read(seen: Seq<Card>, board: Seq<Card>, index: int, card: Card)
    requires
        reads(seen, board),
        ids_differ(board),
        0 <= index < board.len(),
        card.id == board[index].id,
        card.hp == 0,
    ensures
        reads(without_card(seen, card.id), board.update(index, card)),
    decreases board.len(),
{
    let id = card.id;
    let last = board.len() - 1;
    let rest = board.drop_last();
    let after = board.update(index, card);
    assert(forall|i: int| 0 <= i < rest.len() ==> rest[i] == board[i]);
    assert(board.last() == board[last]);
    if index == last {
        assert(after.drop_last() =~= rest);
        assert(after.last() == card);
        if holds_card(rest, id) {
            let k = choose|k: int| 0 <= k < rest.len() && rest[k].id == id;
            assert(board[k].id == board[last].id);
        }
        if board[last].hp > 0 {
            let before = seen.drop_last();
            assert(same_cards(before, survivors(rest))) by {
                assert forall|i: int| 0 <= i < before.len() implies looks_like(
                    #[trigger] before[i],
                    survivors(rest)[i],
                ) by {
                    assert(looks_like(seen[i], survivors(board)[i]));
                }
            }
            if holds_card(before, id) {
                lemma_seen_cards_stand(before, rest, id);
            }
            lemma_unseen_card(before, id, 0, 0);
            assert(looks_like(seen[seen.len() - 1], survivors(board)[seen.len() - 1]));
            assert(seen.last().id == id);
        } else {
            if holds_card(seen, id) {
                lemma_seen_cards_stand(seen, rest, id);
            }
            lemma_unseen_card(seen, id, 0, 0);
        }
    } else {
        assert(after.drop_last() =~= rest.update(index, card));
        assert(after.last() == board[last]);
        assert(board[index].id != board[last].id);
        if board[last].hp > 0 {
            let before = seen.drop_last();
            assert(same_cards(before, survivors(rest))) by {
                assert forall|i: int| 0 <= i < before.len() implies looks_like(
                    #[trigger] before[i],
                    survivors(rest)[i],
                ) by {
                    assert(looks_like(seen[i], survivors(board)[i]));
                }
            }
            lemma_death_is_read(before, rest, index, card);
            let read = without_card(seen, id);
            let read_before = without_card(before, id);
            assert(looks_like(seen[seen.len() - 1], survivors(board)[seen.len() - 1]));
            assert(seen.last().id != id);
            assert(read == read_before.push(seen.last()));
            assert forall|i: int| 0 <= i < read.len() implies looks_like(
                #[trigger] read[i],
                survivors(after)[i],
            ) by {
                if i < read_before.len() {
                    assert(looks_like(read_before[i], survivors(rest.update(index, card))[i]));
                }
            }
        } else {
            lemma_death_is_read(seen, rest, index, card);
        }
    }
}

/// To read a log is to read its first part, then the rest.
pub proof fn lemma_read_on(
    owner: u16,
    seen: Seq<Card>,
    first: Seq<CombatEvents>,
    then: Seq<CombatEvents>,
)
    ensures
        board_followed_all(owner, seen, first + then) == board_followed_all(
            owner,
            board_followed_all(owner, seen, first),
            then,
        ),
    decreases then.len(),
{
    if then.len() == 0 {
        assert(first + then =~= first);
    } else {
        assert((first + then).drop_last() =~= first + then.drop_last());
        lemma_read_on(owner, seen, first, then.drop_last());
    }
}

/// A board keeps its identifiers as a card of it changes its stats.
pub proof fn lemma_changed_ids_differ(board: Seq<Card>, index: int, card: Card)
    requires
        ids_differ(board),
        0 <= index < board.len(),
        card.id == board[index].id,
    ensures
        ids_differ(board.update(index, card)),
{
    let after = board.update(index, card);
    assert forall|i: int, j: int| 0 <= i < j < after.len() implies (#[trigger] after[i]).id != (
    #[trigger] after[j]).id by {
        assert(board[i].id != board[j].id);
    }
}

/// To read a log with one more entry is to read the log, then the entry.
pub proof fn lemma_read_one_more(
    owner: u16,
    seen: Seq<Card>,
    log: Seq<CombatEvents>,
    event: CombatEvents,
)
    ensures
        board_followed_all(owner, seen, log.push(event)) == board_followed(
            owner,
            board_followed_all(owner, seen, log),
            event,
        ),
{
    assert(log.push(event).drop_last() =~= log);
}

/// `board` with its first `upto` cards `amount` hit points lower, none below
/// zero: the board in the course of a blast that reaches its cards one by
/// one.
pub open spec fn half_blasted(board: Seq<Card>, amount: u16, upto: int) -> Seq<Card> {
    Seq::new(
        board.len(),
        |i: int|
            if i < upto {
                blasted(board, amount)[i]
            } else {
                board[i]
            },
    )
}

/// A blast, read right: a reader who saw the board before the blast, and
/// reads what is logged of its first cards, sees the board as the blast has
/// left it so far.
pub proof fn lemma_blast_is_read(
    owner: u16,
    board: Seq<Card>,
    amount: u16,
    seen: Seq<Card>,
    upto: nat,
)
    requires
        reads(seen, board),
        ids_differ(board),
        upto <= board.len(),
    ensures
        reads(
            board_followed_all(owner, seen, blast_events(owner, board, amount).take(upto as int)),
            half_blasted(board, amount, upto as int),
        ),
        ids_differ(half_blasted(board, amount, upto as int)),
    decreases upto,
{
    let log = blast_events(owner, board, amount);
    if upto == 0 {
        assert(log.take(0) =~= Seq::<CombatEvents>::empty());
        assert(half_blasted(board, amount, 0) =~= board);
    } else {
        let at = upto - 1;
        lemma_blast_is_read(owner, board, amount, seen, at as nat);
        let before = half_blasted(board, amount, at);
        let after = half_blasted(board, amount, upto as int);
        let read = board_followed_all(owner, seen, log.take(at));
        let hit = blasted(board, amount)[at];
        assert(log.take(upto as int) =~= log.take(at).push(log[at]));
        lemma_read_one_more(owner, seen, log.take(at), log[at]);
        assert(after =~= before.update(at, hit));
        assert(before[at] == board[at]);
        lemma_changed_ids_differ(before, at, hit);
        if board[at].hp > amount {
            lemma_change_is_read(read, before, at, hit);
        } else {
            lemma_death_is_read(read, before, at, hit);
        }
    }
}

/// A blast of one board is nothing to the reader of another.
pub proof fn lemma_blast_is_elsewhere(
    owner: u16,
    other: u16,
    board: Seq<Card>,
    amount: u16,
    seen: Seq<Card>,
    upto: nat,
)
    requires
        owner != other,
        upto <= board.len(),
    ensures
        board_followed_all(other, seen, blast_events(owner, board, amount).take(upto as int))
            == seen,
    decreases upto,
{
    let log = blast_events(owner, board, amount);
    if upto == 0 {
        assert(log.take(0) =~= Seq::<CombatEvents>::empty());
    } else {
        let at = upto - 1;
        lemma_blast_is_elsewhere(owner, other, board, amount, seen, at as nat);
        assert(log.take(upto as int) =~= log.take(at).push(log[at]));
        lemma_read_one_more(other, seen, log.take(at), log[at]);
    }
}

/// The survivors of survivors are all of them.
pub proof fn lemma_survivors_once(board: Seq<Card>)
    ensures
        survivors(survivors(board)) == survivors(board),
{
    lemma_survivors_alive(board);
    lemma_alive_survive(survivors(board));
}

/// An ability, read right. Let an ability fire between the boards of two
/// players that their identifiers tell apart, neither board holding two
/// cards with one identifier. Readers who saw the two boards before, and
/// read the log of the ability, see the boards after.
pub proof fn lemma_effect_is_read(
    player_id: u16,
    player: Seq<Card>,
    card_index: int,
    opponent_id: u16,
    opponent: Seq<Card>,
    opponent_card_index: int,
    coin: bool,
    seen_player: Seq<Card>,
    seen_opponent: Seq<Card>,
)
    requires
        player_id != opponent_id,
        0 <= card_index < player.len(),
        0 <= opponent_card_index < opponent.len(),
        ids_differ(player),
        ids_differ(opponent),
        reads(seen_player, player),
        reads(seen_opponent, opponent),
    ensures
        ({
            let outcome = effect_outcome(
                player_id,
                player,
                card_index,
                opponent_id,
                opponent,
                opponent_card_index,
                coin,
            );
            &&& reads(board_followed_all(player_id, seen_player, outcome.events), outcome.player)
            &&& reads(
                board_followed_all(opponent_id, seen_opponent, outcome.events),
                outcome.opponent,
            )
            &&& ids_differ(outcome.player)
            &&& ids_differ(outcome.opponent)
        }),
{
    reveal(effect_outcome);
    let outcome = effect_outcome(
        player_id,
        player,
        card_index,
        opponent_id,
        opponent,
        opponent_card_index,
        coin,
    );
    let card = player[card_index];
    let target = opponent[opponent_card_index];
    let ability = card.base_card.spec_ability();
    let applied = seq![
        CombatEvents::ApplyAbility {
            card_index: card_index as u8,
            player_id,
            ability,
            card_id: card.id,
        },
    ];
    let none = Seq::<CombatEvents>::empty();
    assert(applied =~= none.push(applied[0]));
    lemma_read_one_more(player_id, seen_player, none, applied[0]);
    lemma_read_one_more(opponent_id, seen_opponent, none, applied[0]);
    assert(board_followed_all(player_id, seen_player, applied) == seen_player);
    assert(board_followed_all(opponent_id, seen_opponent, applied) == seen_opponent);
    match ability {
        Abilities::ToxicSpores | Abilities::Poisonous => {
            let death = CombatEvents::Death { player_id: opponent_id, card_id: target.id };
            lemma_read_one_more(player_id, seen_player, applied, death);
            lemma_read_one_more(opponent_id, seen_opponent, applied, death);
            let dead = Card { hp: 0, ..target };
            lemma_death_is_read(seen_opponent, opponent, opponent_card_index, dead);
            lemma_changed_ids_differ(opponent, opponent_card_index, dead);
        },
        Abilities::Gigantism => {
            let grown = Card { atk: spec_raised(card.atk, GIGANTISM_BONUS as nat), ..card };
            let change = stats_change(player_id, card, grown);
            lemma_read_one_more(player_id, seen_player, applied, change);
            lemma_read_one_more(opponent_id, seen_opponent, applied, change);
            lemma_change_is_read(seen_player, player, card_index, grown);
            lemma_changed_ids_differ(player, card_index, grown);
        },
        Abilities::ExplodingArmour => {
            let log = blast_events(opponent_id, opponent, ARMOUR_DAMAGE);
            assert(log.take(log.len() as int) =~= log);
            lemma_read_on(player_id, seen_player, applied, log);
            lemma_read_on(opponent_id, seen_opponent, applied, log);
            lemma_blast_is_elsewhere(
                opponent_id,
                player_id,
                opponent,
                ARMOUR_DAMAGE,
                seen_player,
                opponent.len(),
            );
            lemma_blast_is_read(
                opponent_id,
                opponent,
                ARMOUR_DAMAGE,
                seen_opponent,
                opponent.len(),
            );
            let hit = blasted(opponent, ARMOUR_DAMAGE);
            assert(half_blasted(opponent, ARMOUR_DAMAGE, opponent.len() as int) =~= hit);
            lemma_survivors_once(hit);
            lemma_survivors_ids_differ(hit);
        },
        Abilities::Pillage => {
            let gold = CombatEvents::GoldChange { player_id, change: PILLAGE_GOLD };
            lemma_read_one_more(player_id, seen_player, applied, gold);
            lemma_read_one_more(opponent_id, seen_opponent, applied, gold);
        },
        Abilities::Trap => {
            let trapped = Card { atk: target.atk / 2, ..target };
            let change = stats_change(opponent_id, target, trapped);
            lemma_read_one_more(player_id, seen_player, applied, change);
            lemma_read_one_more(opponent_id, seen_opponent, applied, change);
            lemma_change_is_read(seen_opponent, opponent, opponent_card_index, trapped);
            lemma_changed_ids_differ(opponent, opponent_card_index, trapped);
        },
        Abilities::Glitch => {
            let glitched = if coin {
                Card { atk: spec_lowered(target.atk, GLITCH_DAMAGE), ..target }
            } else {
                Card { hp: spec_lowered(target.hp, GLITCH_DAMAGE), ..target }
            };
            let change = stats_change(opponent_id, target, glitched);
            let changed = applied.push(change);
            lemma_read_one_more(player_id, seen_player, applied, change);
            lemma_read_one_more(opponent_id, seen_opponent, applied, change);
            lemma_changed_ids_differ(opponent, opponent_card_index, glitched);
            if target.hp > 0 && glitched.hp == 0 {
                let death = CombatEvents::Death { player_id: opponent_id, card_id: target.id };
                lemma_read_one_more(player_id, seen_player, changed, death);
                lemma_read_one_more(opponent_id, seen_opponent, changed, death);
                lemma_without_changed_card(
                    seen_opponent,
                    target.id,
                    (glitched.hp - target.hp) as i32,
                    (glitched.atk - target.atk) as i32,
                );
                lemma_death_is_read(seen_opponent, opponent, opponent_card_index, glitched);
            } else {
                lemma_change_is_read(seen_opponent, opponent, opponent_card_index, glitched);
            }
        },
        _ => {},
    }
}

/// An exchange of blows, read right. Let a card strike another between the
/// boards of two players that their identifiers tell apart, every card alive
/// and neither board holding two cards with one identifier. Readers who saw
/// the two boards before, and read the log of the exchange, see the boards
/// after, the card apart that the exchange has killed.
pub proof fn lemma_exchange_is_read(
    att_id: u16,
    att: Seq<Card>,
    att_index: int,
    def_id: u16,
    def: Seq<Card>,
    def_index: int,
    seen_att: Seq<Card>,
    seen_def: Seq<Card>,
)
    requires
        att_id != def_id,
        0 <= att_index < att.len() <= u8::MAX,
        0 <= def_index < def.len() <= u8::MAX,
        ids_differ(att),
        ids_differ(def),
        is_alive(att),
        is_alive(def),
        same_cards(seen_att, att),
        same_cards(seen_def, def),
    ensures
        ({
            let exchanged = after_exchange(att_id, att, att_index, def_id, def, def_index);
            &&& reads(board_followed_all(att_id, seen_att, exchanged.events), exchanged.att)
            &&& reads(board_followed_all(def_id, seen_def, exchanged.events), exchanged.def)
            &&& ids_differ(exchanged.att)
            &&& ids_differ(exchanged.def)
            &&& exchanged.att.len() == att.len()
            &&& exchanged.def.len() == def.len()
        }),
{
    let exchanged = after_exchange(att_id, att, att_index, def_id, def, def_index);
    let attacker = att[att_index];
    let defender = def[def_index];
    let struck = struck_by(defender, attacker);
    let countered = struck_by(attacker, defender);
    let strike = CombatEvents::Attack {
        att_id,
        att_card_index: att_index as u8,
        def_id,
        def_card_index: def_index as u8,
        def_hp: spec_lowered(defender.hp, attacker.atk),
    };
    let counter = CombatEvents::Attack {
        att_id: def_id,
        att_card_index: def_index as u8,
        def_id: att_id,
        def_card_index: att_index as u8,
        def_hp: spec_lowered(attacker.hp, defender.atk),
    };
    let none = Seq::<CombatEvents>::empty();
    let first = none.push(strike);
    lemma_alive_survive(att);
    lemma_alive_survive(def);
    lemma_changed_ids_differ(att, att_index, countered);
    lemma_changed_ids_differ(def, def_index, struck);
    lemma_read_one_more(att_id, seen_att, none, strike);
    lemma_read_one_more(def_id, seen_def, none, strike);
    assert(looks_like(seen_att[att_index], att[att_index]));
    assert(looks_like(seen_def[def_index], def[def_index]));
    let seen_struck = Card { hp: struck.hp, ..seen_def[def_index] };
    let seen_countered = Card { hp: countered.hp, ..seen_att[att_index] };
    let read_def = seen_def.update(def_index, seen_struck);
    let read_att = seen_att.update(att_index, seen_countered);
    assert(board_followed_all(def_id, seen_def, first) == read_def);
    assert(board_followed_all(att_id, seen_att, first) == seen_att);
    match spec_exchange(attacker, defender) {
        Exchange::Kill => {
            let death = CombatEvents::Death { player_id: def_id, card_id: defender.id };
            assert(exchanged.events =~= first.push(death));
            lemma_read_one_more(att_id, seen_att, first, death);
            lemma_read_one_more(def_id, seen_def, first, death);
            lemma_without_struck_card(seen_def, def_index, seen_struck);
            lemma_death_is_read(seen_def, def, def_index, struck);
        },
        Exchange::CounterKill => {
            let second = first.push(counter);
            let death = CombatEvents::Death { player_id: att_id, card_id: attacker.id };
            assert(exchanged.events =~= second.push(death));
            lemma_read_one_more(att_id, seen_att, first, counter);
            lemma_read_one_more(def_id, seen_def, first, counter);
            lemma_read_one_more(att_id, seen_att, second, death);
            lemma_read_one_more(def_id, seen_def, second, death);
            lemma_without_struck_card(seen_att, att_index, seen_countered);
            lemma_death_is_read(seen_att, att, att_index, countered);
            assert(is_alive(exchanged.def)) by {
                assert forall|i: int| 0 <= i < exchanged.def.len() implies (
                #[trigger] exchanged.def[i]).hp > 0 by {
                    if i != def_index {
                        assert(def[i].hp > 0);
                    }
                }
            }
            lemma_alive_survive(exchanged.def);
            assert(same_cards(read_def, exchanged.def)) by {
                assert forall|i: int| 0 <= i < read_def.len() implies looks_like(
                    #[trigger] read_def[i],
                    exchanged.def[i],
                ) by {
                    assert(looks_like(seen_def[i], def[i]));
                }
            }
        },
        Exchange::Standoff => {
            assert(exchanged.events =~= first.push(counter));
            lemma_read_one_more(att_id, seen_att, first, counter);
            lemma_read_one_more(def_id, seen_def, first, counter);
            assert(is_alive(exchanged.def)) by {
                assert forall|i: int| 0 <= i < exchanged.def.len() implies (
                #[trigger] exchanged.def[i]).hp > 0 by {
                    if i != def_index {
                        assert(def[i].hp > 0);
                    }
                }
            }
            assert(is_alive(exchanged.att)) by {
                assert forall|i: int| 0 <= i < exchanged.att.len() implies (
                #[trigger] exchanged.att[i]).hp > 0 by {
                    if i != att_index {
                        assert(att[i].hp > 0);
                    }
                }
            }
            lemma_alive_survive(exchanged.def);
            lemma_alive_survive(exchanged.att);
            assert(same_cards(read_def, exchanged.def)) by {
                assert forall|i: int| 0 <= i < read_def.len() implies looks_like(
                    #[trigger] read_def[i],
                    exchanged.def[i],
                ) by {
                    assert(looks_like(seen_def[i], def[i]));
                }
            }
            assert(same_cards(read_att, exchanged.att)) by {
                assert forall|i: int| 0 <= i < read_att.len() implies looks_like(
                    #[trigger] read_att[i],
                    exchanged.att[i],
                ) by {
                    assert(looks_like(seen_att[i], att[i]));
                }
            }
        },
    }
}

/// An attack, read right. Let a card attack another between the boards of
/// two players that their identifiers tell apart, every card alive and
/// neither board holding two cards with one identifier. Readers who saw the
/// two boards before, and read the log of the attack, see the boards after;
/// and what was required of the boards before holds of them after.
pub proof fn lemma_attack_is_read(
    att_id: u16,
    att: Seq<Card>,
    att_index: int,
    def_id: u16,
    def: Seq<Card>,
    draw: AttackDraw,
    seen_att: Seq<Card>,
    seen_def: Seq<Card>,
)
    requires
        att_id != def_id,
        0 <= att_index < att.len() <= u8::MAX,
        0 <= draw.target < def.len() <= u8::MAX,
        ids_differ(att),
        ids_differ(def),
        is_alive(att),
        is_alive(def),
        same_cards(seen_att, att),
        same_cards(seen_def, def),
    ensures
        ({
            let outcome = attack_outcome(att_id, att, att_index, def_id, def, draw);
            &&& same_cards(board_followed_all(att_id, seen_att, outcome.events), outcome.att)
            &&& same_cards(board_followed_all(def_id, seen_def, outcome.events), outcome.def)
            &&& ids_differ(outcome.att)
            &&& ids_differ(outcome.def)
            &&& is_alive(outcome.att)
            &&& is_alive(outcome.def)
        }),
{
    let def_index = draw.target;
    let attacker = att[att_index];
    let defender = def[def_index];
    let how = spec_exchange(attacker, defender);
    let exchanged = after_exchange(att_id, att, att_index, def_id, def, def_index);
    lemma_exchange_is_read(att_id, att, att_index, def_id, def, def_index, seen_att, seen_def);
    lemma_armour_fires_on_death(attacker.base_card);
    lemma_armour_fires_on_death(defender.base_card);
    let att_fires = spec_attacker_fires(how, attacker.base_card.spec_trigger());
    let def_fires = spec_defender_fires(how, defender.base_card.spec_trigger());
    let read_att = board_followed_all(att_id, seen_att, exchanged.events);
    let read_def = board_followed_all(def_id, seen_def, exchanged.events);
    // The ability that fires first.
    let first = if how == Exchange::CounterKill {
        if def_fires {
            fire_defender(exchanged, att_id, att_index, def_id, def_index, draw.first_coin)
        } else {
            exchanged
        }
    } else {
        if att_fires {
            fire_attacker(exchanged, att_id, att_index, def_id, def_index, draw.first_coin)
        } else {
            exchanged
        }
    };
    if how == Exchange::CounterKill {
        if def_fires {
            let told = effect_outcome(
                def_id,
                exchanged.def,
                def_index,
                att_id,
                exchanged.att,
                att_index,
                draw.first_coin,
            ).events;
            lemma_effect_wanes(
                def_id,
                exchanged.def,
                def_index,
                att_id,
                exchanged.att,
                att_index,
                draw.first_coin,
            );
            lemma_effect_is_read(
                def_id,
                exchanged.def,
                def_index,
                att_id,
                exchanged.att,
                att_index,
                draw.first_coin,
                read_def,
                read_att,
            );
            lemma_read_on(att_id, seen_att, exchanged.events, told);
            lemma_read_on(def_id, seen_def, exchanged.events, told);
        }
    } else {
        if att_fires {
            let told = effect_outcome(
                att_id,
                exchanged.att,
                att_index,
                def_id,
                exchanged.def,
                def_index,
                draw.first_coin,
            ).events;
            lemma_effect_wanes(
                att_id,
                exchanged.att,
                att_index,
                def_id,
                exchanged.def,
                def_index,
                draw.first_coin,
            );
            lemma_effect_is_read(
                att_id,
                exchanged.att,
                att_index,
                def_id,
                exchanged.def,
                def_index,
                draw.first_coin,
                read_att,
                read_def,
            );
            lemma_read_on(att_id, seen_att, exchanged.events, told);
            lemma_read_on(def_id, seen_def, exchanged.events, told);
        }
    }
    assert(reads(board_followed_all(att_id, seen_att, first.events), first.att));
    assert(reads(board_followed_all(def_id, seen_def, first.events), first.def));
    // The ability that fires second.
    let read_att = board_followed_all(att_id, seen_att, first.events);
    let read_def = board_followed_all(def_id, seen_def, first.events);
    if how == Exchange::CounterKill {
        if att_fires {
            let told = effect_outcome(
                att_id,
                first.att,
                att_index,
                def_id,
                first.def,
                def_index,
                draw.second_coin,
            ).events;
            lemma_effect_is_read(
                att_id,
                first.att,
                att_index,
                def_id,
                first.def,
                def_index,
                draw.second_coin,
                read_att,
                read_def,
            );
            lemma_read_on(att_id, seen_att, first.events, told);
            lemma_read_on(def_id, seen_def, first.events, told);
        }
    } else {
        if def_fires {
            let told = effect_outcome(
                def_id,
                first.def,
                def_index,
                att_id,
                first.att,
                att_index,
                draw.second_coin,
            ).events;
            lemma_effect_is_read(
                def_id,
                first.def,
                def_index,
                att_id,
                first.att,
                att_index,
                draw.second_coin,
                read_def,
                read_att,
            );
            lemma_read_on(att_id, seen_att, first.events, told);
            lemma_read_on(def_id, seen_def, first.events, told);
        }
    }
    let fought = after_abilities(
        att_id,
        att,
        att_index,
        def_id,
        def,
        def_index,
        draw.first_coin,
        draw.second_coin,
    );
    lemma_survivors_ids_differ(fought.att);
    lemma_survivors_ids_differ(fought.def);
    lemma_survivors_alive(fought.att);
    lemma_survivors_alive(fought.def);
}

/// A turn, read right: readers who saw the two boards before, and read the
/// log of the turn, see the boards after.
pub proof fn lemma_turn_is_read(
    player_id: u16,
    player: Seq<Card>,
    opponent_id: u16,
    opponent: Seq<Card>,
    draw: TurnDraw,
    seen_player: Seq<Card>,
    seen_opponent: Seq<Card>,
)
    requires
        player_id != opponent_id,
        0 < player.len() <= u8::MAX,
        opponent.len() <= u8::MAX,
        turn_draw_fits(player_id, player, opponent_id, opponent, draw),
        ids_differ(player),
        ids_differ(opponent),
        is_alive(player),
        is_alive(opponent),
        same_cards(seen_player, player),
        same_cards(seen_opponent, opponent),
    ensures
        ({
            let outcome = turn_outcome(player_id, player, opponent_id, opponent, draw);
            &&& same_cards(
                board_followed_all(player_id, seen_player, outcome.events),
                outcome.player,
            )
            &&& same_cards(
                board_followed_all(opponent_id, seen_opponent, outcome.events),
                outcome.opponent,
            )
            &&& ids_differ(outcome.player)
            &&& ids_differ(outcome.opponent)
            &&& is_alive(outcome.player)
            &&& is_alive(outcome.opponent)
            &&& outcome.player.len() <= player.len()
            &&& outcome.opponent.len() <= opponent.len()
        }),
{
    lemma_next_to_play_exists(player);
    let index = next_to_play(player);
    let lined = sent(player, index);
    lemma_changed_ids_differ(player, index, lined[index]);
    assert(is_alive(lined)) by {
        assert forall|i: int| 0 <= i < lined.len() implies (#[trigger] lined[i]).hp > 0 by {
            assert(player[i].hp > 0);
        }
    }
    assert(same_cards(seen_player, lined)) by {
        assert forall|i: int| 0 <= i < seen_player.len() implies looks_like(
            #[trigger] seen_player[i],
            lined[i],
        ) by {
            assert(looks_like(seen_player[i], player[i]));
        }
    }
    let strike = attack_outcome(player_id, lined, index, opponent_id, opponent, draw.strike);
    lemma_attack_is_read(
        player_id,
        lined,
        index,
        opponent_id,
        opponent,
        draw.strike,
        seen_player,
        seen_opponent,
    );
    lemma_attack_wanes(player_id, lined, index, opponent_id, opponent, draw.strike);
    if strike.replay {
        lemma_card_position_exists(strike.att, player[index].id);
        let again = card_position(strike.att, player[index].id);
        let replay = attack_outcome(
            player_id,
            strike.att,
            again,
            opponent_id,
            strike.def,
            draw.replay,
        );
        lemma_attack_is_read(
            player_id,
            strike.att,
            again,
            opponent_id,
            strike.def,
            draw.replay,
            board_followed_all(player_id, seen_player, strike.events),
            board_followed_all(opponent_id, seen_opponent, strike.events),
        );
        lemma_attack_wanes(player_id, strike.att, again, opponent_id, strike.def, draw.replay);
        lemma_read_on(player_id, seen_player, strike.events, replay.events);
        lemma_read_on(opponent_id, seen_opponent, strike.events, replay.events);
    }
}

/// A fight, read right so far: readers who saw the two boards at the start
/// of the fight, and read its log as far as it has got, see the boards as
/// they are.
pub proof fn lemma_battle_is_read(
    id1: u16,
    id2: u16,
    start: Battle,
    draws: Seq<TurnDraw>,
    turns: nat,
)
    requires
        id1 != id2,
        start.events.len() == 0,
        start.hb1.len() <= u8::MAX,
        start.hb2.len() <= u8::MAX,
        ids_differ(start.hb1),
        ids_differ(start.hb2),
        is_alive(start.hb1),
        is_alive(start.hb2),
        draws_fit(id1, id2, start, draws, turns),
    ensures
        ({
            let battle = battle_after(id1, id2, start, draws, turns);
            &&& same_cards(board_followed_all(id1, start.hb1, battle.events), battle.hb1)
            &&& same_cards(board_followed_all(id2, start.hb2, battle.events), battle.hb2)
            &&& ids_differ(battle.hb1)
            &&& ids_differ(battle.hb2)
            &&& is_alive(battle.hb1)
            &&& is_alive(battle.hb2)
            &&& battle.hb1.len() <= u8::MAX
            &&& battle.hb2.len() <= u8::MAX
        }),
    decreases turns,
{
    if turns == 0 {
        assert(start.events =~= Seq::<CombatEvents>::empty());
    } else {
        lemma_battle_is_read(id1, id2, start, draws, (turns - 1) as nat);
        let battle = battle_after(id1, id2, start, draws, (turns - 1) as nat);
        let draw = draws[turns - 1];
        let read1 = board_followed_all(id1, start.hb1, battle.events);
        let read2 = board_followed_all(id2, start.hb2, battle.events);
        if !is_over(battle.hb1, battle.hb2, battle.to_play) {
            if battle.to_play {
                let turn = turn_outcome(id1, battle.hb1, id2, battle.hb2, draw);
                lemma_turn_is_read(id1, battle.hb1, id2, battle.hb2, draw, read1, read2);
                lemma_read_on(id1, start.hb1, battle.events, turn.events);
                lemma_read_on(id2, start.hb2, battle.events, turn.events);
            } else {
                let turn = turn_outcome(id2, battle.hb2, id1, battle.hb1, draw);
                lemma_turn_is_read(id2, battle.hb2, id1, battle.hb1, draw, read2, read1);
                lemma_read_on(id1, start.hb1, battle.events, turn.events);
                lemma_read_on(id2, start.hb2, battle.events, turn.events);
            }
        }
    }
}

/// The log tells the whole fight. Let two players fight whom their
/// identifiers tell apart, every card of their boards alive and neither
/// board holding two cards with one identifier. Whatever is drawn, a reader
/// who knows the boards before the fight and follows its log, entry by
/// entry, knows the boards that the fight leaves: each card that is left,
/// with its hit points and its attack, in its place.
pub proof fn lemma_log_tells_the_fight(
    hb1: PlayerData,
    hb2: PlayerData,
    to_play: bool,
    draws: Seq<TurnDraw>,
    hb1_after: PlayerData,
    hb2_after: PlayerData,
    events: Seq<CombatEvents>,
)
    requires
        is_fight(hb1, hb2, to_play, draws, hb1_after, hb2_after, events),
        hb1.id != hb2.id,
        hb1.board@.len() <= u8::MAX,
        hb2.board@.len() <= u8::MAX,
        ids_differ(hb1.board@),
        ids_differ(hb2.board@),
        is_alive(hb1.board@),
        is_alive(hb2.board@),
    ensures
        same_cards(board_followed_all(hb1.id, hb1.board@, events), hb1_after.board@),
        same_cards(board_followed_all(hb2.id, hb2.board@, events), hb2_after.board@),
{
    let start = Battle { hb1: hb1.board@, hb2: hb2.board@, to_play, events: seq![] };
    let end = combat_end(hb1.id, hb1.board@, hb2.id, hb2.board@, to_play, draws);
    lemma_battle_is_read(hb1.id, hb2.id, start, draws, draws.len());
    let closing = verdict(hb1.id, hb1.hp, end.hb1, hb2.id, hb2.hp, end.hb2);
    lemma_read_on(hb1.id, hb1.board@, end.events, closing);
    lemma_read_on(hb2.id, hb2.board@, end.events, closing);
    let none = Seq::<CombatEvents>::empty();
    if closing.len() > 0 {
        assert(closing =~= none.push(closing[0]));
        lemma_read_one_more(
            hb1.id,
            board_followed_all(hb1.id, hb1.board@, end.events),
            none,
            closing[0],
        );
        lemma_read_one_more(
            hb2.id,
            board_followed_all(hb2.id, hb2.board@, end.events),
            none,
            closing[0],
        );
    } else {
        assert(closing =~= none);
    }
}

} // verus!
