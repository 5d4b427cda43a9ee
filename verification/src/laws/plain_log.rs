//! The log asks nothing impossible of its reader: no strike at a card that
//! is not there, and no change that takes from a card more than it has.

use crate::attack::{
    after_exchange, attack_outcome, fire_attacker, fire_defender, lemma_attack_wanes,
    spec_attacker_fires, spec_defender_fires, spec_exchange, AttackDraw, Exchange,
};
use crate::battle::{
    battle_after, combat_end, draws_fit, is_fight, is_over, sent, turn_draw_fits, turn_outcome,
    verdict, Battle, TurnDraw,
};
use crate::board::{
    blasted, card_position, is_alive, lemma_card_position_exists, lemma_next_to_play_exists,
    lemma_survivors_stood, next_to_play, survivors,
};
use crate::card::{lemma_armour_fires_on_death, Abilities, Card};
use crate::effect::{
    blast_events, effect_outcome, lemma_effect_wanes, stats_change, ARMOUR_DAMAGE,
    GIGANTISM_BONUS, GLITCH_DAMAGE, PILLAGE_GOLD,
};
use crate::events::CombatEvents;
use crate::follow::board_followed_all;
use crate::laws::replay::{
    half_blasted, ids_differ, lemma_attack_is_read, lemma_battle_is_read, lemma_blast_is_read,
    lemma_changed_ids_differ, lemma_effect_is_read, lemma_exchange_is_read, lemma_read_on,
    lemma_read_one_more, looks_like, reads, same_cards,
};
use crate::player::PlayerData;
use crate::util::{spec_lowered, spec_raised};
use vstd::prelude::*;

verus! {

/// Whether the entry asks nothing impossible of a reader who sees the board
/// `seen` of `owner`: where it tells of a strike at a card of `owner`, it
/// names a place of the board; where it tells of a change to the stats of a
/// card of `owner`, the change leaves no stat of the card below zero.
pub open spec fn is_plain(owner: u16, seen: Seq<Card>, event: CombatEvents) -> bool {
    match event {
        CombatEvents::Attack { def_id, def_card_index, .. } => def_id == owner ==> def_card_index
            < seen.len(),
        CombatEvents::StatsChange { player_id, card_id, hp, at } => player_id == owner
            ==> forall|i: int|
            0 <= i < seen.len() && (#[trigger] seen[i]).id == card_id ==> seen[i].hp + hp >= 0
                && seen[i].atk + at >= 0,
        _ => true,
    }
}

/// Whether each entry of `log` asks nothing impossible of a reader who saw
/// the board `seen` of `owner` before, and has read the entries before it.
pub open spec fn is_plain_log(owner: u16, seen: Seq<Card>, log: Seq<CombatEvents>) -> bool
    decreases log.len(),
{
    log.len() == 0 || {
        &&& is_plain_log(owner, seen, log.drop_last())
        &&& is_plain(owner, board_followed_all(owner, seen, log.drop_last()), log.last())
    }
}

/// A log with one more entry is plain where the log is, and the entry to one
/// who has read the log.
pub proof fn lemma_plain_one_more(
    owner: u16,
    seen: Seq<Card>,
    log: Seq<CombatEvents>,
    event: CombatEvents,
)
    ensures
        is_plain_log(owner, seen, log.push(event)) == (is_plain_log(owner, seen, log) && is_plain(
            owner,
            board_followed_all(owner, seen, log),
            event,
        )),
{
    assert(log.push(event).drop_last() =~= log);
}

/// Two plain logs make one, where the second is plain to one who has read
/// the first.
pub proof fn lemma_plain_on(
    owner: u16,
    seen: Seq<Card>,
    first: Seq<CombatEvents>,
    then: Seq<CombatEvents>,
)
    requires
        is_plain_log(owner, seen, first),
        is_plain_log(owner, board_followed_all(owner, seen, first), then),
    ensures
        is_plain_log(owner, seen, first + then),
    decreases then.len(),
{
    if then.len() == 0 {
        assert(first + then =~= first);
    } else {
        assert((first + then).drop_last() =~= first + then.drop_last());
        lemma_plain_on(owner, seen, first, then.drop_last());
        lemma_read_on(owner, seen, first, then.drop_last());
    }
}

/// A change of the stats of a card takes from the card no more than it has,
/// for a reader who sees the board that the card stands on.
pub proof fn lemma_change_is_plain(
    owner: u16,
    seen: Seq<Card>,
    board: Seq<Card>,
    index: int,
    card: Card,
)
    requires
        reads(seen, board),
        ids_differ(board),
        0 <= index < board.len(),
        card.id == board[index].id,
    ensures
        is_plain(owner, seen, stats_change(owner, board[index], card)),
{
    let left = survivors(board);
    assert forall|i: int|
        0 <= i < seen.len() && (#[trigger] seen[i]).id == card.id implies seen[i].hp + (card.hp
            - board[index].hp) >= 0 && seen[i].atk + (card.atk - board[index].atk) >= 0 by {
        assert(looks_like(seen[i], left[i]));
        lemma_survivors_stood(board, i);
        let k = choose|k: int| 0 <= k < board.len() && board[k] == left[i];
        if k < index {
            assert(board[k].id != board[index].id);
        } else if index < k {
            assert(board[index].id != board[k].id);
        }
    }
}

/// A blast is plain to the reader of the board that it hits.
pub proof fn lemma_blast_is_plain(
    owner: u16,
    board: Seq<Card>,
    amount: u16,
    seen: Seq<Card>,
    upto: nat,
)
    requires
        reads(seen, board),
        ids_differ(board),
        upto <= board.len(),
    ensures
        is_plain_log(owner, seen, blast_events(owner, board, amount).take(upto as int)),
    decreases upto,
{
    let log = blast_events(owner, board, amount);
    if upto == 0 {
        assert(log.take(0) =~= Seq::<CombatEvents>::empty());
    } else {
        let at = upto - 1;
        lemma_blast_is_plain(owner, board, amount, seen, at as nat);
        lemma_blast_is_read(owner, board, amount, seen, at as nat);
        let before = half_blasted(board, amount, at);
        let read = board_followed_all(owner, seen, log.take(at));
        assert(log.take(upto as int) =~= log.take(at).push(log[at]));
        lemma_plain_one_more(owner, seen, log.take(at), log[at]);
        assert(before[at] == board[at]);
        if board[at].hp > amount {
            lemma_change_is_plain(owner, read, before, at, blasted(board, amount)[at]);
        }
    }
}

/// A blast of one board is plain to the reader of another.
pub proof fn lemma_blast_elsewhere_is_plain(
    owner: u16,
    other: u16,
    board: Seq<Card>,
    amount: u16,
    seen: Seq<Card>,
    upto: nat,
)
    requires
        owner != other,
        upto <= board.len(),
    ensures
        is_plain_log(other, seen, blast_events(owner, board, amount).take(upto as int)),
    decreases upto,
{
    let log = blast_events(owner, board, amount);
    if upto == 0 {
        assert(log.take(0) =~= Seq::<CombatEvents>::empty());
    } else {
        let at = upto - 1;
        lemma_blast_elsewhere_is_plain(owner, other, board, amount, seen, at as nat);
        assert(log.take(upto as int) =~= log.take(at).push(log[at]));
        lemma_plain_one_more(other, seen, log.take(at), log[at]);
    }
}

/// The log of an ability is plain to readers who see the two boards.
pub proof fn lemma_effect_is_plain(
    player_id: u16,
    player: Seq<Card>,
    card_index: int,
    opponent_id: u16,
    opponent: Seq<Card>,
    opponent_card_index: int,
    coin: bool,
    seen_player: Seq<Card>,
    seen_opponent: Seq<Card>,
)
    requires
        player_id != opponent_id,
        0 <= card_index < player.len(),
        0 <= opponent_card_index < opponent.len(),
        ids_differ(player),
        ids_differ(opponent),
        reads(seen_player, player),
        reads(seen_opponent, opponent),
    ensures
        ({
            let outcome = effect_outcome(
                player_id,
                player,
                card_index,
                opponent_id,
                opponent,
                opponent_card_index,
                coin,
            );
            &&& is_plain_log(player_id, seen_player, outcome.events)
            &&& is_plain_log(opponent_id, seen_opponent, outcome.events)
        }),
{
    reveal(effect_outcome);
    let card = player[card_index];
    let target = opponent[opponent_card_index];
    let ability = card.base_card.spec_ability();
    let applied = seq![
        CombatEvents::ApplyAbility {
            card_index: card_index as u8,
            player_id,
            ability,
            card_id: card.id,
        },
    ];
    let none = Seq::<CombatEvents>::empty();
    assert(applied =~= none.push(applied[0]));
    lemma_plain_one_more(player_id, seen_player, none, applied[0]);
    lemma_plain_one_more(opponent_id, seen_opponent, none, applied[0]);
    lemma_read_one_more(player_id, seen_player, none, applied[0]);
    lemma_read_one_more(opponent_id, seen_opponent, none, applied[0]);
    match ability {
        Abilities::ToxicSpores | Abilities::Poisonous => {
            let death = CombatEvents::Death { player_id: opponent_id, card_id: target.id };
            lemma_plain_one_more(player_id, seen_player, applied, death);
            lemma_plain_one_more(opponent_id, seen_opponent, applied, death);
        },
        Abilities::Gigantism => {
            let grown = Card { atk: spec_raised(card.atk, GIGANTISM_BONUS as nat), ..card };
            let change = stats_change(player_id, card, grown);
            lemma_plain_one_more(player_id, seen_player, applied, change);
            lemma_plain_one_more(opponent_id, seen_opponent, applied, change);
            lemma_change_is_plain(player_id, seen_player, player, card_index, grown);
        },
        Abilities::ExplodingArmour => {
            let log = blast_events(opponent_id, opponent, ARMOUR_DAMAGE);
            assert(log.take(log.len() as int) =~= log);
            lemma_blast_is_plain(
                opponent_id,
                opponent,
                ARMOUR_DAMAGE,
                seen_opponent,
                opponent.len(),
            );
            lemma_blast_elsewhere_is_plain(
                opponent_id,
                player_id,
                opponent,
                ARMOUR_DAMAGE,
                seen_player,
                opponent.len(),
            );
            lemma_plain_on(player_id, seen_player, applied, log);
            lemma_plain_on(opponent_id, seen_opponent, applied, log);
        },
        Abilities::Pillage => {
            let gold = CombatEvents::GoldChange { player_id, change: PILLAGE_GOLD };
            lemma_plain_one_more(player_id, seen_player, applied, gold);
            lemma_plain_one_more(opponent_id, seen_opponent, applied, gold);
        },
        Abilities::Trap => {
            let trapped = Card { atk: target.atk / 2, ..target };
            let change = stats_change(opponent_id, target, trapped);
            lemma_plain_one_more(player_id, seen_player, applied, change);
            lemma_plain_one_more(opponent_id, seen_opponent, applied, change);
            lemma_change_is_plain(
                opponent_id,
                seen_opponent,
                opponent,
                opponent_card_index,
                trapped,
            );
        },
        Abilities::Glitch => {
            let glitched = if coin {
                Card { atk: spec_lowered(target.atk, GLITCH_DAMAGE), ..target }
            } else {
                Card { hp: spec_lowered(target.hp, GLITCH_DAMAGE), ..target }
            };
            let change = stats_change(opponent_id, target, glitched);
            let changed = applied.push(change);
            lemma_plain_one_more(player_id, seen_player, applied, change);
            lemma_plain_one_more(opponent_id, seen_opponent, applied, change);
            lemma_change_is_plain(
                opponent_id,
                seen_opponent,
                opponent,
                opponent_card_index,
                glitched,
            );
            if target.hp > 0 && glitched.hp == 0 {
                let death = CombatEvents::Death { player_id: opponent_id, card_id: target.id };
                lemma_plain_one_more(player_id, seen_player, changed, death);
                lemma_plain_one_more(opponent_id, seen_opponent, changed, death);
            }
        },
        _ => {},
    }
}

/// The log of an exchange of blows is plain to readers who see the two
/// boards.
pub proof fn lemma_exchange_is_plain(
    att_id: u16,
    att: Seq<Card>,
    att_index: int,
    def_id: u16,
    def: Seq<Card>,
    def_index: int,
    seen_att: Seq<Card>,
    seen_def: Seq<Card>,
)
    requires
        att_id != def_id,
        0 <= att_index < att.len() <= u8::MAX,
        0 <= def_index < def.len() <= u8::MAX,
        same_cards(seen_att, att),
        same_cards(seen_def, def),
    ensures
        ({
            let exchanged = after_exchange(att_id, att, att_index, def_id, def, def_index);
            &&& is_plain_log(att_id, seen_att, exchanged.events)
            &&& is_plain_log(def_id, seen_def, exchanged.events)
        }),
{
    let exchanged = after_exchange(att_id, att, att_index, def_id, def, def_index);
    let attacker = att[att_index];
    let defender = def[def_index];
    let strike = CombatEvents::Attack {
        att_id,
        att_card_index: att_index as u8,
        def_id,
        def_card_index: def_index as u8,
        def_hp: spec_lowered(defender.hp, attacker.atk),
    };
    let counter = CombatEvents::Attack {
        att_id: def_id,
        att_card_index: def_index as u8,
        def_id: att_id,
        def_card_index: att_index as u8,
        def_hp: spec_lowered(attacker.hp, defender.atk),
    };
    let none = Seq::<CombatEvents>::empty();
    let first = none.push(strike);
    lemma_plain_one_more(att_id, seen_att, none, strike);
    lemma_plain_one_more(def_id, seen_def, none, strike);
    lemma_read_one_more(att_id, seen_att, none, strike);
    lemma_read_one_more(def_id, seen_def, none, strike);
    match spec_exchange(attacker, defender) {
        Exchange::Kill => {
            let death = CombatEvents::Death { player_id: def_id, card_id: defender.id };
            assert(exchanged.events =~= first.push(death));
            lemma_plain_one_more(att_id, seen_att, first, death);
            lemma_plain_one_more(def_id, seen_def, first, death);
        },
        Exchange::CounterKill => {
            let second = first.push(counter);
            let death = CombatEvents::Death { player_id: att_id, card_id: attacker.id };
            assert(exchanged.events =~= second.push(death));
            lemma_plain_one_more(att_id, seen_att, first, counter);
            lemma_plain_one_more(def_id, seen_def, first, counter);
            lemma_plain_one_more(att_id, seen_att, second, death);
            lemma_plain_one_more(def_id, seen_def, second, death);
        },
        Exchange::Standoff => {
            assert(exchanged.events =~= first.push(counter));
            lemma_plain_one_more(att_id, seen_att, first, counter);
            lemma_plain_one_more(def_id, seen_def, first, counter);
        },
    }
}

/// The log of an attack is plain to readers who see the two boards.
pub proof fn lemma_attack_is_plain(
    att_id: u16,
    att: Seq<Card>,
    att_index: int,
    def_id: u16,
    def: Seq<Card>,
    draw: AttackDraw,
    seen_att: Seq<Card>,
    seen_def: Seq<Card>,
)
    requires
        att_id != def_id,
        0 <= att_index < att.len() <= u8::MAX,
        0 <= draw.target < def.len() <= u8::MAX,
        ids_differ(att),
        ids_differ(def),
        is_alive(att),
        is_alive(def),
        same_cards(seen_att, att),
        same_cards(seen_def, def),
    ensures
        is_plain_log(
            att_id,
            seen_att,
            attack_outcome(att_id, att, att_index, def_id, def, draw).events,
        ),
        is_plain_log(
            def_id,
            seen_def,
            attack_outcome(att_id, att, att_index, def_id, def, draw).events,
        ),
{
    let def_index = draw.target;
    let attacker = att[att_index];
    let defender = def[def_index];
    let how = spec_exchange(attacker, defender);
    let exchanged = after_exchange(att_id, att, att_index, def_id, def, def_index);
    lemma_exchange_is_read(att_id, att, att_index, def_id, def, def_index, seen_att, seen_def);
    lemma_exchange_is_plain(att_id, att, att_index, def_id, def, def_index, seen_att, seen_def);
    lemma_armour_fires_on_death(attacker.base_card);
    lemma_armour_fires_on_death(defender.base_card);
    let att_fires = spec_attacker_fires(how, attacker.base_card.spec_trigger());
    let def_fires = spec_defender_fires(how, defender.base_card.spec_trigger());
    let read_att = board_followed_all(att_id, seen_att, exchanged.events);
    let read_def = board_followed_all(def_id, seen_def, exchanged.events);
    let first = if how == Exchange::CounterKill {
        if def_fires {
            fire_defender(exchanged, att_id, att_index, def_id, def_index, draw.first_coin)
        } else {
            exchanged
        }
    } else {
        if att_fires {
            fire_attacker(exchanged, att_id, att_index, def_id, def_index, draw.first_coin)
        } else {
            exchanged
        }
    };
    if how == Exchange::CounterKill {
        if def_fires {
            let told = effect_outcome(
                def_id,
                exchanged.def,
                def_index,
                att_id,
                exchanged.att,
                att_index,
                draw.first_coin,
            ).events;
            lemma_effect_wanes(
                def_id,
                exchanged.def,
                def_index,
                att_id,
                exchanged.att,
                att_index,
                draw.first_coin,
            );
            lemma_effect_is_read(
                def_id,
                exchanged.def,
                def_index,
                att_id,
                exchanged.att,
                att_index,
                draw.first_coin,
                read_def,
                read_att,
            );
            lemma_effect_is_plain(
                def_id,
                exchanged.def,
                def_index,
                att_id,
                exchanged.att,
                att_index,
                draw.first_coin,
                read_def,
                read_att,
            );
            lemma_read_on(att_id, seen_att, exchanged.events, told);
            lemma_read_on(def_id, seen_def, exchanged.events, told);
            lemma_plain_on(att_id, seen_att, exchanged.events, told);
            lemma_plain_on(def_id, seen_def, exchanged.events, told);
        }
    } else {
        if att_fires {
            let told = effect_outcome(
                att_id,
                exchanged.att,
                att_index,
                def_id,
                exchanged.def,
                def_index,
                draw.first_coin,
            ).events;
            lemma_effect_wanes(
                att_id,
                exchanged.att,
                att_index,
                def_id,
                exchanged.def,
                def_index,
                draw.first_coin,
            );
            lemma_effect_is_read(
                att_id,
                exchanged.att,
                att_index,
                def_id,
                exchanged.def,
                def_index,
                draw.first_coin,
                read_att,
                read_def,
            );
            lemma_effect_is_plain(
                att_id,
                exchanged.att,
                att_index,
                def_id,
                exchanged.def,
                def_index,
                draw.first_coin,
                read_att,
                read_def,
            );
            lemma_read_on(att_id, seen_att, exchanged.events, told);
            lemma_read_on(def_id, seen_def, exchanged.events, told);
            lemma_plain_on(att_id, seen_att, exchanged.events, told);
            lemma_plain_on(def_id, seen_def, exchanged.events, told);
        }
    }
    let read_att = board_followed_all(att_id, seen_att, first.events);
    let read_def = board_followed_all(def_id, seen_def, first.events);
    assert(reads(read_att, first.att));
    assert(reads(read_def, first.def));
    assert(is_plain_log(att_id, seen_att, first.events));
    assert(is_plain_log(def_id, seen_def, first.events));
    if how == Exchange::CounterKill {
        if att_fires {
            let told = effect_outcome(
                att_id,
                first.att,
                att_index,
                def_id,
                first.def,
                def_index,
                draw.second_coin,
            ).events;
            lemma_effect_is_plain(
                att_id,
                first.att,
                att_index,
                def_id,
                first.def,
                def_index,
                draw.second_coin,
                read_att,
                read_def,
            );
            lemma_plain_on(att_id, seen_att, first.events, told);
            lemma_plain_on(def_id, seen_def, first.events, told);
        }
    } else {
        if def_fires {
            let told = effect_outcome(
                def_id,
                first.def,
                def_index,
                att_id,
                first.att,
                att_index,
                draw.second_coin,
            ).events;
            lemma_effect_is_plain(
                def_id,
                first.def,
                def_index,
                att_id,
                first.att,
                att_index,
                draw.second_coin,
                read_def,
                read_att,
            );
            lemma_plain_on(att_id, seen_att, first.events, told);
            lemma_plain_on(def_id, seen_def, first.events, told);
        }
    }
}

/// The log of a turn is plain to readers who see the two boards.
pub proof fn lemma_turn_is_plain(
    player_id: u16,
    player: Seq<Card>,
    opponent_id: u16,
    opponent: Seq<Card>,
    draw: TurnDraw,
    seen_player: Seq<Card>,
    seen_opponent: Seq<Card>,
)
    requires
        player_id != opponent_id,
        0 < player.len() <= u8::MAX,
        opponent.len() <= u8::MAX,
        turn_draw_fits(player_id, player, opponent_id, opponent, draw),
        ids_differ(player),
        ids_differ(opponent),
        is_alive(player),
        is_alive(opponent),
        same_cards(seen_player, player),
        same_cards(seen_opponent, opponent),
    ensures
        is_plain_log(
            player_id,
            seen_player,
            turn_outcome(player_id, player, opponent_id, opponent, draw).events,
        ),
        is_plain_log(
            opponent_id,
            seen_opponent,
            turn_outcome(player_id, player, opponent_id, opponent, draw).events,
        ),
{
    lemma_next_to_play_exists(player);
    let index = next_to_play(player);
    let lined = sent(player, index);
    lemma_changed_ids_differ(player, index, lined[index]);
    assert(is_alive(lined)) by {
        assert forall|i: int| 0 <= i < lined.len() implies (#[trigger] lined[i]).hp > 0 by {
            assert(player[i].hp > 0);
        }
    }
    assert(same_cards(seen_player, lined)) by {
        assert forall|i: int| 0 <= i < seen_player.len() implies looks_like(
            #[trigger] seen_player[i],
            lined[i],
        ) by {
            assert(looks_like(seen_player[i], player[i]));
        }
    }
    let strike = attack_outcome(player_id, lined, index, opponent_id, opponent, draw.strike);
    lemma_attack_is_read(
        player_id,
        lined,
        index,
        opponent_id,
        opponent,
        draw.strike,
        seen_player,
        seen_opponent,
    );
    lemma_attack_is_plain(
        player_id,
        lined,
        index,
        opponent_id,
        opponent,
        draw.strike,
        seen_player,
        seen_opponent,
    );
    lemma_attack_wanes(player_id, lined, index, opponent_id, opponent, draw.strike);
    if strike.replay {
        lemma_card_position_exists(strike.att, player[index].id);
        let again = card_position(strike.att, player[index].id);
        let replay = attack_outcome(
            player_id,
            strike.att,
            again,
            opponent_id,
            strike.def,
            draw.replay,
        );
        lemma_attack_is_plain(
            player_id,
            strike.att,
            again,
            opponent_id,
            strike.def,
            draw.replay,
            board_followed_all(player_id, seen_player, strike.events),
            board_followed_all(opponent_id, seen_opponent, strike.events),
        );
        lemma_plain_on(player_id, seen_player, strike.events, replay.events);
        lemma_plain_on(opponent_id, seen_opponent, strike.events, replay.events);
    }
}

/// The log of a fight is plain, as far as it has got, to readers who saw the
/// two boards at the start.
pub proof fn lemma_battle_is_plain(
    id1: u16,
    id2: u16,
    start: Battle,
    draws: Seq<TurnDraw>,
    turns: nat,
)
    requires
        id1 != id2,
        start.events.len() == 0,
        start.hb1.len() <= u8::MAX,
        start.hb2.len() <= u8::MAX,
        ids_differ(start.hb1),
        ids_differ(start.hb2),
        is_alive(start.hb1),
        is_alive(start.hb2),
        draws_fit(id1, id2, start, draws, turns),
    ensures
        is_plain_log(id1, start.hb1, battle_after(id1, id2, start, draws, turns).events),
        is_plain_log(id2, start.hb2, battle_after(id1, id2, start, draws, turns).events),
    decreases turns,
{
    if turns == 0 {
        assert(start.events =~= Seq::<CombatEvents>::empty());
    } else {
        lemma_battle_is_plain(id1, id2, start, draws, (turns - 1) as nat);
        lemma_battle_is_read(id1, id2, start, draws, (turns - 1) as nat);
        let battle = battle_after(id1, id2, start, draws, (turns - 1) as nat);
        let draw = draws[turns - 1];
        let read1 = board_followed_all(id1, start.hb1, battle.events);
        let read2 = board_followed_all(id2, start.hb2, battle.events);
        if !is_over(battle.hb1, battle.hb2, battle.to_play) {
            if battle.to_play {
                let turn = turn_outcome(id1, battle.hb1, id2, battle.hb2, draw);
                lemma_turn_is_plain(id1, battle.hb1, id2, battle.hb2, draw, read1, read2);
                lemma_plain_on(id1, start.hb1, battle.events, turn.events);
                lemma_plain_on(id2, start.hb2, battle.events, turn.events);
            } else {
                let turn = turn_outcome(id2, battle.hb2, id1, battle.hb1, draw);
                lemma_turn_is_plain(id2, battle.hb2, id1, battle.hb1, draw, read2, read1);
                lemma_plain_on(id1, start.hb1, battle.events, turn.events);
                lemma_plain_on(id2, start.hb2, battle.events, turn.events);
            }
        }
    }
}

/// The log asks nothing impossible. Let two players fight whom their
/// identifiers tell apart, every card of their boards alive and neither
/// board holding two cards with one identifier. Whatever is drawn, a reader
/// who knows a board before the fight and follows the log is never told of a
/// strike at a card that is not on the board, nor of a change that would take
/// hit points or attack below zero.
pub proof fn lemma_log_is_plain(
    hb1: PlayerData,
    hb2: PlayerData,
    to_play: bool,
    draws: Seq<TurnDraw>,
    hb1_after: PlayerData,
    hb2_after: PlayerData,
    events: Seq<CombatEvents>,
)
    requires
        is_fight(hb1, hb2, to_play, draws, hb1_after, hb2_after, events),
        hb1.id != hb2.id,
        hb1.board@.len() <= u8::MAX,
        hb2.board@.len() <= u8::MAX,
        ids_differ(hb1.board@),
        ids_differ(hb2.board@),
        is_alive(hb1.board@),
        is_alive(hb2.board@),
    ensures
        is_plain_log(hb1.id, hb1.board@, events),
        is_plain_log(hb2.id, hb2.board@, events),
{
    let start = Battle { hb1: hb1.board@, hb2: hb2.board@, to_play, events: seq![] };
    let end = combat_end(hb1.id, hb1.board@, hb2.id, hb2.board@, to_play, draws);
    lemma_battle_is_plain(hb1.id, hb2.id, start, draws, draws.len());
    let closing = verdict(hb1.id, hb1.hp, end.hb1, hb2.id, hb2.hp, end.hb2);
    let none = Seq::<CombatEvents>::empty();
    if closing.len() > 0 {
        assert(closing =~= none.push(closing[0]));
        lemma_plain_one_more(
            hb1.id,
            board_followed_all(hb1.id, hb1.board@, end.events),
            none,
            closing[0],
        );
        lemma_plain_one_more(
            hb2.id,
            board_followed_all(hb2.id, hb2.board@, end.events),
            none,
            closing[0],
        );
    } else {
        assert(closing =~= none);
    }
    lemma_plain_on(hb1.id, hb1.board@, end.events, closing);
    lemma_plain_on(hb2.id, hb2.board@, end.events, closing);
}

} // verus!
