use crate::board::{
    find_card, holds_card, lemma_survivors_wane, lemma_worn_board_wanes, survivors, wanes,
};
use crate::card::{lemma_armour_fires_on_death, Abilities, Card, Triggers};
use crate::effect::{effect_outcome, lemma_effect_wanes, resolve_effect, sweep};
use crate::events::CombatEvents;
use crate::player::PlayerData;
use crate::rng::{gen_flag, gen_range};
use crate::util::{lowered, spec_lowered};
use rand::rngs::StdRng;
use vstd::prelude::*;

verus! {

/// How an exchange of blows ends.
#[derive(Copy, Clone, Debug, PartialEq, Eq, Structural)]
pub enum Exchange {
    /// The attacker's strike kills the defender, who does not strike back.
    Kill,
    /// The defender outlives the strike, and its counter kills the attacker.
    CounterKill,
    /// Both outlive the exchange.
    Standoff,
}

/// `struck` after a strike by `striker`.
pub open spec fn struck_by(struck: Card, striker: Card) -> Card {
    Card { hp: spec_lowered(struck.hp, striker.atk), ..struck }
}

pub open spec fn spec_exchange(attacker: Card, defender: Card) -> Exchange {
    if defender.hp <= attacker.atk {
        Exchange::Kill
    } else if attacker.hp <= defender.atk {
        Exchange::CounterKill
    } else {
        Exchange::Standoff
    }
}

/// How the exchange ends when `attacker` strikes `defender`.
pub fn exchange(attacker: &Card, defender: &Card) -> (how: Exchange)
    ensures
        how == spec_exchange(*attacker, *defender),
{
    if defender.hp <= attacker.atk {
        Exchange::Kill
    } else if attacker.hp <= defender.atk {
        Exchange::CounterKill
    } else {
        Exchange::Standoff
    }
}

pub open spec fn spec_attacker_fires(how: Exchange, trigger: Triggers) -> bool {
    match how {
        Exchange::Kill => trigger == Triggers::Kill || trigger == Triggers::Hit,
        Exchange::CounterKill => trigger == Triggers::Death || trigger == Triggers::Hit,
        Exchange::Standoff => trigger == Triggers::Survived || trigger == Triggers::Hit,
    }
}

/// Whether the ability of an attacker with this trigger fires after the
/// exchange: on a kill or a hit when it has killed, on its death or a hit
/// when it was killed, on its survival or a hit when both live on.
pub fn attacker_fires(how: Exchange, trigger: Triggers) -> (fires: bool)
    ensures
        fires == spec_attacker_fires(how, trigger),
{
    match how {
        Exchange::Kill => trigger == Triggers::Kill || trigger == Triggers::Hit,
        Exchange::CounterKill => trigger == Triggers::Death || trigger == Triggers::Hit,
        Exchange::Standoff => trigger == Triggers::Survived || trigger == Triggers::Hit,
    }
}

pub open spec fn spec_defender_fires(how: Exchange, trigger: Triggers) -> bool {
    match how {
        Exchange::Kill => trigger == Triggers::Death || trigger == Triggers::Hit,
        Exchange::CounterKill => trigger == Triggers::Kill || trigger == Triggers::Hit,
        Exchange::Standoff => trigger == Triggers::Hit,
    }
}

/// Whether the ability of a defender with this trigger fires after the
/// exchange: on its death or a hit when it was killed, on a kill or a hit
/// when its counter has killed, on a hit alone when both live on.
pub fn defender_fires(how: Exchange, trigger: Triggers) -> (fires: bool)
    ensures
        fires == spec_defender_fires(how, trigger),
{
    match how {
        Exchange::Kill => trigger == Triggers::Death || trigger == Triggers::Hit,
        Exchange::CounterKill => trigger == Triggers::Kill || trigger == Triggers::Hit,
        Exchange::Standoff => trigger == Triggers::Hit,
    }
}

/// The two boards in the course of an attack, and what was logged so far.
pub struct Field {
    pub att: Seq<Card>,
    pub def: Seq<Card>,
    pub events: Seq<CombatEvents>,
}

/// The field once the attacker's ability has fired against the defender.
pub open spec fn fire_attacker(
    field: Field,
    att_id: u16,
    att_index: int,
    def_id: u16,
    def_index: int,
    coin: bool,
) -> Field {
    let outcome = effect_outcome(att_id, field.att, att_index, def_id, field.def, def_index, coin);
    Field { att: outcome.player, def: outcome.opponent, events: field.events + outcome.events }
}

/// The field once the defender's ability has fired against the attacker.
pub open spec fn fire_defender(
    field: Field,
    att_id: u16,
    att_index: int,
    def_id: u16,
    def_index: int,
    coin: bool,
) -> Field {
    let outcome = effect_outcome(def_id, field.def, def_index, att_id, field.att, att_index, coin);
    Field { att: outcome.opponent, def: outcome.player, events: field.events + outcome.events }
}

/// The field after the exchange of blows, before any ability fires. The
/// defender has been struck; the attacker too, unless its strike has killed.
/// The log holds the strike, the counter where there is one, and the death of
/// the card that the exchange has killed.
pub open spec fn after_exchange(
    att_id: u16,
    att: Seq<Card>,
    att_index: int,
    def_id: u16,
    def: Seq<Card>,
    def_index: int,
) -> Field {
    let attacker = att[att_index];
    let defender = def[def_index];
    let strike = CombatEvents::Attack {
        att_id,
        att_card_index: att_index as u8,
        def_id,
        def_card_index: def_index as u8,
        def_hp: spec_lowered(defender.hp, attacker.atk),
    };
    let counter = CombatEvents::Attack {
        att_id: def_id,
        att_card_index: def_index as u8,
        def_id: att_id,
        def_card_index: att_index as u8,
        def_hp: spec_lowered(attacker.hp, defender.atk),
    };
    let struck = def.update(def_index, struck_by(defender, attacker));
    let countered = att.update(att_index, struck_by(attacker, defender));
    match spec_exchange(attacker, defender) {
        Exchange::Kill => Field {
            att,
            def: struck,
            events: seq![strike, CombatEvents::Death { player_id: def_id, card_id: defender.id }],
        },
        Exchange::CounterKill => Field {
            att: countered,
            def: struck,
            events: seq![
                strike,
                counter,
                CombatEvents::Death { player_id: att_id, card_id: attacker.id },
            ],
        },
        Exchange::Standoff => Field { att: countered, def: struck, events: seq![strike, counter] },
    }
}

/// The field once the abilities have fired that the exchange calls for.
/// The ability of the card that has killed fires before that of the card
/// that was killed; where both live on, the attacker's fires first.
/// `first_coin` goes to the ability that fires first, `second_coin` to the
/// other.
pub open spec fn abilities_fired(
    field: Field,
    how: Exchange,
    att_fires: bool,
    def_fires: bool,
    att_id: u16,
    att_index: int,
    def_id: u16,
    def_index: int,
    first_coin: bool,
    second_coin: bool,
) -> Field {
    if how == Exchange::CounterKill {
        let first = if def_fires {
            fire_defender(field, att_id, att_index, def_id, def_index, first_coin)
        } else {
            field
        };
        if att_fires {
            fire_attacker(first, att_id, att_index, def_id, def_index, second_coin)
        } else {
            first
        }
    } else {
        let first = if att_fires {
            fire_attacker(field, att_id, att_index, def_id, def_index, first_coin)
        } else {
            field
        };
        if def_fires {
            fire_defender(first, att_id, att_index, def_id, def_index, second_coin)
        } else {
            first
        }
    }
}

/// The field after the exchange of blows and the abilities that it fires.
pub open spec fn after_abilities(
    att_id: u16,
    att: Seq<Card>,
    att_index: int,
    def_id: u16,
    def: Seq<Card>,
    def_index: int,
    first_coin: bool,
    second_coin: bool,
) -> Field {
    let attacker = att[att_index];
    let defender = def[def_index];
    let how = spec_exchange(attacker, defender);
    abilities_fired(
        after_exchange(att_id, att, att_index, def_id, def, def_index),
        how,
        spec_attacker_fires(how, attacker.base_card.spec_trigger()),
        spec_defender_fires(how, defender.base_card.spec_trigger()),
        att_id,
        att_index,
        def_id,
        def_index,
        first_coin,
        second_coin,
    )
}

/// What is drawn for one attack: the place of the card that is struck, and
/// a coin for each of the two abilities that may fire.
pub struct AttackDraw {
    pub target: int,
    pub first_coin: bool,
    pub second_coin: bool,
}

/// The two boards after an attack, the entries that tell of it, and whether
/// the attacker may strike once more.
pub struct AttackOutcome {
    pub att: Seq<Card>,
    pub def: Seq<Card>,
    pub events: Seq<CombatEvents>,
    pub replay: bool,
}

/// What happens when card `att_index` of the board `att` attacks card
/// `draw.target` of the board `def`.
///
/// The attacker strikes: the defender loses as many hit points as the
/// attacker has attack. A defender left with none dies at once. Otherwise it
/// strikes back in the same way, and an attacker left without hit points dies.
/// Then the abilities fire that the exchange calls for (see
/// [`spec_attacker_fires`], [`spec_defender_fires`] and [`abilities_fired`]),
/// each against the other card of the exchange. At the end every card
/// without hit points leaves its board.
///
/// The attacker may strike once more if it is still on its board, its
/// ability is Dexterity, fired by survival, and the other board is not empty.
pub open spec fn attack_outcome(
    att_id: u16,
    att: Seq<Card>,
    att_index: int,
    def_id: u16,
    def: Seq<Card>,
    draw: AttackDraw,
) -> AttackOutcome {
    let attacker = att[att_index];
    let fought = after_abilities(
        att_id,
        att,
        att_index,
        def_id,
        def,
        draw.target,
        draw.first_coin,
        draw.second_coin,
    );
    let att_left = survivors(fought.att);
    let def_left = survivors(fought.def);
    AttackOutcome {
        att: att_left,
        def: def_left,
        events: fought.events,
        replay: holds_card(att_left, attacker.id) && attacker.base_card.spec_trigger()
            == Triggers::Survived && attacker.base_card.spec_ability() == Abilities::Dexterity
            && def_left.len() > 0,
    }
}

/// Whether the two players went from `att` and `def` to `att_after` and
/// `def_after`, `events` was logged and `replay` was returned, as when card
/// `att_index` of `att` attacks and `draw` is drawn: the boards, the log and
/// the flag are those of [`attack_outcome`], and nothing else changes.
pub open spec fn is_attack(
    att: PlayerData,
    att_index: int,
    def: PlayerData,
    draw: AttackDraw,
    att_after: PlayerData,
    def_after: PlayerData,
    events: Seq<CombatEvents>,
    replay: bool,
) -> bool {
    let outcome = attack_outcome(att.id, att.board@, att_index, def.id, def.board@, draw);
    &&& att_after.board@ == outcome.att
    &&& def_after.board@ == outcome.def
    &&& events == outcome.events
    &&& replay == outcome.replay
    &&& att_after.same_but_board(att)
    &&& def_after.same_but_board(def)
}

/// An attack adds no card, no hit point and no move to either board.
pub proof fn lemma_attack_wanes(
    att_id: u16,
    att: Seq<Card>,
    att_index: int,
    def_id: u16,
    def: Seq<Card>,
    draw: AttackDraw,
)
    requires
        0 <= att_index < att.len(),
        0 <= draw.target < def.len(),
    ensures
        wanes(att, attack_outcome(att_id, att, att_index, def_id, def, draw).att),
        wanes(def, attack_outcome(att_id, att, att_index, def_id, def, draw).def),
{
    let def_index = draw.target;
    let attacker = att[att_index];
    let defender = def[def_index];
    let how = spec_exchange(attacker, defender);
    let exchanged = after_exchange(att_id, att, att_index, def_id, def, def_index);
    lemma_worn_board_wanes(att, exchanged.att);
    lemma_worn_board_wanes(def, exchanged.def);
    lemma_armour_fires_on_death(attacker.base_card);
    lemma_armour_fires_on_death(defender.base_card);
    let att_fires = spec_attacker_fires(how, attacker.base_card.spec_trigger());
    let def_fires = spec_defender_fires(how, defender.base_card.spec_trigger());
    if how == Exchange::CounterKill {
        let first = if def_fires {
            lemma_effect_wanes(
                def_id,
                exchanged.def,
                def_index,
                att_id,
                exchanged.att,
                att_index,
                draw.first_coin,
            );
            fire_defender(exchanged, att_id, att_index, def_id, def_index, draw.first_coin)
        } else {
            exchanged
        };
        if att_fires {
            lemma_effect_wanes(
                att_id,
                first.att,
                att_index,
                def_id,
                first.def,
                def_index,
                draw.second_coin,
            );
        }
    } else {
        let first = if att_fires {
            lemma_effect_wanes(
                att_id,
                exchanged.att,
                att_index,
                def_id,
                exchanged.def,
                def_index,
                draw.first_coin,
            );
            fire_attacker(exchanged, att_id, att_index, def_id, def_index, draw.first_coin)
        } else {
            exchanged
        };
        if def_fires {
            lemma_effect_wanes(
                def_id,
                first.def,
                def_index,
                att_id,
                first.att,
                att_index,
                draw.second_coin,
            );
        }
    }
    let fought = after_abilities(
        att_id,
        att,
        att_index,
        def_id,
        def,
        def_index,
        draw.first_coin,
        draw.second_coin,
    );
    lemma_survivors_wane(fought.att);
    lemma_survivors_wane(fought.def);
}

/// The exchange of blows between card `att_card_index` of `att_hb` and card
/// `def_card_index` of `def_hb`: they lose the hit points that the blows
/// cost them, and the blows and the death that they bring are logged.
fn trade_blows(
    att_card_index: usize,
    def_card_index: usize,
    att_hb: &mut PlayerData,
    def_hb: &mut PlayerData,
) -> (events: Vec<CombatEvents>)
    requires
        att_card_index < old(att_hb).board.len() <= u8::MAX,
        def_card_index < old(def_hb).board.len() <= u8::MAX,
    ensures
        ({
            let exchanged = after_exchange(
                old(att_hb).id,
                old(att_hb).board@,
                att_card_index as int,
                old(def_hb).id,
                old(def_hb).board@,
                def_card_index as int,
            );
            &&& final(att_hb).board@ == exchanged.att
            &&& final(def_hb).board@ == exchanged.def
            &&& events@ == exchanged.events
        }),
        final(att_hb).same_but_board(*old(att_hb)),
        final(def_hb).same_but_board(*old(def_hb)),
{
    let attacker = att_hb.board[att_card_index];
    let defender = def_hb.board[def_card_index];
    let att_index = att_card_index as u8;
    let def_index = def_card_index as u8;
    let att_id = att_hb.id;
    let def_id = def_hb.id;

    let mut events: Vec<CombatEvents> = Vec::new();
    let def_hp = lowered(defender.hp, attacker.atk);
    events.push(
        CombatEvents::Attack {
            att_id,
            att_card_index: att_index,
            def_id,
            def_card_index: def_index,
            def_hp,
        },
    );
    def_hb.board[def_card_index].hp = def_hp;
    match exchange(&attacker, &defender) {
        Exchange::Kill => {
            events.push(CombatEvents::Death { player_id: def_id, card_id: defender.id });
        },
        Exchange::CounterKill => {
            events.push(
                CombatEvents::Attack {
                    att_id: def_id,
                    att_card_index: def_index,
                    def_id: att_id,
                    def_card_index: att_index,
                    def_hp: 0,
                },
            );
            att_hb.board[att_card_index].hp = 0;
            events.push(CombatEvents::Death { player_id: att_id, card_id: attacker.id });
        },
        Exchange::Standoff => {
            let att_hp = attacker.hp - defender.atk;
            events.push(
                CombatEvents::Attack {
                    att_id: def_id,
                    att_card_index: def_index,
                    def_id: att_id,
                    def_card_index: att_index,
                    def_hp: att_hp,
                },
            );
            att_hb.board[att_card_index].hp = att_hp;
        },
    }
    events
}

/// Fires the abilities that the exchange calls for, and adds to `events`
/// what they log.
fn fire_abilities(
    how: Exchange,
    att_card_index: u8,
    def_card_index: u8,
    att_hb: &mut PlayerData,
    def_hb: &mut PlayerData,
    first_coin: bool,
    second_coin: bool,
    events: &mut Vec<CombatEvents>,
)
    requires
        att_card_index < old(att_hb).board.len(),
        def_card_index < old(def_hb).board.len(),
    ensures
        ({
            let attacker = old(att_hb).board@[att_card_index as int];
            let defender = old(def_hb).board@[def_card_index as int];
            let fired = abilities_fired(
                Field { att: old(att_hb).board@, def: old(def_hb).board@, events: old(events)@ },
                how,
                spec_attacker_fires(how, attacker.base_card.spec_trigger()),
                spec_defender_fires(how, defender.base_card.spec_trigger()),
                old(att_hb).id,
                att_card_index as int,
                old(def_hb).id,
                def_card_index as int,
                first_coin,
                second_coin,
            );
            &&& final(att_hb).board@ == fired.att
            &&& final(def_hb).board@ == fired.def
            &&& final(events)@ == fired.events
        }),
        final(att_hb).same_but_board(*old(att_hb)),
        final(def_hb).same_but_board(*old(def_hb)),
{
    let attacker = att_hb.board[att_card_index as usize].base_card;
    let defender = def_hb.board[def_card_index as usize].base_card;
    let att_fires = attacker_fires(how, attacker.trigger());
    let def_fires = defender_fires(how, defender.trigger());
    proof {
        lemma_armour_fires_on_death(attacker);
        lemma_armour_fires_on_death(defender);
        lemma_effect_wanes(
            att_hb.id,
            att_hb.board@,
            att_card_index as int,
            def_hb.id,
            def_hb.board@,
            def_card_index as int,
            first_coin,
        );
        lemma_effect_wanes(
            def_hb.id,
            def_hb.board@,
            def_card_index as int,
            att_hb.id,
            att_hb.board@,
            att_card_index as int,
            first_coin,
        );
    }
    match how {
        Exchange::CounterKill => {
            if def_fires {
                let mut told = resolve_effect(
                    def_card_index,
                    att_card_index,
                    def_hb,
                    att_hb,
                    first_coin,
                );
                events.append(&mut told);
            }
            if att_fires {
                let mut told = resolve_effect(
                    att_card_index,
                    def_card_index,
                    att_hb,
                    def_hb,
                    second_coin,
                );
                events.append(&mut told);
            }
        },
        Exchange::Kill | Exchange::Standoff => {
            if att_fires {
                let mut told = resolve_effect(
                    att_card_index,
                    def_card_index,
                    att_hb,
                    def_hb,
                    first_coin,
                );
                events.append(&mut told);
            }
            if def_fires {
                let mut told = resolve_effect(
                    def_card_index,
                    att_card_index,
                    def_hb,
                    att_hb,
                    second_coin,
                );
                events.append(&mut told);
            }
        },
    }
}

/// Resolves the attack of card `att_card_index` of `att_hb` on card
/// `def_card_index` of `def_hb`. Returns the entries that tell of it, and
/// whether the attacker may strike once more. `first_coin` and `second_coin`
/// go to the abilities that fire, in the order in which they fire.
pub fn resolve_attack(
    att_card_index: usize,
    def_card_index: usize,
    att_hb: &mut PlayerData,
    def_hb: &mut PlayerData,
    first_coin: bool,
    second_coin: bool,
) -> (result: (Vec<CombatEvents>, bool))
    requires
        att_card_index < old(att_hb).board.len() <= u8::MAX,
        def_card_index < old(def_hb).board.len() <= u8::MAX,
    ensures
        is_attack(
            *old(att_hb),
            att_card_index as int,
            *old(def_hb),
            (AttackDraw { target: def_card_index as int, first_coin, second_coin }),
            *final(att_hb),
            *final(def_hb),
            result.0@,
            result.1,
        ),
        final(att_hb).board.len() <= old(att_hb).board.len(),
        final(def_hb).board.len() <= old(def_hb).board.len(),
{
    proof {
        lemma_attack_wanes(
            att_hb.id,
            att_hb.board@,
            att_card_index as int,
            def_hb.id,
            def_hb.board@,
            AttackDraw { target: def_card_index as int, first_coin, second_coin },
        );
    }
    let attacker = att_hb.board[att_card_index];
    let defender = def_hb.board[def_card_index];
    let how = exchange(&attacker, &defender);
    let mut events = trade_blows(att_card_index, def_card_index, att_hb, def_hb);
    fire_abilities(
        how,
        att_card_index as u8,
        def_card_index as u8,
        att_hb,
        def_hb,
        first_coin,
        second_coin,
        &mut events,
    );
    sweep(att_hb);
    sweep(def_hb);

    let replay = find_card(&att_hb.board, attacker.id).is_some() && attacker.base_card.trigger()
        == Triggers::Survived && attacker.base_card.ability() == Abilities::Dexterity
        && def_hb.board.len() > 0;
    (events, replay)
}

/// Card `att_card_index` of `att_hb` attacks a card of `def_hb` that `rng`
/// picks, each card of that board being as likely as the next. Returns the
/// entries that tell of the attack, and whether the attacker may strike once
/// more.
///
/// After the target, `rng` is asked for a coin for each Glitch that the
/// exchange fires, in the order in which they fire, and for nothing else.
/// Whatever it gives, the attack is resolved as [`resolve_attack`] resolves
/// it on what was drawn.
pub fn simulate_attack(
    att_card_index: usize,
    att_hb: &mut PlayerData,
    def_hb: &mut PlayerData,
    rng: &mut StdRng,
) -> (result: (Vec<CombatEvents>, bool))
    requires
        att_card_index < old(att_hb).board.len() <= u8::MAX,
        0 < old(def_hb).board.len() <= u8::MAX,
    ensures
        exists|draw: AttackDraw|
            0 <= draw.target < old(def_hb).board.len() && #[trigger] is_attack(
                *old(att_hb),
                att_card_index as int,
                *old(def_hb),
                draw,
                *final(att_hb),
                *final(def_hb),
                result.0@,
                result.1,
            ),
        final(att_hb).board.len() <= old(att_hb).board.len(),
        final(def_hb).board.len() <= old(def_hb).board.len(),
{
    let def_card_index = gen_range(rng, 0, def_hb.board.len() as i32) as usize;
    let attacker = att_hb.board[att_card_index];
    let defender = def_hb.board[def_card_index];
    let how = exchange(&attacker, &defender);
    let att_draws = attacker_fires(how, attacker.base_card.trigger())
        && attacker.base_card.ability() == Abilities::Glitch;
    let def_draws = defender_fires(how, defender.base_card.trigger())
        && defender.base_card.ability() == Abilities::Glitch;
    let (first_draws, second_draws) = match how {
        Exchange::CounterKill => (def_draws, att_draws),
        Exchange::Kill | Exchange::Standoff => (att_draws, def_draws),
    };
    let first_coin = if first_draws {
        gen_flag(rng)
    } else {
        false
    };
    let second_coin = if second_draws {
        gen_flag(rng)
    } else {
        false
    };
    let result = resolve_attack(
        att_card_index,
        def_card_index,
        att_hb,
        def_hb,
        first_coin,
        second_coin,
    );
    assert(is_attack(
        *old(att_hb),
        att_card_index as int,
        *old(def_hb),
        AttackDraw { target: def_card_index as int, first_coin, second_coin },
        *att_hb,
        *def_hb,
        result.0@,
        result.1,
    ));
    result
}

} // verus!
