use crate::board::{blasted, lemma_survivors_wane, lemma_worn_board_wanes, survivors, wanes};
use crate::card::{Abilities, Card};
use crate::events::CombatEvents;
use crate::player::PlayerData;
use crate::rng::gen_flag;
use crate::util::{lowered, raised, spec_lowered, spec_raised};
use rand::rngs::StdRng;
use vstd::prelude::*;

verus! {

/// What Gigantism adds to its card's attack.
pub const GIGANTISM_BONUS: u16 = 1;

/// What Glitch takes from its target's attack or hit points.
pub const GLITCH_DAMAGE: u16 = 2;

/// What Exploding Armour takes from the hit points of each card it reaches.
pub const ARMOUR_DAMAGE: u16 = 1;

/// The gold that Pillage brings.
pub const PILLAGE_GOLD: i32 = 1;

/// The entry that tells how the stats of a card went from `before` to
/// `after`: it carries the differences, so that a reader who adds them to the
/// stats before gets the stats after.
pub open spec fn stats_change(player_id: u16, before: Card, after: Card) -> CombatEvents {
    CombatEvents::StatsChange {
        player_id,
        card_id: before.id,
        hp: (after.hp - before.hp) as i32,
        at: (after.atk - before.atk) as i32,
    }
}

/// One entry for each card of `board`, in order, as a blast of `amount` hits
/// them all at once: the change of its hit points where the card survives, its
/// death where it does not.
pub open spec fn blast_events(player_id: u16, board: Seq<Card>, amount: u16) -> Seq<CombatEvents> {
    Seq::new(
        board.len(),
        |i: int|
            if board[i].hp > amount {
                stats_change(
                    player_id,
                    board[i],
                    Card { hp: spec_lowered(board[i].hp, amount), ..board[i] },
                )
            } else {
                CombatEvents::Death { player_id, card_id: board[i].id }
            },
    )
}

/// The two boards after an ability has fired, and the entries that tell of it.
pub struct EffectOutcome {
    pub player: Seq<Card>,
    pub opponent: Seq<Card>,
    pub events: Seq<CombatEvents>,
}

/// What happens when the ability of card `card_index` of `player` fires
/// against card `opponent_card_index` of `opponent`. `coin` decides between
/// the two things that Glitch can do, and nothing else.
///
/// The log always starts with the entry that names the ability and its
/// card. What follows depends on the ability:
/// - Toxic Spores, Poisonous: the target's hit points drop to zero, and it
///   dies;
/// - Gigantism: the card's own attack rises by [`GIGANTISM_BONUS`];
/// - Exploding Armour: every card of `opponent` loses [`ARMOUR_DAMAGE`] hit
///   points at once, and those left with none die and leave the board;
/// - Pillage: the card's owner wins [`PILLAGE_GOLD`];
/// - Trap: the target's attack is halved, rounding down;
/// - Glitch: the target loses up to [`GLITCH_DAMAGE`] of its attack if `coin`
///   is set, of its hit points if not, and dies if that was the last of them;
/// - any other ability: nothing.
///
/// A card that an ability leaves without hit points stays on its board for
/// the time being, except under Exploding Armour: the dead leave when the
/// attack that has fired the ability is over.
#[verifier::opaque]
pub open spec fn effect_outcome(
    player_id: u16,
    player: Seq<Card>,
    card_index: int,
    opponent_id: u16,
    opponent: Seq<Card>,
    opponent_card_index: int,
    coin: bool,
) -> EffectOutcome {
    let card = player[card_index];
    let target = opponent[opponent_card_index];
    let ability = card.base_card.spec_ability();
    let applied = seq![
        CombatEvents::ApplyAbility {
            card_index: card_index as u8,
            player_id,
            ability,
            card_id: card.id,
        },
    ];
    match ability {
        Abilities::ToxicSpores | Abilities::Poisonous => EffectOutcome {
            player,
            opponent: opponent.update(opponent_card_index, Card { hp: 0, ..target }),
            events: applied.push(
                CombatEvents::Death { player_id: opponent_id, card_id: target.id },
            ),
        },
        Abilities::Gigantism => {
            let grown = Card { atk: spec_raised(card.atk, GIGANTISM_BONUS as nat), ..card };
            EffectOutcome {
                player: player.update(card_index, grown),
                opponent,
                events: applied.push(stats_change(player_id, card, grown)),
            }
        },
        Abilities::ExplodingArmour => EffectOutcome {
            player,
            opponent: survivors(blasted(opponent, ARMOUR_DAMAGE)),
            events: applied + blast_events(opponent_id, opponent, ARMOUR_DAMAGE),
        },
        Abilities::Pillage => EffectOutcome {
            player,
            opponent,
            events: applied.push(CombatEvents::GoldChange { player_id, change: PILLAGE_GOLD }),
        },
        Abilities::Trap => {
            let trapped = Card { atk: target.atk / 2, ..target };
            EffectOutcome {
                player,
                opponent: opponent.update(opponent_card_index, trapped),
                events: applied.push(stats_change(opponent_id, target, trapped)),
            }
        },
        Abilities::Glitch => {
            let glitched = if coin {
                Card { atk: spec_lowered(target.atk, GLITCH_DAMAGE), ..target }
            } else {
                Card { hp: spec_lowered(target.hp, GLITCH_DAMAGE), ..target }
            };
            let changed = applied.push(stats_change(opponent_id, target, glitched));
            EffectOutcome {
                player,
                opponent: opponent.update(opponent_card_index, glitched),
                events: if target.hp > 0 && glitched.hp == 0 {
                    changed.push(CombatEvents::Death { player_id: opponent_id, card_id: target.id })
                } else {
                    changed
                },
            }
        },
        _ => EffectOutcome { player, opponent, events: applied },
    }
}

/// Whether the two players went from `player` and `opponent` to `player_after`
/// and `opponent_after`, and `events` was logged, as when the ability of card
/// `card_index` of `player` fires against card `opponent_card_index` of
/// `opponent` and `coin` is drawn: the boards and the log are those of
/// [`effect_outcome`], and nothing else changes.
pub open spec fn is_effect(
    player: PlayerData,
    card_index: int,
    opponent: PlayerData,
    opponent_card_index: int,
    coin: bool,
    player_after: PlayerData,
    opponent_after: PlayerData,
    events: Seq<CombatEvents>,
) -> bool {
    let outcome = effect_outcome(
        player.id,
        player.board@,
        card_index,
        opponent.id,
        opponent.board@,
        opponent_card_index,
        coin,
    );
    &&& player_after.board@ == outcome.player
    &&& opponent_after.board@ == outcome.opponent
    &&& events == outcome.events
    &&& player_after.same_but_board(player)
    &&& opponent_after.same_but_board(opponent)
}

/// No ability adds a card, a hit point or a move to a board, and only
/// Exploding Armour takes cards off: every other ability leaves each card in
/// its place.
pub proof fn lemma_effect_wanes(
    player_id: u16,
    player: Seq<Card>,
    card_index: int,
    opponent_id: u16,
    opponent: Seq<Card>,
    opponent_card_index: int,
    coin: bool,
)
    requires
        0 <= card_index < player.len(),
        0 <= opponent_card_index < opponent.len(),
    ensures
        ({
            let outcome = effect_outcome(
                player_id,
                player,
                card_index,
                opponent_id,
                opponent,
                opponent_card_index,
                coin,
            );
            &&& outcome.player.len() == player.len()
            &&& wanes(player, outcome.player)
            &&& wanes(opponent, outcome.opponent)
            &&& player[card_index].base_card.spec_ability() != Abilities::ExplodingArmour
                ==> outcome.opponent.len() == opponent.len()
        }),
{
    reveal(effect_outcome);
    let outcome = effect_outcome(
        player_id,
        player,
        card_index,
        opponent_id,
        opponent,
        opponent_card_index,
        coin,
    );
    lemma_worn_board_wanes(player, outcome.player);
    if player[card_index].base_card.spec_ability() == Abilities::ExplodingArmour {
        let hit = blasted(opponent, ARMOUR_DAMAGE);
        lemma_worn_board_wanes(opponent, hit);
        lemma_survivors_wane(hit);
    } else {
        lemma_worn_board_wanes(opponent, outcome.opponent);
    }
}

/// Hits every card of the board of `hb` with `amount` at once, takes the
/// dead off the board and adds to `events` one entry for each card hit.
fn blast(hb: &mut PlayerData, amount: u16, events: &mut Vec<CombatEvents>)
    ensures
        final(hb).board@ == survivors(blasted(old(hb).board@, amount)),
        final(hb).same_but_board(*old(hb)),
        final(events)@ == old(events)@ + blast_events(old(hb).id, old(hb).board@, amount),
{
    let ghost before = hb.board@;
    let ghost logged = events@;
    let mut left: Vec<Card> = Vec::new();
    let mut i: usize = 0;
    while i < hb.board.len()
        invariant
            i <= hb.board.len(),
            hb.board@ == before,
            hb.id == old(hb).id,
            left@ == survivors(blasted(before, amount).take(i as int)),
            events@ == logged + blast_events(hb.id, before, amount).take(i as int),
        decreases hb.board.len() - i,
    {
        let card = hb.board[i];
        proof {
            let seen = blasted(before, amount).take(i as int + 1);
            assert(seen.drop_last() == blasted(before, amount).take(i as int));
            let told = blast_events(hb.id, before, amount);
            assert(told.take(i as int + 1) == told.take(i as int).push(told[i as int]));
        }
        if card.hp > amount {
            let hurt = Card { hp: card.hp - amount, ..card };
            events.push(
                CombatEvents::StatsChange {
                    player_id: hb.id,
                    card_id: card.id,
                    hp: -(amount as i32),
                    at: 0,
                },
            );
            left.push(hurt);
        } else {
            events.push(CombatEvents::Death { player_id: hb.id, card_id: card.id });
        }
        i += 1;
    }
    proof {
        let all = blasted(before, amount);
        assert(all.take(i as int) == all);
        let told = blast_events(hb.id, before, amount);
        assert(told.take(i as int) == told);
    }
    hb.board = left;
}

/// Takes the cards without hit points off the board of `hb`.
pub fn sweep(hb: &mut PlayerData)
    ensures
        final(hb).board@ == survivors(old(hb).board@),
        final(hb).same_but_board(*old(hb)),
{
    let ghost before = hb.board@;
    let mut left: Vec<Card> = Vec::new();
    let mut i: usize = 0;
    while i < hb.board.len()
        invariant
            i <= hb.board.len(),
            hb.board@ == before,
            left@ == survivors(before.take(i as int)),
        decreases hb.board.len() - i,
    {
        let card = hb.board[i];
        proof {
            assert(before.take(i as int + 1).drop_last() == before.take(i as int));
        }
        if card.hp > 0 {
            left.push(card);
        }
        i += 1;
    }
    proof {
        assert(before.take(i as int) == before);
    }
    hb.board = left;
}

/// Fires the ability of card `card_index` of `player_hb` against card
/// `opponent_card_index` of `opponent_hb`, and returns the entries that tell
/// of it. `coin` decides between the two things that Glitch can do.
pub fn resolve_effect(
    card_index: u8,
    opponent_card_index: u8,
    player_hb: &mut PlayerData,
    opponent_hb: &mut PlayerData,
    coin: bool,
) -> (events: Vec<CombatEvents>)
    requires
        card_index < old(player_hb).board.len(),
        opponent_card_index < old(opponent_hb).board.len(),
    ensures
        is_effect(
            *old(player_hb),
            card_index as int,
            *old(opponent_hb),
            opponent_card_index as int,
            coin,
            *final(player_hb),
            *final(opponent_hb),
            events@,
        ),
        final(player_hb).board.len() == old(player_hb).board.len(),
        final(opponent_hb).board.len() <= old(opponent_hb).board.len(),
{
    proof {
        reveal(effect_outcome);
        lemma_effect_wanes(
            player_hb.id,
            player_hb.board@,
            card_index as int,
            opponent_hb.id,
            opponent_hb.board@,
            opponent_card_index as int,
            coin,
        );
    }
    let card = player_hb.board[card_index as usize];
    let target = opponent_hb.board[opponent_card_index as usize];
    let player_id = player_hb.id;
    let opponent_id = opponent_hb.id;
    let ability = card.base_card.ability();
    let mut events: Vec<CombatEvents> = Vec::new();
    events.push(CombatEvents::ApplyAbility { card_index, player_id, ability, card_id: card.id });

    match ability {
        Abilities::ToxicSpores | Abilities::Poisonous => {
            opponent_hb.board[opponent_card_index as usize].hp = 0;
            events.push(CombatEvents::Death { player_id: opponent_id, card_id: target.id });
        },
        Abilities::Gigantism => {
            let atk = raised(card.atk, GIGANTISM_BONUS as usize);
            player_hb.board[card_index as usize].atk = atk;
            events.push(
                CombatEvents::StatsChange {
                    player_id,
                    card_id: card.id,
                    hp: 0,
                    at: atk as i32 - card.atk as i32,
                },
            );
        },
        // Not in the game yet.
        Abilities::Sadism => {},
        Abilities::ExplodingArmour => {
            blast(opponent_hb, ARMOUR_DAMAGE, &mut events);
        },
        Abilities::Pillage => {
            events.push(CombatEvents::GoldChange { player_id, change: PILLAGE_GOLD });
        },
        Abilities::Trap => {
            let atk = target.atk / 2;
            opponent_hb.board[opponent_card_index as usize].atk = atk;
            events.push(
                CombatEvents::StatsChange {
                    player_id: opponent_id,
                    card_id: target.id,
                    hp: 0,
                    at: atk as i32 - target.atk as i32,
                },
            );
        },
        // Not in the game yet.
        Abilities::Multiplication => {},
        Abilities::Glitch => {
            if coin {
                let atk = lowered(target.atk, GLITCH_DAMAGE);
                opponent_hb.board[opponent_card_index as usize].atk = atk;
                events.push(
                    CombatEvents::StatsChange {
                        player_id: opponent_id,
                        card_id: target.id,
                        hp: 0,
                        at: atk as i32 - target.atk as i32,
                    },
                );
            } else {
                let hp = lowered(target.hp, GLITCH_DAMAGE);
                opponent_hb.board[opponent_card_index as usize].hp = hp;
                events.push(
                    CombatEvents::StatsChange {
                        player_id: opponent_id,
                        card_id: target.id,
                        hp: hp as i32 - target.hp as i32,
                        at: 0,
                    },
                );
                if target.hp > 0 && hp == 0 {
                    events.push(CombatEvents::Death { player_id: opponent_id, card_id: target.id });
                }
            }
        },
        // The attacker's second strike is the fight's to give.
        Abilities::Dexterity => {},
        // These act in the shop, not in a fight.
        Abilities::Slimy
        | Abilities::SweetScent
        | Abilities::Sporocarp
        | Abilities::Roots
        | Abilities::GoldMine
        | Abilities::Altruism
        | Abilities::Cooperation
        | Abilities::Spawn
        | Abilities::Cannibalism
        | Abilities::Replication
        | Abilities::Scanner
        | Abilities::Upgrade
        | Abilities::Upload
        | Abilities::Download
        | Abilities::NoAbility => {},
    }
    events
}

/// Fires the ability of card `card_index` of `player_hb` against card
/// `opponent_card_index` of `opponent_hb`, and returns the entries that tell
/// of it. Glitch draws from `rng` which of its two things it does; no other
/// ability draws.
pub fn apply_effect(
    card_index: u8,
    opponent_card_index: u8,
    player_hb: &mut PlayerData,
    opponent_hb: &mut PlayerData,
    rng: &mut StdRng,
) -> (events: Vec<CombatEvents>)
    requires
        card_index < old(player_hb).board.len(),
        opponent_card_index < old(opponent_hb).board.len(),
    ensures
        exists|coin: bool|
            is_effect(
                *old(player_hb),
                card_index as int,
                *old(opponent_hb),
                opponent_card_index as int,
                coin,
                *final(player_hb),
                *final(opponent_hb),
                events@,
            ),
        final(player_hb).board.len() == old(player_hb).board.len(),
        final(opponent_hb).board.len() <= old(opponent_hb).board.len(),
{
    let coin = match player_hb.board[card_index as usize].base_card.ability() {
        Abilities::Glitch => gen_flag(rng),
        _ => false,
    };
    resolve_effect(card_index, opponent_card_index, player_hb, opponent_hb, coin)
}

} // verus!
