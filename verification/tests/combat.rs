use rand::rngs::StdRng;
use rand::SeedableRng;
use unbalanced_brawl::attack::{resolve_attack, simulate_attack};
use unbalanced_brawl::battle::{fight, play_turn, simulate_combat};
use unbalanced_brawl::card::{Abilities, BaseCards, Card};
use unbalanced_brawl::effect::{apply_effect, resolve_effect, sweep};
use unbalanced_brawl::events::CombatEvents;
use unbalanced_brawl::player::{get_number_of_cards, PlayerData};
use unbalanced_brawl::predefined_hands::HandsName;

fn card(base_card: BaseCards, id: u32, hp: u16, atk: u16) -> Card {
    Card { base_card, id, hp, atk, played: 0 }
}

fn player(id: u16, hp: u16, board: Vec<Card>) -> PlayerData {
    PlayerData {
        id,
        name: format!("player {}", id),
        hand: vec![],
        board,
        coins: 3,
        extra_coins: 0,
        hp,
        shop_level: 1,
        ia: HandsName::Mush,
    }
}

fn applied(card_index: u8, player_id: u16, ability: Abilities, card_id: u32) -> CombatEvents {
    CombatEvents::ApplyAbility { card_index, player_id, ability, card_id }
}

fn strike(att_id: u16, att: u8, def_id: u16, def: u8, def_hp: u16) -> CombatEvents {
    CombatEvents::Attack { att_id, att_card_index: att, def_id, def_card_index: def, def_hp }
}

fn total_hp(board: &Vec<Card>) -> u64 {
    let mut total: u64 = 0;
    for card in board {
        total += card.hp as u64;
    }
    total
}

/// Every death in the log comes after a strike that left a card of its owner
/// without hit points, or after a deadly ability of the other player.
fn deaths_follow_causes(log: &Vec<CombatEvents>) -> bool {
    for (at, event) in log.iter().enumerate() {
        if let CombatEvents::Death { player_id: owner, .. } = event {
            let mut caused = false;
            for before in &log[..at] {
                match before {
                    CombatEvents::Attack { def_id, def_hp, .. } => {
                        if def_id == owner && *def_hp == 0 {
                            caused = true;
                        }
                    }
                    CombatEvents::ApplyAbility { player_id, ability, .. } => {
                        if player_id != owner
                            && matches!(
                                ability,
                                Abilities::ToxicSpores
                                    | Abilities::Poisonous
                                    | Abilities::ExplodingArmour
                                    | Abilities::Glitch
                            )
                        {
                            caused = true;
                        }
                    }
                    _ => {}
                }
            }
            if !caused {
                return false;
            }
        }
    }
    true
}

#[test]
fn simple_kill() {
    let attacker = card(BaseCards::Mush1, 1, 5, 8);
    let defender = card(BaseCards::Mush3, 2, 6, 3);
    let mut att = player(0, 25, vec![attacker]);
    let mut def = player(1, 25, vec![defender]);
    let (events, replay) = resolve_attack(0, 0, &mut att, &mut def, false, false);
    assert_eq!(
        events,
        vec![strike(0, 0, 1, 0, 0), CombatEvents::Death { player_id: 1, card_id: 2 }]
    );
    assert!(!replay);
    assert_eq!(att.board, vec![attacker]);
    assert!(def.board.is_empty());
}

#[test]
fn mutual_survive() {
    let attacker = card(BaseCards::Mush1, 1, 10, 2);
    let defender = card(BaseCards::Mush3, 2, 10, 2);
    let mut att = player(0, 25, vec![attacker]);
    let mut def = player(1, 25, vec![defender]);
    let (events, replay) = resolve_attack(0, 0, &mut att, &mut def, false, false);
    assert_eq!(events, vec![strike(0, 0, 1, 0, 8), strike(1, 0, 0, 0, 8)]);
    assert!(!replay);
    assert_eq!(att.board, vec![Card { hp: 8, ..attacker }]);
    assert_eq!(def.board, vec![Card { hp: 8, ..defender }]);
}

#[test]
fn counter_kill() {
    let attacker = card(BaseCards::Mush1, 1, 3, 2);
    let defender = card(BaseCards::Mush3, 2, 10, 4);
    let mut att = player(0, 25, vec![attacker]);
    let mut def = player(1, 25, vec![defender]);
    let (events, replay) = resolve_attack(0, 0, &mut att, &mut def, false, false);
    assert_eq!(
        events,
        vec![
            strike(0, 0, 1, 0, 8),
            strike(1, 0, 0, 0, 0),
            CombatEvents::Death { player_id: 0, card_id: 1 },
        ]
    );
    assert!(!replay);
    assert!(att.board.is_empty());
    assert_eq!(def.board, vec![Card { hp: 8, ..defender }]);
}

#[test]
fn exact_kill_leaves_no_counter() {
    let attacker = card(BaseCards::Mush1, 1, 1, 6);
    let defender = card(BaseCards::Mush3, 2, 6, 100);
    let mut att = player(0, 25, vec![attacker]);
    let mut def = player(1, 25, vec![defender]);
    let (events, _) = resolve_attack(0, 0, &mut att, &mut def, false, false);
    assert_eq!(
        events,
        vec![strike(0, 0, 1, 0, 0), CombatEvents::Death { player_id: 1, card_id: 2 }]
    );
    assert_eq!(att.board, vec![attacker]);
}

#[test]
fn armour_break() {
    let bearer = card(BaseCards::Merch3, 1, 0, 1);
    let one = card(BaseCards::Mush1, 11, 1, 1);
    let two = card(BaseCards::Mush1, 12, 2, 1);
    let three = card(BaseCards::Mush1, 13, 3, 1);
    let mut own = player(0, 25, vec![bearer]);
    let mut other = player(1, 25, vec![one, two, three]);
    let events = resolve_effect(0, 0, &mut own, &mut other, false);
    assert_eq!(
        events,
        vec![
            applied(0, 0, Abilities::ExplodingArmour, 1),
            CombatEvents::Death { player_id: 1, card_id: 11 },
            CombatEvents::StatsChange { player_id: 1, card_id: 12, hp: -1, at: 0 },
            CombatEvents::StatsChange { player_id: 1, card_id: 13, hp: -1, at: 0 },
        ]
    );
    assert_eq!(other.board, vec![Card { hp: 1, ..two }, Card { hp: 2, ..three }]);
    assert_eq!(own.board, vec![bearer]);
}

#[test]
fn halving_debuff() {
    let bearer = card(BaseCards::Spid3, 1, 2, 3);
    let target = card(BaseCards::Mush1, 11, 5, 7);
    let mut own = player(0, 25, vec![bearer]);
    let mut other = player(1, 25, vec![target]);
    let events = resolve_effect(0, 0, &mut own, &mut other, false);
    assert_eq!(
        events,
        vec![
            applied(0, 0, Abilities::Trap, 1),
            CombatEvents::StatsChange { player_id: 1, card_id: 11, hp: 0, at: -4 },
        ]
    );
    assert_eq!(other.board, vec![Card { atk: 3, ..target }]);
}

#[test]
fn battle_outcome_damage() {
    // Ranks 4 and 2 are left to the winner, the loser has 4 hit points.
    let winner = player(7, 25, vec![card(BaseCards::Mush8, 1, 6, 5), card(BaseCards::Mush3, 2, 5, 2)]);
    let loser = player(9, 4, vec![]);
    let mut rng = StdRng::seed_from_u64(1);
    let events = simulate_combat(winner, loser, &mut rng);
    assert_eq!(events, vec![CombatEvents::PlayersAttack { att_id: 7, change_def_hp: -4 }]);
}

#[test]
fn battle_outcome_damage_by_rank() {
    let winner = player(7, 25, vec![card(BaseCards::Mush8, 1, 6, 5), card(BaseCards::Mush3, 2, 5, 2)]);
    let loser = player(9, 25, vec![]);
    let mut rng = StdRng::seed_from_u64(1);
    let events = simulate_combat(loser, winner, &mut rng);
    assert_eq!(events, vec![CombatEvents::PlayersAttack { att_id: 7, change_def_hp: -6 }]);
}

#[test]
fn two_empty_boards_cost_nothing() {
    let mut rng = StdRng::seed_from_u64(1);
    let events = simulate_combat(player(0, 25, vec![]), player(1, 25, vec![]), &mut rng);
    assert_eq!(events, vec![CombatEvents::PlayersAttack { att_id: 1, change_def_hp: 0 }]);
}

#[test]
fn instant_kills() {
    for bearer_type in [BaseCards::Mush5, BaseCards::Spid6] {
        let bearer = card(bearer_type, 1, 2, 0);
        let bystander = card(BaseCards::Mush1, 10, 9, 9);
        let target = card(BaseCards::Mush1, 11, 50, 7);
        let mut own = player(0, 25, vec![bearer]);
        let mut other = player(1, 25, vec![bystander, target]);
        let events = resolve_effect(0, 1, &mut own, &mut other, true);
        assert_eq!(
            events,
            vec![
                applied(0, 0, bearer_type.ability(), 1),
                CombatEvents::Death { player_id: 1, card_id: 11 },
            ]
        );
        assert_eq!(other.board, vec![bystander, Card { hp: 0, ..target }]);
        sweep(&mut other);
        assert_eq!(other.board, vec![bystander]);
    }
    assert_eq!(BaseCards::Mush5.ability(), Abilities::ToxicSpores);
    assert_eq!(BaseCards::Spid6.ability(), Abilities::Poisonous);
}

#[test]
fn gigantism_grows() {
    let bearer = card(BaseCards::Mush8, 1, 6, 5);
    let target = card(BaseCards::Mush1, 11, 5, 7);
    let mut own = player(0, 25, vec![target, bearer]);
    let mut other = player(1, 25, vec![target]);
    let events = resolve_effect(1, 0, &mut own, &mut other, false);
    assert_eq!(
        events,
        vec![
            applied(1, 0, Abilities::Gigantism, 1),
            CombatEvents::StatsChange { player_id: 0, card_id: 1, hp: 0, at: 1 },
        ]
    );
    assert_eq!(own.board, vec![target, Card { atk: 6, ..bearer }]);
    assert_eq!(other.board, vec![target]);
}

#[test]
fn gigantism_stops_at_the_top() {
    let bearer = card(BaseCards::Mush8, 1, 6, u16::MAX);
    let mut own = player(0, 25, vec![bearer]);
    let mut other = player(1, 25, vec![card(BaseCards::Mush1, 11, 5, 7)]);
    let events = resolve_effect(0, 0, &mut own, &mut other, false);
    assert_eq!(
        events,
        vec![
            applied(0, 0, Abilities::Gigantism, 1),
            CombatEvents::StatsChange { player_id: 0, card_id: 1, hp: 0, at: 0 },
        ]
    );
    assert_eq!(own.board, vec![bearer]);
}

#[test]
fn pillage_pays() {
    let bearer = card(BaseCards::Merch5, 1, 3, 5);
    let target = card(BaseCards::Mush1, 11, 5, 7);
    let mut own = player(4, 25, vec![bearer]);
    let mut other = player(5, 25, vec![target]);
    let events = resolve_effect(0, 0, &mut own, &mut other, false);
    assert_eq!(
        events,
        vec![
            applied(0, 4, Abilities::Pillage, 1),
            CombatEvents::GoldChange { player_id: 4, change: 1 },
        ]
    );
    assert_eq!(own.board, vec![bearer]);
    assert_eq!(other.board, vec![target]);
    assert_eq!(own.extra_coins, 0);
}

#[test]
fn glitch_takes_attack_or_hit_points() {
    let bearer = card(BaseCards::Rob5, 1, 2, 4);
    let target = card(BaseCards::Mush1, 11, 5, 7);

    let mut own = player(0, 25, vec![bearer]);
    let mut other = player(1, 25, vec![target]);
    let events = resolve_effect(0, 0, &mut own, &mut other, true);
    assert_eq!(
        events,
        vec![
            applied(0, 0, Abilities::Glitch, 1),
            CombatEvents::StatsChange { player_id: 1, card_id: 11, hp: 0, at: -2 },
        ]
    );
    assert_eq!(other.board, vec![Card { atk: 5, ..target }]);

    let mut other = player(1, 25, vec![target]);
    let events = resolve_effect(0, 0, &mut own, &mut other, false);
    assert_eq!(
        events,
        vec![
            applied(0, 0, Abilities::Glitch, 1),
            CombatEvents::StatsChange { player_id: 1, card_id: 11, hp: -2, at: 0 },
        ]
    );
    assert_eq!(other.board, vec![Card { hp: 3, ..target }]);
}

#[test]
fn glitch_stops_at_zero() {
    let bearer = card(BaseCards::Rob5, 1, 2, 4);
    let target = card(BaseCards::Mush1, 11, 1, 1);

    let mut own = player(0, 25, vec![bearer]);
    let mut other = player(1, 25, vec![target]);
    let events = resolve_effect(0, 0, &mut own, &mut other, true);
    assert_eq!(
        events,
        vec![
            applied(0, 0, Abilities::Glitch, 1),
            CombatEvents::StatsChange { player_id: 1, card_id: 11, hp: 0, at: -1 },
        ]
    );
    assert_eq!(other.board, vec![Card { atk: 0, ..target }]);

    let mut other = player(1, 25, vec![target]);
    let events = resolve_effect(0, 0, &mut own, &mut other, false);
    assert_eq!(
        events,
        vec![
            applied(0, 0, Abilities::Glitch, 1),
            CombatEvents::StatsChange { player_id: 1, card_id: 11, hp: -1, at: 0 },
            CombatEvents::Death { player_id: 1, card_id: 11 },
        ]
    );
    assert_eq!(other.board, vec![Card { hp: 0, ..target }]);
}

#[test]
fn abilities_without_effect_are_still_logged() {
    let all = [
        BaseCards::Mush1,
        BaseCards::Mush2,
        BaseCards::Mush4,
        BaseCards::Mush6,
        BaseCards::Mush7,
        BaseCards::Merch2,
        BaseCards::Merch6,
        BaseCards::Merch7,
        BaseCards::Merch8,
        BaseCards::Spid1,
        BaseCards::Spid5,
        BaseCards::Spid7,
        BaseCards::Spid8,
        BaseCards::Rob1,
        BaseCards::Rob3,
        BaseCards::Rob4,
        BaseCards::Rob7,
        BaseCards::Rob8,
    ];
    for bearer_type in all {
        let bearer = card(bearer_type, 1, 2, 4);
        let target = card(BaseCards::Mush1, 11, 5, 7);
        let mut own = player(0, 25, vec![bearer]);
        let mut other = player(1, 25, vec![target]);
        let events = resolve_effect(0, 0, &mut own, &mut other, true);
        assert_eq!(events, vec![applied(0, 0, bearer_type.ability(), 1)]);
        assert_eq!(own.board, vec![bearer]);
        assert_eq!(other.board, vec![target]);
    }
    assert_eq!(BaseCards::Merch2.ability(), Abilities::Sadism);
    assert_eq!(BaseCards::Spid5.ability(), Abilities::Multiplication);
}

#[test]
fn apply_effect_draws_for_glitch_alone() {
    let target = card(BaseCards::Mush1, 11, 5, 7);
    let mut atk_hits: u32 = 0;
    let mut hp_hits: u32 = 0;
    for seed in 0..64u64 {
        let mut rng = StdRng::seed_from_u64(seed);
        let mut own = player(0, 25, vec![card(BaseCards::Rob5, 1, 2, 4)]);
        let mut other = player(1, 25, vec![target]);
        let events = apply_effect(0, 0, &mut own, &mut other, &mut rng);
        assert_eq!(events.len(), 2);
        if other.board[0] == (Card { atk: 5, ..target }) {
            atk_hits += 1;
        } else {
            assert_eq!(other.board[0], Card { hp: 3, ..target });
            hp_hits += 1;
        }

        let mut rng = StdRng::seed_from_u64(seed);
        let mut fresh = StdRng::seed_from_u64(seed);
        let mut own = player(0, 25, vec![card(BaseCards::Spid3, 1, 2, 4)]);
        let mut other = player(1, 25, vec![target]);
        apply_effect(0, 0, &mut own, &mut other, &mut rng);
        assert_eq!(rng, fresh);
        assert_eq!(other.board[0], Card { atk: 3, ..target });
        let _ = &mut fresh;
    }
    assert!(atk_hits > 0);
    assert!(hp_hits > 0);
}

#[test]
fn killer_fires_before_victim() {
    // Gigantism fires on the kill, Toxic Spores on the death, in that order.
    let attacker = card(BaseCards::Mush8, 1, 6, 5);
    let defender = card(BaseCards::Mush5, 2, 2, 0);
    let mut att = player(0, 25, vec![attacker]);
    let mut def = player(1, 25, vec![defender]);
    let (events, replay) = resolve_attack(0, 0, &mut att, &mut def, false, false);
    assert_eq!(
        events,
        vec![
            strike(0, 0, 1, 0, 0),
            CombatEvents::Death { player_id: 1, card_id: 2 },
            applied(0, 0, Abilities::Gigantism, 1),
            CombatEvents::StatsChange { player_id: 0, card_id: 1, hp: 0, at: 1 },
            applied(0, 1, Abilities::ToxicSpores, 2),
            CombatEvents::Death { player_id: 0, card_id: 1 },
        ]
    );
    assert!(!replay);
    assert!(att.board.is_empty());
    assert!(def.board.is_empty());
}

#[test]
fn counter_killer_fires_before_victim() {
    // The defender's Pillage fires on its kill, then the attacker's armour
    // on its death.
    let attacker = card(BaseCards::Merch3, 1, 1, 1);
    let defender = card(BaseCards::Merch5, 2, 3, 5);
    let other = card(BaseCards::Mush1, 3, 1, 1);
    let mut att = player(0, 25, vec![attacker]);
    let mut def = player(1, 25, vec![other, defender]);
    let (events, _) = resolve_attack(0, 1, &mut att, &mut def, false, false);
    assert_eq!(
        events,
        vec![
            strike(0, 0, 1, 1, 2),
            strike(1, 1, 0, 0, 0),
            CombatEvents::Death { player_id: 0, card_id: 1 },
            applied(1, 1, Abilities::Pillage, 2),
            CombatEvents::GoldChange { player_id: 1, change: 1 },
            applied(0, 0, Abilities::ExplodingArmour, 1),
            CombatEvents::Death { player_id: 1, card_id: 3 },
            CombatEvents::StatsChange { player_id: 1, card_id: 2, hp: -1, at: 0 },
        ]
    );
    assert!(att.board.is_empty());
    assert_eq!(def.board, vec![Card { hp: 1, ..defender }]);
}

#[test]
fn survival_fires_attacker_then_hit_defender() {
    // Both live on: the attacker's Trap fires on the hit, then the
    // defender's Glitch, each with its own coin.
    let attacker = card(BaseCards::Spid3, 1, 20, 3);
    let defender = card(BaseCards::Rob5, 2, 20, 5);
    let mut att = player(0, 25, vec![attacker]);
    let mut def = player(1, 25, vec![defender]);
    let (events, _) = resolve_attack(0, 0, &mut att, &mut def, false, true);
    assert_eq!(
        events,
        vec![
            strike(0, 0, 1, 0, 17),
            strike(1, 0, 0, 0, 15),
            applied(0, 0, Abilities::Trap, 1),
            CombatEvents::StatsChange { player_id: 1, card_id: 2, hp: 0, at: -3 },
            applied(0, 1, Abilities::Glitch, 2),
            CombatEvents::StatsChange { player_id: 0, card_id: 1, hp: 0, at: -2 },
        ]
    );
    assert_eq!(att.board, vec![Card { hp: 15, atk: 1, ..attacker }]);
    assert_eq!(def.board, vec![Card { hp: 17, atk: 2, ..defender }]);
}

#[test]
fn survived_trigger_is_not_for_the_defender() {
    let attacker = card(BaseCards::Mush1, 1, 20, 1);
    let defender = card(BaseCards::Merch8, 2, 20, 1);
    let mut att = player(0, 25, vec![attacker]);
    let mut def = player(1, 25, vec![defender]);
    let (events, replay) = resolve_attack(0, 0, &mut att, &mut def, false, false);
    assert_eq!(events, vec![strike(0, 0, 1, 0, 19), strike(1, 0, 0, 0, 19)]);
    assert!(!replay);
}

#[test]
fn dexterity_grants_a_second_attack() {
    let attacker = card(BaseCards::Merch8, 1, 9, 5);
    let defender = card(BaseCards::Mush1, 2, 20, 1);
    let mut att = player(0, 25, vec![attacker]);
    let mut def = player(1, 25, vec![defender]);
    let (events, replay) = resolve_attack(0, 0, &mut att, &mut def, false, false);
    assert_eq!(
        events,
        vec![
            strike(0, 0, 1, 0, 15),
            strike(1, 0, 0, 0, 8),
            applied(0, 0, Abilities::Dexterity, 1),
        ]
    );
    assert!(replay);
}

#[test]
fn no_second_attack_on_an_empty_board() {
    let attacker = card(BaseCards::Merch8, 1, 9, 5);
    let defender = card(BaseCards::Mush1, 2, 3, 1);
    let mut att = player(0, 25, vec![attacker]);
    let mut def = player(1, 25, vec![defender]);
    let (_, replay) = resolve_attack(0, 0, &mut att, &mut def, false, false);
    assert!(!replay);
    assert!(def.board.is_empty());

    let mut def = player(1, 25, vec![defender, defender]);
    let (_, replay) = resolve_attack(0, 1, &mut att, &mut def, false, false);
    assert!(replay);
}

#[test]
fn no_second_attack_for_the_dead() {
    // The attacker outlives the counter but not the defender's poison.
    let attacker = card(BaseCards::Merch8, 1, 9, 1);
    let defender = card(BaseCards::Spid6, 2, 20, 1);
    let mut att = player(0, 25, vec![attacker]);
    let mut def = player(1, 25, vec![defender]);
    let (events, replay) = resolve_attack(0, 0, &mut att, &mut def, false, false);
    assert_eq!(
        events,
        vec![
            strike(0, 0, 1, 0, 19),
            strike(1, 0, 0, 0, 8),
            applied(0, 0, Abilities::Dexterity, 1),
            applied(0, 1, Abilities::Poisonous, 2),
            CombatEvents::Death { player_id: 0, card_id: 1 },
        ]
    );
    assert!(!replay);
    assert!(att.board.is_empty());
}

#[test]
fn turn_sends_the_card_that_attacked_least() {
    let mut first = card(BaseCards::Mush1, 1, 50, 1);
    first.played = 2;
    let mut second = card(BaseCards::Mush1, 2, 50, 2);
    second.played = 1;
    let mut third = card(BaseCards::Mush1, 3, 50, 3);
    third.played = 1;
    let mut own = player(0, 25, vec![first, second, third]);
    let mut other = player(1, 25, vec![card(BaseCards::Mush3, 9, 50, 1)]);
    let mut rng = StdRng::seed_from_u64(3);
    let events = play_turn(&mut own, &mut other, &mut rng);
    assert_eq!(events, vec![strike(0, 1, 1, 0, 48), strike(1, 0, 0, 1, 49)]);
    assert_eq!(own.board[1].played, 2);
    assert_eq!(own.board[0].played, 2);
    assert_eq!(own.board[2].played, 1);
    let events = play_turn(&mut own, &mut other, &mut rng);
    assert_eq!(events, vec![strike(0, 2, 1, 0, 45), strike(1, 0, 0, 2, 49)]);
}

#[test]
fn turn_plays_the_second_attack() {
    let attacker = card(BaseCards::Merch8, 1, 50, 5);
    let mut own = player(0, 25, vec![attacker]);
    let mut other = player(1, 25, vec![card(BaseCards::Mush3, 9, 50, 1)]);
    let mut rng = StdRng::seed_from_u64(3);
    let events = play_turn(&mut own, &mut other, &mut rng);
    assert_eq!(
        events,
        vec![
            strike(0, 0, 1, 0, 45),
            strike(1, 0, 0, 0, 49),
            applied(0, 0, Abilities::Dexterity, 1),
            strike(0, 0, 1, 0, 40),
            strike(1, 0, 0, 0, 48),
            applied(0, 0, Abilities::Dexterity, 1),
        ]
    );
    assert_eq!(own.board[0].played, 1);
}

#[test]
fn second_attack_finds_the_attacker_again() {
    // The attacker kills an armour bearer, whose death takes the card that
    // stood before the attacker off the board.
    let weak = card(BaseCards::Mush1, 1, 1, 1);
    let mut attacker = card(BaseCards::Merch8, 2, 50, 5);
    attacker.played = 0;
    let mut weak_played = weak;
    weak_played.played = 5;
    let bearer = card(BaseCards::Merch3, 8, 1, 1);
    let mut own = player(0, 25, vec![weak_played, attacker]);
    let mut other = player(1, 25, vec![bearer]);
    let (events, replay) = resolve_attack(1, 0, &mut own, &mut other, false, false);
    assert!(!replay);
    assert_eq!(own.board, vec![Card { hp: 49, ..attacker }]);
    assert_eq!(events.len(), 5);

    let mut own = player(0, 25, vec![weak_played, attacker]);
    let mut other = player(1, 25, vec![bearer, card(BaseCards::Mush3, 9, 100, 0)]);
    let mut rng = StdRng::seed_from_u64(11);
    let mut seen_shift = false;
    for _ in 0..40 {
        if own.board.len() < 2 || other.board.len() < 2 {
            break;
        }
        let before = own.board.len();
        play_turn(&mut own, &mut other, &mut rng);
        if own.board.len() < before {
            seen_shift = true;
            assert_eq!(own.board.len(), 1);
            assert_eq!(own.board[0].id, 2);
        }
        own.board[0].played = 5;
    }
    assert!(seen_shift);
}

#[test]
fn simulate_attack_picks_every_target() {
    let attacker = card(BaseCards::Mush1, 1, 50, 1);
    let mut seen = [false, false, false];
    for seed in 0..64u64 {
        let mut rng = StdRng::seed_from_u64(seed);
        let mut att = player(0, 25, vec![attacker]);
        let mut def = player(
            1,
            25,
            vec![
                card(BaseCards::Mush1, 10, 9, 0),
                card(BaseCards::Mush1, 11, 9, 0),
                card(BaseCards::Mush1, 12, 9, 0),
            ],
        );
        let (events, replay) = simulate_attack(0, &mut att, &mut def, &mut rng);
        assert!(!replay);
        assert_eq!(events.len(), 2);
        match events[0] {
            CombatEvents::Attack { att_id, att_card_index, def_id, def_card_index, def_hp } => {
                assert_eq!((att_id, att_card_index, def_id, def_hp), (0, 0, 1, 8));
                assert!(def_card_index < 3);
                seen[def_card_index as usize] = true;
                assert_eq!(def.board[def_card_index as usize].hp, 8);
            }
            _ => panic!("an attack opens with a strike"),
        }
    }
    assert_eq!(seen, [true, true, true]);
}

#[test]
fn simulate_attack_draws_a_coin_for_each_glitch() {
    let mut outcomes = [false, false, false, false];
    for seed in 0..64u64 {
        let mut rng = StdRng::seed_from_u64(seed);
        let mut att = player(0, 25, vec![card(BaseCards::Rob5, 1, 50, 4)]);
        let mut def = player(1, 25, vec![card(BaseCards::Rob5, 2, 50, 4)]);
        let (events, _) = simulate_attack(0, &mut att, &mut def, &mut rng);
        assert_eq!(events.len(), 6);
        let def_lost_atk = def.board[0].atk == 2;
        let att_lost_atk = att.board[0].atk == 2;
        assert!(def_lost_atk || def.board[0].hp == 44);
        assert!(att_lost_atk || att.board[0].hp == 44);
        let which = (if def_lost_atk { 1 } else { 0 }) + (if att_lost_atk { 2 } else { 0 });
        outcomes[which as usize] = true;
    }
    assert_eq!(outcomes, [true, true, true, true]);
}

#[test]
fn same_seed_same_fight() {
    for seed in 0..32u64 {
        let mut turn: u16 = 1;
        while turn <= 11 {
            let hb1 = player(0, 25, hand(HandsName::Mush, turn, 0));
            let hb2 = player(1, 25, hand(HandsName::Spiders, turn, 100));
            let mut once = StdRng::seed_from_u64(seed);
            let mut again = StdRng::seed_from_u64(seed);
            let first = simulate_combat(hb1.clone(), hb2.clone(), &mut once);
            let second = simulate_combat(hb1, hb2, &mut again);
            assert_eq!(first, second);
            assert_eq!(once, again);
            turn += 1;
        }
    }
}

fn hand(name: HandsName, turn: u16, first_id: u32) -> Vec<Card> {
    let mut cards: Vec<Card> = vec![];
    for (i, state) in name.hand_components(turn).iter().enumerate() {
        cards.push(Card {
            base_card: state.0,
            id: first_id + i as u32,
            hp: state.2,
            atk: state.1,
            played: 0,
        });
    }
    cards
}

fn every_card(first_id: u32, skip: usize) -> Vec<Card> {
    let all = [
        BaseCards::Mush1,
        BaseCards::Mush5,
        BaseCards::Mush8,
        BaseCards::Merch2,
        BaseCards::Merch3,
        BaseCards::Merch5,
        BaseCards::Merch8,
        BaseCards::Spid3,
        BaseCards::Spid5,
        BaseCards::Spid6,
        BaseCards::Rob5,
        BaseCards::Rob6,
    ];
    let mut cards: Vec<Card> = vec![];
    for (i, base_card) in all.iter().enumerate() {
        if i % 3 != skip {
            cards.push(Card::new(*base_card, first_id + i as u32));
        }
    }
    cards
}

#[test]
fn fights_wane_and_end() {
    for seed in 0..200u64 {
        let mut rng = StdRng::seed_from_u64(seed);
        let mut hb1 = player(0, 25, every_card(0, (seed % 3) as usize));
        let mut hb2 = player(1, 25, every_card(100, ((seed / 3) % 3) as usize));
        let before1 = hb1.clone();
        let before2 = hb2.clone();
        let events = fight(&mut hb1, &mut hb2, &mut rng);

        assert!(hb1.board.len() <= before1.board.len());
        assert!(hb2.board.len() <= before2.board.len());
        assert!(total_hp(&hb1.board) <= total_hp(&before1.board));
        assert!(total_hp(&hb2.board) <= total_hp(&before2.board));
        for card in hb1.board.iter().chain(hb2.board.iter()) {
            assert!(card.hp > 0);
        }
        assert_eq!((hb1.id, hb1.hp, hb1.coins), (before1.id, before1.hp, before1.coins));
        assert_eq!((hb2.id, hb2.hp, hb2.coins), (before2.id, before2.hp, before2.coins));

        assert!(deaths_follow_causes(&events));
        let mut verdicts: usize = 0;
        for (at, event) in events.iter().enumerate() {
            if let CombatEvents::PlayersAttack { att_id, change_def_hp } = event {
                verdicts += 1;
                assert_eq!(at, events.len() - 1);
                assert!(*change_def_hp <= 0);
                assert!(25 + *change_def_hp >= 0);
                if *att_id == 0 {
                    assert!(hb2.board.is_empty());
                } else {
                    assert!(hb1.board.is_empty());
                }
            }
        }
        assert!(verdicts <= 1);
        assert_eq!(verdicts == 1, hb1.board.is_empty() || hb2.board.is_empty());
    }
}

#[test]
fn armed_fights_are_short() {
    // No card without attack and none that lowers attack: every attack costs
    // a hit point, so there are no more strikes than twice the hit points.
    for seed in 0..100u64 {
        let mut turn: u16 = 1;
        while turn <= 11 {
            let mut board1 = hand(HandsName::Mush, turn, 0);
            board1.retain(|card| card.atk > 0);
            let mut board2 = vec![
                Card::new(BaseCards::Merch8, 100),
                Card::new(BaseCards::Merch3, 101),
                Card::new(BaseCards::Merch5, 102),
                Card::new(BaseCards::Spid6, 103),
            ];
            board2.truncate(1 + (seed % 4) as usize);
            let hp: u64 = total_hp(&board1) + total_hp(&board2);
            let mut rng = StdRng::seed_from_u64(seed);
            let mut hb1 = player(0, 25, board1);
            let mut hb2 = player(1, 25, board2);
            let events = fight(&mut hb1, &mut hb2, &mut rng);
            let mut strikes: u64 = 0;
            for event in &events {
                if let CombatEvents::Attack { .. } = event {
                    strikes += 1;
                }
            }
            assert!(strikes <= 2 * hp);
            assert!(hb1.board.is_empty() || hb2.board.is_empty());
            assert!(matches!(events.last(), Some(CombatEvents::PlayersAttack { .. })));
            turn += 1;
        }
    }
}

#[test]
fn harmless_cards_fight_until_out_of_moves() {
    // Neither card can hurt the other. Each is sent 255 times, and nobody
    // has lost.
    let mut rng = StdRng::seed_from_u64(5);
    let mut hb1 = player(0, 25, vec![card(BaseCards::Mush1, 1, 2, 0)]);
    let mut hb2 = player(1, 25, vec![card(BaseCards::Mush1, 2, 2, 0)]);
    let events = fight(&mut hb1, &mut hb2, &mut rng);
    assert_eq!(events.len(), 2 * 2 * 255);
    for event in &events {
        assert!(matches!(event, CombatEvents::Attack { def_hp: 2, .. }));
    }
    assert_eq!(hb1.board.len(), 1);
    assert_eq!(hb2.board.len(), 1);
    assert_eq!(hb1.board[0].played, u8::MAX);
    assert_eq!(hb2.board[0].played, u8::MAX);
}

#[test]
fn a_fight_to_the_end() {
    // One card each. The Goliath kills with one strike: at once where it
    // starts, with its counter where the Coprinus does.
    let mut started: [bool; 2] = [false, false];
    for seed in 0..32u64 {
        let mut rng = StdRng::seed_from_u64(seed);
        let mut hb1 = player(0, 25, vec![Card::new(BaseCards::Spid4, 1)]);
        let mut hb2 = player(1, 2, vec![Card::new(BaseCards::Mush1, 2)]);
        let events = fight(&mut hb1, &mut hb2, &mut rng);
        assert!(hb2.board.is_empty());
        assert_eq!(hb1.board.len(), 1);
        let verdict = CombatEvents::PlayersAttack { att_id: 0, change_def_hp: -2 };
        let death = CombatEvents::Death { player_id: 1, card_id: 2 };
        if events.len() == 3 {
            started[0] = true;
            assert_eq!(events, vec![strike(0, 0, 1, 0, 0), death, verdict]);
            assert_eq!(hb1.board[0].hp, 3);
            assert_eq!(hb1.board[0].played, 1);
        } else {
            started[1] = true;
            assert_eq!(events, vec![strike(1, 0, 0, 0, 2), strike(0, 0, 1, 0, 0), death, verdict]);
            assert_eq!(hb1.board[0].hp, 2);
            assert_eq!(hb1.board[0].played, 0);
        }
    }
    assert_eq!(started, [true, true]);
}

#[test]
fn number_of_cards() {
    assert_eq!(get_number_of_cards(&player(0, 25, vec![])), 0);
    assert_eq!(get_number_of_cards(&player(0, 25, every_card(0, 0))), 8);
}
