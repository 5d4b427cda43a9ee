use rand::rngs::StdRng;
use rand::SeedableRng;
use unbalanced_brawl::card::{BaseCards, Card};
use unbalanced_brawl::player::{GlobalData, PlayerData};
use unbalanced_brawl::predefined_hands::{CardState, ChosenHand, HandsName};
use unbalanced_brawl::shop_manager::ShopManager;
use unbalanced_brawl::shop_rules::{ShopRules, ShopValues};

#[test]
fn shop_sizes() {
    assert_eq!(ShopManager::cards_amount(1), 3);
    assert_eq!(ShopManager::cards_amount(2), 4);
    assert_eq!(ShopManager::cards_amount(3), 5);
    assert_eq!(ShopManager::cards_amount(4), 6);
    assert_eq!(ShopManager::cards_amount(0), 6);
    assert_eq!(ShopManager::cards_amount(u16::MAX), 6);
}

#[test]
fn shelves() {
    assert_eq!(ShopManager::level1(0), BaseCards::Merch1);
    assert_eq!(ShopManager::level1(3), BaseCards::Mush2);
    assert_eq!(ShopManager::level1(7), BaseCards::Spid2);
    assert_eq!(ShopManager::level1(99), BaseCards::Spid2);
    assert_eq!(ShopManager::level2(4), BaseCards::Rob3);
    assert_eq!(ShopManager::level3(2), BaseCards::Mush5);
    assert_eq!(ShopManager::level4(1), BaseCards::Merch8);
    let mut roll: i32 = 0;
    while roll < 8 {
        assert_eq!(ShopManager::level1(roll).rank(), 1);
        assert_eq!(ShopManager::level2(roll).rank(), 2);
        assert_eq!(ShopManager::level3(roll).rank(), 3);
        assert_eq!(ShopManager::level4(roll).rank(), 4);
        roll += 1;
    }
}

#[test]
fn shelf_of_a_roll() {
    assert_eq!(ShopManager::shelf_of(1, 0), 1);
    assert_eq!(ShopManager::shelf_of(2, 0), 1);
    assert_eq!(ShopManager::shelf_of(2, 1), 2);
    assert_eq!(ShopManager::shelf_of(3, 0), 1);
    assert_eq!(ShopManager::shelf_of(3, 2), 2);
    assert_eq!(ShopManager::shelf_of(3, 3), 3);
    assert_eq!(ShopManager::shelf_of(4, 1), 1);
    assert_eq!(ShopManager::shelf_of(4, 4), 2);
    assert_eq!(ShopManager::shelf_of(4, 8), 3);
    assert_eq!(ShopManager::shelf_of(4, 9), 4);
    assert_eq!(ShopManager::shelf_of(9, 10), 4);
}

#[test]
fn draws_come_from_their_shelf() {
    let mut rng = StdRng::seed_from_u64(7);
    let mut seen: Vec<BaseCards> = vec![];
    for _ in 0..300 {
        assert_eq!(ShopManager::draw_level1(&mut rng).rank(), 1);
        assert_eq!(ShopManager::draw_level2(&mut rng).rank(), 2);
        assert_eq!(ShopManager::draw_level3(&mut rng).rank(), 3);
        let card = ShopManager::draw_level4(&mut rng);
        assert_eq!(card.rank(), 4);
        if !seen.contains(&card) {
            seen.push(card);
        }
    }
    assert_eq!(seen.len(), 8);
}

#[test]
fn inventories() {
    let mut rng = StdRng::seed_from_u64(9);
    let mut level: u16 = 1;
    while level <= 5 {
        let mut highest: u8 = 0;
        let mut lowest: u8 = 9;
        for _ in 0..200 {
            let cards = ShopManager::shop_inventory(level, &mut rng);
            assert_eq!(cards.len(), ShopManager::cards_amount(level) as usize);
            for card in cards {
                highest = highest.max(card.rank());
                lowest = lowest.min(card.rank());
            }
        }
        assert_eq!(lowest, 1);
        assert_eq!(highest as u16, level.min(4));
        level += 1;
    }
}

#[test]
fn rules_by_roll() {
    let expected = [
        ShopRules::NoRule,
        ShopRules::BuyPlus,
        ShopRules::BuyPlus,
        ShopRules::BuyMinus,
        ShopRules::SellPlus,
        ShopRules::SellMinus,
        ShopRules::SellMinus,
        ShopRules::RefreshPlus,
        ShopRules::RefreshPlus,
        ShopRules::RefreshMinus,
        ShopRules::RefreshInf,
        ShopRules::RefreshInf,
        ShopRules::FreezePlus,
        ShopRules::FreezePlus,
        ShopRules::FreezeInf,
        ShopRules::FreezeInf,
        ShopRules::TimerPlus,
        ShopRules::TimerMinus,
        ShopRules::TimerMinus,
        ShopRules::NoRule,
        ShopRules::NoRule,
        ShopRules::NoRule,
        ShopRules::NoRule,
    ];
    for (roll, rule) in expected.iter().enumerate() {
        assert_eq!(ShopRules::from_roll(roll as i32), *rule);
    }
    assert_eq!(ShopRules::from_roll(23), ShopRules::NoRule);
    assert_eq!(ShopRules::from_roll(-1), ShopRules::NoRule);
}

#[test]
fn mild_rolls_skip_the_price_rise() {
    assert_eq!(ShopRules::mild_roll(0), 0);
    assert_eq!(ShopRules::mild_roll(1), 3);
    assert_eq!(ShopRules::mild_roll(20), 22);
    let mut roll: i32 = 0;
    while roll < 21 {
        assert_ne!(ShopRules::from_roll(ShopRules::mild_roll(roll)), ShopRules::BuyPlus);
        roll += 1;
    }
}

#[test]
fn rules_edit_values() {
    let base = ShopValues::default();
    assert_eq!(
        base,
        ShopValues { buy: 3, sell: -1, refresh: 1, freeze: 0, gold_limit: 10, timer: 40 }
    );
    let cases = [
        (ShopRules::BuyPlus, ShopValues { buy: 4, ..base }),
        (ShopRules::BuyMinus, ShopValues { buy: 2, ..base }),
        (ShopRules::SellPlus, ShopValues { sell: -2, ..base }),
        (ShopRules::SellMinus, ShopValues { sell: 0, ..base }),
        (ShopRules::RefreshPlus, ShopValues { refresh: 2, ..base }),
        (ShopRules::RefreshMinus, ShopValues { refresh: 0, ..base }),
        (ShopRules::RefreshInf, ShopValues { refresh: 99, ..base }),
        (ShopRules::FreezePlus, ShopValues { freeze: 1, ..base }),
        (ShopRules::FreezeInf, ShopValues { refresh: 99, ..base }),
        (ShopRules::TimerPlus, ShopValues { timer: 55, ..base }),
        (ShopRules::TimerMinus, ShopValues { timer: 25, ..base }),
        (ShopRules::NoRule, base),
    ];
    for (rule, expected) in cases {
        let mut values = base;
        rule.edit_values(&mut values);
        assert_eq!(values, expected);
    }
}

#[test]
fn rule_notes() {
    assert_eq!(
        ShopRules::NoRule.description(),
        "\"Enjoy your time in the shop!\"\n\n(No effect this turn.)"
    );
    assert_eq!(
        ShopRules::BuyPlus.description(),
        "\"I have less cards lately...\nI had to increase prices!\"\n\n(Cards cost 4 coins this turn.)"
    );
    assert!(ShopRules::TimerMinus.description().ends_with("(The timer lasts 25s this turn.)"));
    assert!(ShopRules::FreezeInf.description().ends_with("(Can't freeze cards this turn.)"));
}

#[test]
fn random_rules() {
    let mut rng = StdRng::seed_from_u64(3);
    let mut raised = false;
    let mut notes: Vec<&'static str> = vec![];
    for _ in 0..600 {
        let mut values = ShopValues::default();
        let note = ShopRules::random(&mut values, 1, &mut rng);
        assert!(values.buy <= 3);
        assert_ne!(note, ShopRules::BuyPlus.description());

        let mut values = ShopValues::default();
        let note = ShopRules::random(&mut values, 2, &mut rng);
        if values.buy == 4 {
            raised = true;
            assert_eq!(note, ShopRules::BuyPlus.description());
        }
        if !notes.contains(&note) {
            notes.push(note);
        }
    }
    assert!(raised);
    assert_eq!(notes.len(), 12);
}

#[test]
fn sampled_rules() {
    let mut rng = StdRng::seed_from_u64(4);
    let mut seen: Vec<ShopRules> = vec![];
    for _ in 0..600 {
        let rule = ShopRules::sample(&mut rng);
        if !seen.contains(&rule) {
            seen.push(rule);
        }
    }
    assert_eq!(seen.len(), 12);
}

#[test]
fn ready_made_boards() {
    assert_eq!(HandsName::Mush.hand_components(1), vec![CardState(BaseCards::Mush2, 1, 1)]);
    assert_eq!(
        HandsName::Mush.hand_components(4),
        vec![
            CardState(BaseCards::Mush2, 2, 5),
            CardState(BaseCards::Mush4, 1, 1),
            CardState(BaseCards::Mush2, 2, 3),
        ]
    );
    assert_eq!(HandsName::Mush.hand_components(10), HandsName::Mush.hand_components(0));
    assert_eq!(HandsName::Mush.hand_components(10).len(), 7);
    assert_eq!(HandsName::Mush.hand_components(10)[1], CardState(BaseCards::Mush8, 6, 7));
    assert_eq!(
        HandsName::Spiders.hand_components(2),
        vec![CardState(BaseCards::Spid2, 2, 2), CardState(BaseCards::Spid1, 2, 2)]
    );
    assert_eq!(HandsName::Spiders.hand_components(10).len(), 6);
    assert_eq!(HandsName::Spiders.hand_components(11).len(), 7);
    assert_eq!(HandsName::Spiders.hand_components(11)[6], CardState(BaseCards::Spid1, 2, 7));
    let mut turn: u16 = 0;
    while turn < 20 {
        for name in [HandsName::Mush, HandsName::Spiders] {
            let cards = name.hand_components(turn);
            assert!(!cards.is_empty() && cards.len() <= 7);
        }
        turn += 1;
    }
}

#[test]
fn hands_get_fresh_identifiers() {
    let mut data = GlobalData::new(StdRng::seed_from_u64(1));
    assert_eq!((data.turn, data.next_card_id), (0, 0));
    data.turn = 4;
    data.next_card_id = 40;
    let rng = data.rng.clone();
    let cards = HandsName::Spiders.hand(&mut data);
    assert_eq!(
        cards,
        vec![
            Card { base_card: BaseCards::Spid3, id: 40, hp: 2, atk: 3, played: 0 },
            Card { base_card: BaseCards::Spid2, id: 41, hp: 2, atk: 2, played: 0 },
            Card { base_card: BaseCards::Spid1, id: 42, hp: 1, atk: 2, played: 0 },
        ]
    );
    assert_eq!(data.next_card_id, 43);
    assert_eq!(data.turn, 4);
    assert_eq!(data.rng, rng);
    let more = HandsName::Mush.hand(&mut data);
    assert_eq!(more[0].id, 43);
    assert_eq!(data.next_card_id, 46);
}

#[test]
fn opponents() {
    assert_eq!(HandsName::pick(0), HandsName::Mush);
    assert_eq!(HandsName::pick(1), HandsName::Spiders);
    assert_eq!(HandsName::pick(2), HandsName::Mush);
    let mut rng = StdRng::seed_from_u64(8);
    let mut mush: u32 = 0;
    let mut spiders: u32 = 0;
    for _ in 0..100 {
        match HandsName::sample(&mut rng) {
            HandsName::Mush => mush += 1,
            HandsName::Spiders => spiders += 1,
        }
    }
    assert!(mush > 0 && spiders > 0);
    let chosen = ChosenHand(HandsName::Spiders);
    assert_eq!(chosen.0, HandsName::Spiders);
}

#[test]
fn default_player() {
    let player = PlayerData::default();
    assert_eq!(player.id, 0);
    assert_eq!(player.name, "YOU");
    assert!(player.hand.is_empty());
    assert!(player.board.is_empty());
    assert_eq!(player.coins, 3);
    assert_eq!(player.extra_coins, 0);
    assert_eq!(player.hp, 25);
    assert_eq!(player.shop_level, 1);
    assert_eq!(player.ia, HandsName::Mush);
}
