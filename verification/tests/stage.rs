use rand::rngs::StdRng;
use rand::SeedableRng;
use unbalanced_brawl::battle::{fight, simulate_combat};
use unbalanced_brawl::card::{BaseCards, Card};
use unbalanced_brawl::events::CombatEvents;
use unbalanced_brawl::follow::shift_stat;
use unbalanced_brawl::player::PlayerData;
use unbalanced_brawl::predefined_hands::HandsName;
use unbalanced_brawl::stage::{
    after_fight, attack_path, first_free, other_player, removed_before, shifted, side_of,
    to_base_height, to_fighting_height, to_owner, FightPlayers, FightSlot, FightSlotHeight, Won,
};

fn on_a_board(id: u16, hp: u16, board: Vec<Card>) -> PlayerData {
    PlayerData { id, hp, board, ..PlayerData::default() }
}

fn seen(card: &Card) -> (BaseCards, u32, u16, u16) {
    (card.base_card, card.id, card.hp, card.atk)
}

#[test]
fn rows_and_owners() {
    assert_eq!(to_base_height(FightPlayers::MySelf), FightSlotHeight::MySelf);
    assert_eq!(to_base_height(FightPlayers::MyFoe), FightSlotHeight::MyFoe);
    assert_eq!(to_fighting_height(FightPlayers::MySelf), FightSlotHeight::FightingMyFoe);
    assert_eq!(to_fighting_height(FightPlayers::MyFoe), FightSlotHeight::FightingMySelf);
    assert_eq!(to_owner(FightSlotHeight::FightingMySelf), FightPlayers::MyFoe);
    assert_eq!(to_owner(FightSlotHeight::FightingMyFoe), FightPlayers::MySelf);
    for side in [FightPlayers::MySelf, FightPlayers::MyFoe] {
        assert_eq!(to_owner(to_base_height(side)), side);
        assert_eq!(to_owner(to_fighting_height(side)), side);
        assert_eq!(other_player(other_player(side)), side);
        assert_ne!(other_player(side), side);
    }
    assert_eq!(side_of(4, 4), FightPlayers::MySelf);
    assert_eq!(side_of(5, 4), FightPlayers::MyFoe);
}

#[test]
fn way_of_a_strike() {
    assert_eq!(
        attack_path(FightPlayers::MySelf, 2, 5),
        (
            FightSlot { who: FightSlotHeight::MySelf, index: 2 },
            FightSlot { who: FightSlotHeight::FightingMyFoe, index: 5 },
        )
    );
    assert_eq!(
        attack_path(FightPlayers::MyFoe, 0, 1),
        (
            FightSlot { who: FightSlotHeight::MyFoe, index: 0 },
            FightSlot { who: FightSlotHeight::FightingMySelf, index: 1 },
        )
    );
}

#[test]
fn first_free_place() {
    assert_eq!(first_free(&vec![]), 0);
    assert_eq!(first_free(&vec![1, 2, 3]), 0);
    assert_eq!(first_free(&vec![0, 1, 2]), 3);
    assert_eq!(first_free(&vec![2, 0, 0, 4, 1]), 3);
    let mut all: Vec<u8> = vec![];
    let mut place: u8 = 0;
    while place < 255 {
        all.push(254 - place);
        place += 1;
    }
    assert_eq!(first_free(&all), 255);
}

#[test]
fn closing_up() {
    let removed = vec![
        FightSlot { who: FightSlotHeight::MySelf, index: 1 },
        FightSlot { who: FightSlotHeight::MyFoe, index: 0 },
        FightSlot { who: FightSlotHeight::MySelf, index: 3 },
    ];
    let mine = |index: u8| FightSlot { who: FightSlotHeight::MySelf, index };
    assert_eq!(removed_before(mine(0), &removed), 0);
    assert_eq!(removed_before(mine(1), &removed), 0);
    assert_eq!(removed_before(mine(2), &removed), 1);
    assert_eq!(removed_before(mine(4), &removed), 2);
    assert_eq!(shifted(mine(0), &removed), mine(0));
    assert_eq!(shifted(mine(2), &removed), mine(1));
    assert_eq!(shifted(mine(4), &removed), mine(2));
    let foes = FightSlot { who: FightSlotHeight::MyFoe, index: 6 };
    assert_eq!(shifted(foes, &removed), FightSlot { who: FightSlotHeight::MyFoe, index: 5 });
    let fighting = FightSlot { who: FightSlotHeight::FightingMyFoe, index: 6 };
    assert_eq!(shifted(fighting, &removed), fighting);
}

#[test]
fn what_follows_a_fight() {
    assert_eq!(after_fight(10, &vec![5]), None);
    assert_eq!(after_fight(10, &vec![0, 5]), None);
    assert_eq!(after_fight(0, &vec![5]), Some(Won(false)));
    assert_eq!(after_fight(10, &vec![0]), Some(Won(true)));
    assert_eq!(after_fight(10, &vec![0, 0]), Some(Won(true)));
    assert_eq!(after_fight(0, &vec![0]), Some(Won(true)));
    assert_eq!(after_fight(10, &vec![]), Some(Won(true)));
}

#[test]
fn stats_stay_in_range() {
    assert_eq!(shift_stat(5, -2), 3);
    assert_eq!(shift_stat(5, -5), 0);
    assert_eq!(shift_stat(5, -6), 0);
    assert_eq!(shift_stat(5, i32::MIN), 0);
    assert_eq!(shift_stat(5, 7), 12);
    assert_eq!(shift_stat(65530, 5), 65535);
    assert_eq!(shift_stat(65530, 6), 65535);
    assert_eq!(shift_stat(u16::MAX, i32::MAX), 65535);
}

#[test]
fn following_entries() {
    let one = Card { base_card: BaseCards::Mush1, id: 1, hp: 3, atk: 1, played: 0 };
    let two = Card { base_card: BaseCards::Mush3, id: 2, hp: 5, atk: 2, played: 0 };
    let mut me = on_a_board(0, 25, vec![one, two]);

    me.follow(&CombatEvents::Attack {
        att_id: 1,
        att_card_index: 0,
        def_id: 0,
        def_card_index: 1,
        def_hp: 4,
    });
    assert_eq!(me.board, vec![one, Card { hp: 4, ..two }]);
    // A strike at the other player's board, or past the end of mine.
    me.follow(&CombatEvents::Attack {
        att_id: 0,
        att_card_index: 0,
        def_id: 1,
        def_card_index: 0,
        def_hp: 0,
    });
    me.follow(&CombatEvents::Attack {
        att_id: 1,
        att_card_index: 0,
        def_id: 0,
        def_card_index: 2,
        def_hp: 0,
    });
    assert_eq!(me.board, vec![one, Card { hp: 4, ..two }]);

    me.follow(&CombatEvents::StatsChange { player_id: 0, card_id: 1, hp: -1, at: 3 });
    me.follow(&CombatEvents::StatsChange { player_id: 1, card_id: 2, hp: -1, at: 3 });
    assert_eq!(me.board, vec![Card { hp: 2, atk: 4, ..one }, Card { hp: 4, ..two }]);

    me.follow(&CombatEvents::Death { player_id: 1, card_id: 1 });
    assert_eq!(me.board.len(), 2);
    me.follow(&CombatEvents::Death { player_id: 0, card_id: 1 });
    assert_eq!(me.board, vec![Card { hp: 4, ..two }]);
    me.follow(&CombatEvents::Death { player_id: 0, card_id: 1 });
    assert_eq!(me.board, vec![Card { hp: 4, ..two }]);

    me.follow(&CombatEvents::GoldChange { player_id: 0, change: 1 });
    me.follow(&CombatEvents::GoldChange { player_id: 1, change: 1 });
    assert_eq!(me.extra_coins, 1);

    me.follow(&CombatEvents::PlayersAttack { att_id: 0, change_def_hp: -6 });
    assert_eq!(me.hp, 25);
    me.follow(&CombatEvents::PlayersAttack { att_id: 1, change_def_hp: -6 });
    assert_eq!(me.hp, 19);
    assert_eq!((me.id, me.coins, me.shop_level), (0, 3, 1));
}

#[test]
fn the_log_tells_the_whole_fight() {
    // A reader who knows the boards before the fight and follows the log
    // knows the boards after it.
    let all = [
        BaseCards::Mush1,
        BaseCards::Mush5,
        BaseCards::Mush8,
        BaseCards::Merch2,
        BaseCards::Merch3,
        BaseCards::Merch5,
        BaseCards::Merch8,
        BaseCards::Spid3,
        BaseCards::Spid5,
        BaseCards::Spid6,
        BaseCards::Rob5,
        BaseCards::Rob6,
    ];
    for seed in 0..300u64 {
        let mut board1: Vec<Card> = vec![];
        let mut board2: Vec<Card> = vec![];
        for (i, base_card) in all.iter().enumerate() {
            if (seed as usize + i) % 3 != 0 {
                board1.push(Card::new(*base_card, i as u32));
            }
            if (seed as usize / 3 + i) % 4 != 1 {
                board2.push(Card::new(*base_card, 100 + i as u32));
            }
        }
        let mut hb1 = on_a_board(0, 25, board1);
        let mut hb2 = on_a_board(1, 5, board2);
        let mut reader1 = hb1.clone();
        let mut reader2 = hb2.clone();
        let mut rng = StdRng::seed_from_u64(seed);
        let events = fight(&mut hb1, &mut hb2, &mut rng);
        let mut again = StdRng::seed_from_u64(seed);
        assert_eq!(simulate_combat(reader1.clone(), reader2.clone(), &mut again), events);
        for event in &events {
            // No entry takes from a card more than the card has.
            if let CombatEvents::StatsChange { player_id, card_id, hp, at } = event {
                let board = if *player_id == 0 { &reader1.board } else { &reader2.board };
                for card in board {
                    if card.id == *card_id {
                        assert!(card.hp as i32 + *hp >= 0);
                        assert!(card.atk as i32 + *at >= 0);
                    }
                }
            }
            reader1.follow(event);
            reader2.follow(event);
        }
        let mut all_at_once = on_a_board(0, 25, vec![]);
        all_at_once.follow_all(&events);
        assert!(all_at_once.board.is_empty());

        let left1: Vec<(BaseCards, u32, u16, u16)> = hb1.board.iter().map(seen).collect();
        let left2: Vec<(BaseCards, u32, u16, u16)> = hb2.board.iter().map(seen).collect();
        let read1: Vec<(BaseCards, u32, u16, u16)> = reader1.board.iter().map(seen).collect();
        let read2: Vec<(BaseCards, u32, u16, u16)> = reader2.board.iter().map(seen).collect();
        assert_eq!(left1, read1);
        assert_eq!(left2, read2);

        let mut gold1: u16 = 0;
        let mut gold2: u16 = 0;
        for event in &events {
            if let CombatEvents::GoldChange { player_id, change } = event {
                assert_eq!(*change, 1);
                if *player_id == 0 {
                    gold1 += 1;
                } else {
                    gold2 += 1;
                }
            }
        }
        assert_eq!(reader1.extra_coins, gold1);
        assert_eq!(reader2.extra_coins, gold2);
        match events.last() {
            Some(CombatEvents::PlayersAttack { att_id: 0, change_def_hp }) => {
                assert_eq!(reader1.hp, 25);
                assert_eq!(reader2.hp as i32, 5 + *change_def_hp);
            }
            Some(CombatEvents::PlayersAttack { att_id: _, change_def_hp }) => {
                assert_eq!(reader1.hp as i32, 25 + *change_def_hp);
                assert_eq!(reader2.hp, 5);
            }
            _ => {
                assert_eq!((reader1.hp, reader2.hp), (25, 5));
            }
        }
        assert_eq!(reader1.ia, HandsName::Mush);
    }
}
