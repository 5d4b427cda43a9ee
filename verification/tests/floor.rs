use rand::rngs::StdRng;
use rand::SeedableRng;
use unbalanced_brawl::card::{Abilities, BaseCards, Card, Families, Triggers};
use unbalanced_brawl::shop::{
    can_hover, fires_when_dropped, free_slot, legal_move, price, row_cards, taken, turn_abilities,
    turn_coins, update_coins, upgrade_cost, CoinsDiff, Placed, ShopSlot, ShopSlots,
};
use unbalanced_brawl::util::{lowered, raised};
use unbalanced_brawl::shop_abilities::{
    add_newcomer, allies, board_size, buffed, find_prey, on_board, played_trigger, sold_trigger,
    turn_cards, turn_trigger,
};

const ROWS: [ShopSlots; 4] = [ShopSlots::Shop, ShopSlots::Board, ShopSlots::Hand, ShopSlots::Sell];

fn put(base_card: BaseCards, id: u32, row: ShopSlots, slot: u8) -> Placed {
    Placed { card: Card::new(base_card, id), slot: ShopSlot { row, id: slot } }
}

fn with_stats(placed: Placed, hp: u16, atk: u16) -> Placed {
    Placed { card: Card { hp, atk, ..placed.card }, ..placed }
}

#[test]
fn gold_of_a_turn() {
    assert_eq!(turn_coins(0, 10, 0), 3);
    assert_eq!(turn_coins(1, 10, 0), 3);
    assert_eq!(turn_coins(2, 10, 0), 4);
    assert_eq!(turn_coins(7, 10, 0), 9);
    assert_eq!(turn_coins(8, 10, 0), 10);
    assert_eq!(turn_coins(9, 10, 0), 10);
    assert_eq!(turn_coins(200, 10, 2), 12);
    assert_eq!(turn_coins(5, 2, 1), 4);
    assert_eq!(turn_coins(u16::MAX, 10, 0), 10);
    assert_eq!(turn_coins(u16::MAX - 2, u16::MAX, 0), u16::MAX);
}

#[test]
fn abilities_of_a_turn() {
    let board = vec![
        Card::new(BaseCards::Mush2, 1),
        Card::new(BaseCards::Mush1, 2),
        Card::new(BaseCards::Merch8, 3),
        Card::new(BaseCards::Merch6, 4),
        Card::new(BaseCards::Rob8, 5),
    ];
    assert_eq!(
        turn_abilities(&board),
        vec![(Abilities::Slimy, 1), (Abilities::GoldMine, 4), (Abilities::Download, 5)]
    );
    assert!(turn_abilities(&vec![]).is_empty());
}

#[test]
fn where_a_card_may_go() {
    let yes = [
        (ShopSlots::Shop, ShopSlots::Hand),
        (ShopSlots::Shop, ShopSlots::Board),
        (ShopSlots::Board, ShopSlots::Board),
        (ShopSlots::Board, ShopSlots::Sell),
        (ShopSlots::Hand, ShopSlots::Board),
        (ShopSlots::Hand, ShopSlots::Hand),
        (ShopSlots::Hand, ShopSlots::Sell),
    ];
    for origin in ROWS {
        for hovered in ROWS {
            assert_eq!(can_hover(origin, hovered), yes.contains(&(origin, hovered)));
            for is_taken in [false, true] {
                if legal_move(origin, hovered, is_taken, 50, 3) {
                    assert!(can_hover(origin, hovered));
                }
            }
        }
    }
}

#[test]
fn legal_moves() {
    // From the hand.
    assert!(legal_move(ShopSlots::Hand, ShopSlots::Hand, true, 0, 3));
    assert!(legal_move(ShopSlots::Hand, ShopSlots::Sell, false, 0, 3));
    assert!(legal_move(ShopSlots::Hand, ShopSlots::Board, false, 0, 3));
    assert!(!legal_move(ShopSlots::Hand, ShopSlots::Board, true, 0, 3));
    assert!(!legal_move(ShopSlots::Hand, ShopSlots::Shop, false, 9, 3));
    // From the board.
    assert!(legal_move(ShopSlots::Board, ShopSlots::Board, true, 0, 3));
    assert!(legal_move(ShopSlots::Board, ShopSlots::Sell, false, 0, 3));
    assert!(!legal_move(ShopSlots::Board, ShopSlots::Hand, false, 9, 3));
    // From the shelf.
    assert!(legal_move(ShopSlots::Shop, ShopSlots::Hand, false, 3, 3));
    assert!(legal_move(ShopSlots::Shop, ShopSlots::Board, false, 4, 3));
    assert!(!legal_move(ShopSlots::Shop, ShopSlots::Board, false, 2, 3));
    assert!(!legal_move(ShopSlots::Shop, ShopSlots::Board, true, 9, 3));
    assert!(!legal_move(ShopSlots::Shop, ShopSlots::Sell, false, 9, 3));
    assert!(!legal_move(ShopSlots::Shop, ShopSlots::Hand, false, 9, -1));
    assert!(legal_move(ShopSlots::Shop, ShopSlots::Hand, false, u16::MAX, -1));
    // From the counter.
    for destination in ROWS {
        assert!(!legal_move(ShopSlots::Sell, destination, false, 9, 0));
    }
    assert_eq!(price(3), 3);
    assert_eq!(price(0), 0);
    assert_eq!(price(-1), 65535);
    assert_eq!(price(i8::MIN), 65408);
}

#[test]
fn played_on_the_board() {
    for origin in ROWS {
        for destination in ROWS {
            assert_eq!(
                fires_when_dropped(Triggers::Played, origin, destination),
                origin != ShopSlots::Board && destination == ShopSlots::Board
            );
            assert!(!fires_when_dropped(Triggers::Turn, origin, destination));
            assert!(!fires_when_dropped(Triggers::NoTrigger, origin, destination));
        }
    }
}

#[test]
fn payments() {
    assert_eq!(update_coins(5, 10, CoinsDiff(3, false)), (2, false));
    assert_eq!(update_coins(5, 10, CoinsDiff(5, false)), (0, false));
    assert_eq!(update_coins(5, 10, CoinsDiff(0, false)), (5, false));
    assert_eq!(update_coins(5, 10, CoinsDiff(-1, false)), (6, false));
    assert_eq!(update_coins(9, 10, CoinsDiff(-1, false)), (10, false));
    assert_eq!(update_coins(10, 10, CoinsDiff(-1, false)), (10, true));
    assert_eq!(update_coins(9, 10, CoinsDiff(-2, false)), (10, true));
    assert_eq!(update_coins(12, 10, CoinsDiff(-2, false)), (12, true));
    assert_eq!(update_coins(10, 10, CoinsDiff(-1, true)), (11, false));
    assert_eq!(update_coins(12, 10, CoinsDiff(2, false)), (10, false));
    assert_eq!(update_coins(0, 0, CoinsDiff(i8::MIN, true)), (128, false));
}

#[test]
fn upgrades() {
    assert_eq!(upgrade_cost(1), Some(4));
    assert_eq!(upgrade_cost(2), Some(6));
    assert_eq!(upgrade_cost(3), Some(8));
    assert_eq!(upgrade_cost(4), None);
    assert_eq!(upgrade_cost(0), None);
}

#[test]
fn free_places() {
    let floor = vec![
        put(BaseCards::Mush1, 1, ShopSlots::Board, 0),
        put(BaseCards::Mush1, 2, ShopSlots::Board, 2),
        put(BaseCards::Mush1, 3, ShopSlots::Hand, 1),
        put(BaseCards::Mush1, 4, ShopSlots::Board, 1),
    ];
    assert!(taken(&floor, ShopSlot { row: ShopSlots::Board, id: 2 }));
    assert!(!taken(&floor, ShopSlot { row: ShopSlots::Board, id: 3 }));
    assert!(!taken(&floor, ShopSlot { row: ShopSlots::Shop, id: 0 }));
    assert_eq!(free_slot(&floor, ShopSlots::Board, 7), Some(3));
    assert_eq!(free_slot(&floor, ShopSlots::Board, 3), None);
    assert_eq!(free_slot(&floor, ShopSlots::Hand, 5), Some(0));
    assert_eq!(free_slot(&floor, ShopSlots::Shop, 0), None);
    assert_eq!(board_size(&floor), 3);
    assert_eq!(on_board(&floor), vec![0, 1, 3]);
}

#[test]
fn cards_in_the_order_of_their_places() {
    let floor = vec![
        put(BaseCards::Mush1, 1, ShopSlots::Board, 4),
        put(BaseCards::Mush2, 2, ShopSlots::Hand, 0),
        put(BaseCards::Mush3, 3, ShopSlots::Board, 0),
        put(BaseCards::Mush4, 4, ShopSlots::Shop, 1),
        put(BaseCards::Mush5, 5, ShopSlots::Board, 255),
        put(BaseCards::Mush6, 6, ShopSlots::Board, 4),
    ];
    let ids = |cards: Vec<Card>| -> Vec<u32> { cards.iter().map(|card| card.id).collect() };
    assert_eq!(ids(row_cards(&floor, ShopSlots::Board)), vec![3, 1, 6, 5]);
    assert_eq!(ids(row_cards(&floor, ShopSlots::Hand)), vec![2]);
    assert_eq!(ids(row_cards(&floor, ShopSlots::Sell)), Vec::<u32>::new());
    assert_eq!(row_cards(&floor, ShopSlots::Shop), vec![Card::new(BaseCards::Mush4, 4)]);
}

#[test]
fn stats_grow_and_shrink_within_range() {
    assert_eq!(raised(5, 3), 8);
    assert_eq!(raised(65530, 5), 65535);
    assert_eq!(raised(65530, 6), 65535);
    assert_eq!(raised(1, usize::MAX), 65535);
    assert_eq!(lowered(5, 3), 2);
    assert_eq!(lowered(3, 3), 0);
    assert_eq!(lowered(2, 3), 0);
    let placed = put(BaseCards::Mush1, 1, ShopSlots::Hand, 2);
    assert_eq!(buffed(placed, 2, 1), with_stats(placed, 5, 2));
}

#[test]
fn counting_allies() {
    let floor = vec![
        put(BaseCards::Rob3, 1, ShopSlots::Board, 0),
        put(BaseCards::Rob1, 2, ShopSlots::Board, 1),
        put(BaseCards::Rob1, 3, ShopSlots::Hand, 0),
        with_stats(put(BaseCards::Rob2, 4, ShopSlots::Board, 2), 3, 0),
        put(BaseCards::Spid1, 5, ShopSlots::Board, 3),
    ];
    assert_eq!(allies(&floor, 0, Families::Robots, false), 2);
    assert_eq!(allies(&floor, 0, Families::Robots, true), 1);
    assert_eq!(allies(&floor, 4, Families::Robots, false), 3);
    assert_eq!(allies(&floor, 2, Families::Robots, false), 3);
    assert_eq!(allies(&floor, 0, Families::Spiders, false), 1);
    assert_eq!(allies(&floor, 4, Families::Spiders, false), 0);
    assert_eq!(allies(&floor, 0, Families::Mushrooms, false), 0);
}

#[test]
fn sweet_scent() {
    let bearer = put(BaseCards::Mush4, 1, ShopSlots::Board, 0);
    let mush = put(BaseCards::Mush1, 2, ShopSlots::Board, 1);
    let in_hand = put(BaseCards::Mush1, 3, ShopSlots::Hand, 0);
    let spider = put(BaseCards::Spid1, 4, ShopSlots::Board, 2);
    let mut floor = vec![mush, bearer, in_hand, spider];
    let mut next: u32 = 10;
    assert_eq!(played_trigger(&mut floor, 1, &mut next), None);
    assert_eq!(floor, vec![with_stats(mush, 4, 2), bearer, in_hand, spider]);
    assert_eq!(next, 10);
}

#[test]
fn cooperation_and_scanner() {
    let bearer = put(BaseCards::Spid1, 1, ShopSlots::Board, 0);
    let spider = put(BaseCards::Spid2, 2, ShopSlots::Board, 1);
    let other = put(BaseCards::Spid4, 3, ShopSlots::Board, 2);
    let on_shelf = put(BaseCards::Spid4, 4, ShopSlots::Shop, 2);
    let mut floor = vec![bearer, spider, other, on_shelf];
    let mut next: u32 = 10;
    assert_eq!(played_trigger(&mut floor, 0, &mut next), None);
    assert_eq!(floor, vec![with_stats(bearer, 3, 2), spider, other, on_shelf]);

    let turret = put(BaseCards::Rob3, 1, ShopSlots::Board, 0);
    let nanobot = put(BaseCards::Rob1, 2, ShopSlots::Board, 1);
    let humanoid = put(BaseCards::Rob6, 3, ShopSlots::Board, 5);
    let mut floor = vec![nanobot, humanoid, turret];
    assert_eq!(played_trigger(&mut floor, 2, &mut next), None);
    assert_eq!(floor, vec![nanobot, humanoid, with_stats(turret, 3, 5)]);
}

#[test]
fn replication() {
    let bearer = put(BaseCards::Rob1, 1, ShopSlots::Board, 0);
    let other = put(BaseCards::Mush1, 2, ShopSlots::Board, 1);
    let far = put(BaseCards::Mush1, 3, ShopSlots::Board, 3);
    let mut floor = vec![bearer, other, far];
    let mut next: u32 = 10;
    assert_eq!(played_trigger(&mut floor, 0, &mut next), Some(2));
    assert_eq!(floor, vec![bearer, other, far, put(BaseCards::Rob1, 10, ShopSlots::Board, 2)]);
    assert_eq!(next, 11);

    let mut floor: Vec<Placed> = vec![];
    let mut slot: u8 = 0;
    while slot < 7 {
        floor.push(put(BaseCards::Rob1, slot as u32, ShopSlots::Board, slot));
        slot += 1;
    }
    let full = floor.clone();
    assert_eq!(played_trigger(&mut floor, 0, &mut next), None);
    assert_eq!(floor, full);
    assert_eq!(next, 11);
}

#[test]
fn cards_without_a_played_ability() {
    let bearer = put(BaseCards::Mush8, 1, ShopSlots::Board, 0);
    let other = put(BaseCards::Mush1, 2, ShopSlots::Board, 1);
    let mut floor = vec![bearer, other];
    let mut next: u32 = 10;
    assert_eq!(played_trigger(&mut floor, 0, &mut next), None);
    assert_eq!(floor, vec![bearer, other]);
}

#[test]
fn newcomers() {
    let mut floor = vec![put(BaseCards::Mush1, 1, ShopSlots::Hand, 0)];
    let mut next: u32 = 7;
    assert_eq!(add_newcomer(&mut floor, BaseCards::Spid2, ShopSlots::Hand, 2, &mut next), Some(1));
    assert_eq!(floor[1], put(BaseCards::Spid2, 7, ShopSlots::Hand, 1));
    assert_eq!(next, 8);
    assert_eq!(add_newcomer(&mut floor, BaseCards::Spid2, ShopSlots::Hand, 2, &mut next), None);
    assert_eq!(floor.len(), 2);
    assert_eq!(next, 8);
}

#[test]
fn sporocarp() {
    let mut kinds: Vec<BaseCards> = vec![];
    for seed in 0..200u64 {
        let mut rng = StdRng::seed_from_u64(seed);
        let in_hand = put(BaseCards::Mush1, 1, ShopSlots::Hand, 0);
        let mut floor = vec![in_hand];
        let mut next: u32 = 20;
        let added = sold_trigger(&mut floor, Card::new(BaseCards::Mush6, 9), &mut next, &mut rng);
        assert_eq!(added, Some(1));
        assert_eq!(next, 21);
        assert_eq!(floor.len(), 2);
        assert_eq!(floor[0], in_hand);
        let new = floor[1];
        assert_eq!(new.slot, ShopSlot { row: ShopSlots::Hand, id: 1 });
        assert_eq!(new.card, Card::new(new.card.base_card, 20));
        assert_eq!(new.card.base_card.family(), Families::Mushrooms);
        if !kinds.contains(&new.card.base_card) {
            kinds.push(new.card.base_card);
        }
    }
    assert_eq!(kinds.len(), 8);

    let mut rng = StdRng::seed_from_u64(1);
    let fresh = rng.clone();
    let mut floor: Vec<Placed> = vec![];
    let mut slot: u8 = 0;
    while slot < 5 {
        floor.push(put(BaseCards::Mush1, slot as u32, ShopSlots::Hand, slot));
        slot += 1;
    }
    let mut next: u32 = 20;
    assert_eq!(sold_trigger(&mut floor, Card::new(BaseCards::Mush6, 9), &mut next, &mut rng), None);
    assert_eq!(floor.len(), 5);
    assert_eq!(next, 20);
    assert_eq!(rng, fresh);
}

#[test]
fn altruism() {
    let mut got: [bool; 2] = [false, false];
    for seed in 0..50u64 {
        let mut rng = StdRng::seed_from_u64(seed);
        let one = put(BaseCards::Mush1, 1, ShopSlots::Board, 0);
        let in_hand = put(BaseCards::Mush1, 2, ShopSlots::Hand, 0);
        let two = put(BaseCards::Spid4, 3, ShopSlots::Board, 1);
        let mut floor = vec![one, in_hand, two];
        let mut next: u32 = 20;
        let sold = Card::new(BaseCards::Merch7, 9);
        assert_eq!(sold.hp, 8);
        assert_eq!(sold_trigger(&mut floor, sold, &mut next, &mut rng), None);
        assert_eq!(next, 20);
        assert_eq!(floor[1], in_hand);
        let first = floor[0].card.hp - one.card.hp;
        let second = floor[2].card.hp - two.card.hp;
        assert_eq!(first + second, 8);
        assert_eq!(floor[0], with_stats(one, one.card.hp + first, one.card.atk));
        assert_eq!(floor[2], with_stats(two, two.card.hp + second, two.card.atk));
        got[0] = got[0] || first > 0;
        got[1] = got[1] || second > 0;
    }
    assert_eq!(got, [true, true]);

    let mut rng = StdRng::seed_from_u64(1);
    let in_hand = put(BaseCards::Mush1, 2, ShopSlots::Hand, 0);
    let mut floor = vec![in_hand];
    let mut next: u32 = 20;
    assert_eq!(sold_trigger(&mut floor, Card::new(BaseCards::Merch7, 9), &mut next, &mut rng), None);
    assert_eq!(floor, vec![in_hand]);
}

#[test]
fn selling_other_cards_does_nothing() {
    let mut rng = StdRng::seed_from_u64(1);
    let fresh = rng.clone();
    let one = put(BaseCards::Mush1, 1, ShopSlots::Board, 0);
    let mut floor = vec![one];
    let mut next: u32 = 20;
    assert_eq!(sold_trigger(&mut floor, Card::new(BaseCards::Rob8, 9), &mut next, &mut rng), None);
    assert_eq!(floor, vec![one]);
    assert_eq!(next, 20);
    assert_eq!(rng, fresh);
}

#[test]
fn cannibalism() {
    let bearer = put(BaseCards::Spid8, 1, ShopSlots::Board, 0);
    let tarantula = put(BaseCards::Spid6, 2, ShopSlots::Board, 1);
    let goliath = put(BaseCards::Spid4, 3, ShopSlots::Board, 2);
    let funnel = put(BaseCards::Spid3, 4, ShopSlots::Board, 3);
    let micro_in_hand = put(BaseCards::Spid1, 5, ShopSlots::Hand, 0);
    let mush = put(BaseCards::Mush1, 6, ShopSlots::Board, 4);
    let floor = vec![tarantula, bearer, goliath, funnel, micro_in_hand, mush];
    assert_eq!(find_prey(&floor, 1), Some(2));
    assert_eq!(find_prey(&vec![bearer, mush, micro_in_hand], 0), None);

    let mut floor = floor;
    turn_cards(&mut floor, 1);
    assert_eq!(
        floor,
        vec![tarantula, with_stats(bearer, 6 + 3, 5 + 3), funnel, micro_in_hand, mush]
    );

    let mut floor = vec![bearer, mush];
    turn_cards(&mut floor, 0);
    assert_eq!(floor, vec![bearer, mush]);
}

#[test]
fn upgrade() {
    let bearer = put(BaseCards::Rob4, 1, ShopSlots::Board, 2);
    let left = put(BaseCards::Mush1, 2, ShopSlots::Board, 1);
    let right = put(BaseCards::Spid1, 3, ShopSlots::Board, 3);
    let far = put(BaseCards::Spid1, 4, ShopSlots::Board, 4);
    let in_hand = put(BaseCards::Spid1, 5, ShopSlots::Hand, 1);
    let mut floor = vec![bearer, left, right, far, in_hand];
    turn_cards(&mut floor, 0);
    assert_eq!(
        floor,
        vec![bearer, with_stats(left, 4, 2), with_stats(right, 2, 3), far, in_hand]
    );
}

#[test]
fn upload() {
    let bearer = put(BaseCards::Rob7, 1, ShopSlots::Board, 0);
    let robot = put(BaseCards::Rob1, 2, ShopSlots::Board, 1);
    let robot_on_shelf = put(BaseCards::Rob2, 3, ShopSlots::Shop, 0);
    let mush = put(BaseCards::Mush1, 4, ShopSlots::Board, 2);
    let mut floor = vec![robot, bearer, robot_on_shelf, mush];
    turn_cards(&mut floor, 1);
    assert_eq!(
        floor,
        vec![with_stats(robot, 3, 1), with_stats(bearer, 10, 5), with_stats(robot_on_shelf, 5, 1), mush]
    );

    let weak = with_stats(bearer, 2, 5);
    let mut floor = vec![robot, weak, mush];
    turn_cards(&mut floor, 1);
    assert_eq!(floor, vec![with_stats(robot, 3, 1), mush]);

    let edge = with_stats(bearer, 3, 5);
    let mut floor = vec![edge];
    turn_cards(&mut floor, 0);
    assert_eq!(floor, vec![with_stats(bearer, 1, 5)]);
}

#[test]
fn download() {
    let bearer = put(BaseCards::Rob8, 1, ShopSlots::Board, 0);
    let nanobot = put(BaseCards::Rob1, 2, ShopSlots::Board, 1);
    let humanoid = put(BaseCards::Rob6, 3, ShopSlots::Board, 2);
    let unarmed = with_stats(put(BaseCards::Rob2, 4, ShopSlots::Board, 3), 3, 0);
    let in_hand = put(BaseCards::Rob6, 5, ShopSlots::Hand, 0);
    let mush = put(BaseCards::Mush1, 6, ShopSlots::Board, 4);
    let mut floor = vec![nanobot, humanoid, bearer, unarmed, in_hand, mush];
    turn_cards(&mut floor, 2);
    assert_eq!(
        floor,
        vec![
            with_stats(humanoid, 7, 3),
            with_stats(bearer, 3 + 3, 3 + 2),
            with_stats(unarmed, 2, 0),
            in_hand,
            mush,
        ]
    );
}

#[test]
fn slimy_and_roots() {
    let slimy = put(BaseCards::Mush2, 1, ShopSlots::Board, 0);
    let roots = put(BaseCards::Mush7, 2, ShopSlots::Board, 1);
    let mush = put(BaseCards::Mush1, 3, ShopSlots::Board, 2);
    let in_hand = put(BaseCards::Mush1, 4, ShopSlots::Hand, 2);
    let mut floor = vec![slimy, roots, mush, in_hand];
    turn_cards(&mut floor, 0);
    assert_eq!(floor, vec![with_stats(slimy, 2, 1), roots, mush, in_hand]);
    turn_cards(&mut floor, 1);
    assert_eq!(floor, vec![with_stats(slimy, 2, 1), with_stats(roots, 4, 6), mush, in_hand]);
}

#[test]
fn spawn() {
    let mut kinds: [bool; 2] = [false, false];
    for seed in 0..40u64 {
        let mut rng = StdRng::seed_from_u64(seed);
        let bearer = put(BaseCards::Spid7, 1, ShopSlots::Board, 0);
        let other = put(BaseCards::Mush1, 2, ShopSlots::Board, 1);
        let in_hand = put(BaseCards::Mush1, 3, ShopSlots::Hand, 0);
        let mut floor = vec![bearer, in_hand, other];
        let mut next: u32 = 30;
        let done = turn_trigger(&mut floor, 0, &mut next, &mut rng);
        assert_eq!(done, (Some(2), None));
        assert_eq!(next, 31);
        assert_eq!(floor.len(), 4);
        assert_eq!(&floor[..3], &[bearer, in_hand, other]);
        if floor[3] == put(BaseCards::Spid1, 30, ShopSlots::Board, 2) {
            kinds[0] = true;
        } else {
            assert_eq!(floor[3], put(BaseCards::Spid2, 30, ShopSlots::Board, 2));
            kinds[1] = true;
        }
    }
    assert_eq!(kinds, [true, true]);

    let mut rng = StdRng::seed_from_u64(1);
    let mut floor: Vec<Placed> = vec![];
    let mut slot: u8 = 0;
    while slot < 7 {
        floor.push(put(BaseCards::Spid7, slot as u32, ShopSlots::Board, slot));
        slot += 1;
    }
    let full = floor.clone();
    let mut next: u32 = 30;
    assert_eq!(turn_trigger(&mut floor, 0, &mut next, &mut rng), (None, None));
    assert_eq!(floor, full);
    assert_eq!(next, 30);
}

#[test]
fn gold_mine() {
    let mut rng = StdRng::seed_from_u64(1);
    let bearer = put(BaseCards::Merch6, 1, ShopSlots::Board, 0);
    let mut floor = vec![bearer];
    let mut next: u32 = 30;
    let done = turn_trigger(&mut floor, 0, &mut next, &mut rng);
    assert_eq!(done, (None, Some(CoinsDiff(-1, true))));
    assert_eq!(floor, vec![bearer]);
    assert_eq!(update_coins(10, 10, CoinsDiff(-1, true)), (11, false));
}

#[test]
fn turn_trigger_turns_the_cards() {
    let mut rng = StdRng::seed_from_u64(1);
    let slimy = put(BaseCards::Mush2, 1, ShopSlots::Board, 0);
    let mut floor = vec![slimy];
    let mut next: u32 = 30;
    assert_eq!(turn_trigger(&mut floor, 0, &mut next, &mut rng), (None, None));
    assert_eq!(floor, vec![with_stats(slimy, 2, 1)]);
    assert_eq!(next, 30);
}
