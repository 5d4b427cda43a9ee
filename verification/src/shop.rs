use crate::card::{Abilities, Card, Triggers};
use vstd::prelude::*;

verus! {

/// What a turn starts with at least, in gold.
pub const MIN_COINS: u16 = 3;

/// How many places the board has.
pub const BOARD_SLOTS: u8 = 7;

/// How many places the hand has.
pub const HAND_SLOTS: u8 = 5;

/// The rows of the shop screen: a card lies on the shop's shelf, on the
/// player's board, in the player's hand, or on the counter where it is sold.
#[derive(Copy, Clone, Debug, PartialEq, Eq, Structural)]
pub enum ShopSlots {
    Shop,
    Board,
    Hand,
    Sell,
}

/// A place of the shop screen.
#[derive(Copy, Clone, Debug, PartialEq, Eq, Structural)]
pub struct ShopSlot {
    pub row: ShopSlots,
    pub id: u8,
}

/// A card and the place where it lies.
#[derive(Copy, Clone, Debug, PartialEq, Eq, Structural)]
pub struct Placed {
    pub card: Card,
    pub slot: ShopSlot,
}

/// A payment: what the player pays, negative when they are paid, and
/// whether the gold may go past the limit of the turn.
#[derive(Copy, Clone, Debug, PartialEq, Eq, Structural)]
pub struct CoinsDiff(pub i8, pub bool);

/// The gold that a turn starts with: two more than the number of the turn,
/// but no less than [`MIN_COINS`] and no more than `gold_limit` allows, and on
/// top of that what was won in fights.
pub open spec fn spec_turn_coins(turn: u16, gold_limit: u16, extra_coins: u16) -> int {
    let grown = if turn + 2 < gold_limit {
        turn + 2
    } else {
        gold_limit as int
    };
    let based = if grown < MIN_COINS {
        MIN_COINS as int
    } else {
        grown
    };
    based + extra_coins
}

pub fn turn_coins(turn: u16, gold_limit: u16, extra_coins: u16) -> (coins: u16)
    requires
        spec_turn_coins(turn, gold_limit, extra_coins) <= u16::MAX,
    ensures
        coins == spec_turn_coins(turn, gold_limit, extra_coins),
{
    let grown = if gold_limit > 2 && turn < gold_limit - 2 {
        turn + 2
    } else {
        gold_limit
    };
    let based = if grown < MIN_COINS {
        MIN_COINS
    } else {
        grown
    };
    based + extra_coins
}

/// The abilities that fire at the start of a turn, each with the identifier
/// of its card, in the order of the board.
pub open spec fn spec_turn_abilities(board: Seq<Card>) -> Seq<(Abilities, u32)>
    decreases board.len(),
{
    if board.len() == 0 {
        seq![]
    } else {
        let card = board.last();
        let rest = spec_turn_abilities(board.drop_last());
        if card.base_card.spec_trigger() == Triggers::Turn {
            rest.push((card.base_card.spec_ability(), card.id))
        } else {
            rest
        }
    }
}

pub fn turn_abilities(board: &Vec<Card>) -> (stack: Vec<(Abilities, u32)>)
    ensures
        stack@ == spec_turn_abilities(board@),
{
    let mut stack: Vec<(Abilities, u32)> = Vec::new();
    let mut i: usize = 0;
    while i < board.len()
        invariant
            i <= board.len(),
            stack@ == spec_turn_abilities(board@.take(i as int)),
        decreases board.len() - i,
    {
        proof {
            assert(board@.take(i as int + 1).drop_last() == board@.take(i as int));
        }
        let card = board[i];
        if card.base_card.trigger() == Triggers::Turn {
            stack.push((card.base_card.ability(), card.id));
        }
        i += 1;
    }
    proof {
        assert(board@.take(i as int) == board@);
    }
    stack
}

/// Whether a card that is dragged from the row `origin` may be dropped on
/// the row `hovered` at all, whatever lies there: from the shelf to the hand
/// or the board, from the board to the board or the counter, from the hand to
/// anywhere but the shelf, and nowhere from the counter.
pub open spec fn spec_can_hover(origin: ShopSlots, hovered: ShopSlots) -> bool {
    match origin {
        ShopSlots::Shop => hovered == ShopSlots::Hand || hovered == ShopSlots::Board,
        ShopSlots::Board => hovered == ShopSlots::Board || hovered == ShopSlots::Sell,
        ShopSlots::Hand => hovered == ShopSlots::Board || hovered == ShopSlots::Hand || hovered
            == ShopSlots::Sell,
        ShopSlots::Sell => false,
    }
}

pub fn can_hover(origin: ShopSlots, hovered: ShopSlots) -> (possible: bool)
    ensures
        possible == spec_can_hover(origin, hovered),
{
    match origin {
        ShopSlots::Shop => hovered == ShopSlots::Hand || hovered == ShopSlots::Board,
        ShopSlots::Board => hovered == ShopSlots::Board || hovered == ShopSlots::Sell,
        ShopSlots::Hand => hovered == ShopSlots::Board || hovered == ShopSlots::Hand || hovered
            == ShopSlots::Sell,
        ShopSlots::Sell => false,
    }
}

/// The price `buy` as the gold that a player must have to pay it.
pub open spec fn spec_price(buy: i8) -> int {
    if buy >= 0 {
        buy as int
    } else {
        buy + 0x1_0000
    }
}

pub fn price(buy: i8) -> (gold: i32)
    ensures
        gold == spec_price(buy),
{
    if buy >= 0 {
        buy as i32
    } else {
        buy as i32 + 0x1_0000
    }
}

/// Whether the card that is dragged from the row `origin` may be dropped on
/// a place of the row `destination`. `taken` tells whether another card lies
/// there, `coins` what the player has and `buy` what a card costs.
///
/// A card of the hand may change places within the hand, go to the counter,
/// or go to a free place of the board. A card of the board may change places
/// within the board or go to the counter. A card of the shelf may go to a
/// free place of the hand or the board if the player can pay for it. A card
/// on the counter stays there.
pub open spec fn spec_legal_move(
    origin: ShopSlots,
    destination: ShopSlots,
    taken: bool,
    coins: u16,
    buy: i8,
) -> bool {
    match origin {
        ShopSlots::Hand => destination == ShopSlots::Hand || destination == ShopSlots::Sell || (
        destination == ShopSlots::Board && !taken),
        ShopSlots::Board => destination == ShopSlots::Board || destination == ShopSlots::Sell,
        ShopSlots::Shop => (destination == ShopSlots::Hand || destination == ShopSlots::Board)
            && !taken && coins >= spec_price(buy),
        ShopSlots::Sell => false,
    }
}

pub fn legal_move(
    origin: ShopSlots,
    destination: ShopSlots,
    taken: bool,
    coins: u16,
    buy: i8,
) -> (legal: bool)
    ensures
        legal == spec_legal_move(origin, destination, taken, coins, buy),
{
    match origin {
        ShopSlots::Hand => destination == ShopSlots::Hand || destination == ShopSlots::Sell || (
        destination == ShopSlots::Board && !taken),
        ShopSlots::Board => destination == ShopSlots::Board || destination == ShopSlots::Sell,
        ShopSlots::Shop => (destination == ShopSlots::Hand || destination == ShopSlots::Board)
            && !taken && coins as i32 >= price(buy),
        ShopSlots::Sell => false,
    }
}

/// A move that the rules allow is one that the screen offers.
pub proof fn lemma_legal_moves_can_hover(
    origin: ShopSlots,
    destination: ShopSlots,
    taken: bool,
    coins: u16,
    buy: i8,
)
    requires
        spec_legal_move(origin, destination, taken, coins, buy),
    ensures
        spec_can_hover(origin, destination),
{
}

/// Whether the ability of a card with the given trigger fires as the card is
/// dropped: it fires when the card is played, which is when it comes to the
/// board from elsewhere.
pub fn fires_when_dropped(trigger: Triggers, origin: ShopSlots, destination: ShopSlots) -> (fires:
    bool)
    ensures
        fires == (trigger == Triggers::Played && origin != ShopSlots::Board && destination
            == ShopSlots::Board),
{
    trigger == Triggers::Played && origin != ShopSlots::Board && destination == ShopSlots::Board
}

/// Whether the payment would take the player's gold past the limit of the
/// turn without being allowed to.
pub open spec fn spec_overflows(coins: u16, coin_limit: u16, diff: CoinsDiff) -> bool {
    !diff.1 && diff.0 < 0 && coins - diff.0 > coin_limit
}

/// The gold that the player has after the payment, and whether the payments
/// that wait behind it are dropped. A payment that would take the gold past
/// the limit without being allowed to brings it to the limit instead, unless
/// it is past it already, and drops the payments behind it.
pub fn update_coins(coins: u16, coin_limit: u16, diff: CoinsDiff) -> (paid: (u16, bool))
    requires
        diff.0 <= coins,
        coins - diff.0 <= u16::MAX,
    ensures
        paid.1 == spec_overflows(coins, coin_limit, diff),
        paid.1 ==> paid.0 == if coins < coin_limit {
            coin_limit
        } else {
            coins
        },
        !paid.1 ==> paid.0 == coins - diff.0,
{
    let cost: i32 = diff.0 as i32;
    let after: i32 = coins as i32 - cost;
    if !diff.1 && diff.0 < 0 && after > coin_limit as i32 {
        if coins < coin_limit {
            (coin_limit, true)
        } else {
            (coins, true)
        }
    } else {
        (after as u16, false)
    }
}

pub open spec fn spec_upgrade_cost(shop_level: u16) -> Option<u16> {
    if shop_level == 1 {
        Some(4u16)
    } else if shop_level == 2 {
        Some(6u16)
    } else if shop_level == 3 {
        Some(8u16)
    } else {
        None
    }
}

/// What raising a shop of the given level costs, where it can be raised.
pub fn upgrade_cost(shop_level: u16) -> (cost: Option<u16>)
    ensures
        cost == spec_upgrade_cost(shop_level),
{
    match shop_level {
        1 => Some(4),
        2 => Some(6),
        3 => Some(8),
        _ => None,
    }
}

/// Whether a card lies on the place.
pub open spec fn is_taken(floor: Seq<Placed>, slot: ShopSlot) -> bool {
    exists|i: int| 0 <= i < floor.len() && (#[trigger] floor[i]).slot == slot
}

/// Whether a card lies on the place.
pub fn taken(floor: &Vec<Placed>, slot: ShopSlot) -> (found: bool)
    ensures
        found == is_taken(floor@, slot),
{
    let mut i: usize = 0;
    while i < floor.len()
        invariant
            i <= floor.len(),
            forall|j: int| 0 <= j < i ==> (#[trigger] floor@[j]).slot != slot,
        decreases floor.len() - i,
    {
        if floor[i].slot.row == slot.row && floor[i].slot.id == slot.id {
            return true;
        }
        i += 1;
    }
    false
}

/// Whether a card lies on the place `id` of the row.
pub open spec fn is_taken_in(floor: Seq<Placed>, row: ShopSlots, id: u8) -> bool {
    is_taken(floor, ShopSlot { row, id })
}

/// Whether `id` is the first free place of the row among its first `slots`
/// places.
pub open spec fn is_first_free(floor: Seq<Placed>, row: ShopSlots, slots: u8, id: u8) -> bool {
    &&& id < slots
    &&& !is_taken_in(floor, row, id)
    &&& forall|before: u8| before < id ==> #[trigger] is_taken_in(floor, row, before)
}

/// The first free place of the row among its first `slots` places, where
/// one is free.
pub fn free_slot(floor: &Vec<Placed>, row: ShopSlots, slots: u8) -> (free: Option<u8>)
    ensures
        match free {
            Some(id) => is_first_free(floor@, row, slots, id),
            None => forall|id: u8| id < slots ==> #[trigger] is_taken_in(floor@, row, id),
        },
{
    let mut id: u8 = 0;
    while id < slots
        invariant
            id <= slots,
            forall|before: u8| before < id ==> #[trigger] is_taken_in(floor@, row, before),
        decreases slots - id,
    {
        if !taken(floor, ShopSlot { row, id }) {
            return Some(id);
        }
        id += 1;
    }
    None
}

/// The cards among the first `upto` of the floor that lie on the place `id`
/// of the row, in the order of the floor.
pub open spec fn spec_cards_at(floor: Seq<Placed>, row: ShopSlots, id: u8, upto: nat) -> Seq<Card>
    decreases upto,
{
    if upto == 0 {
        seq![]
    } else {
        let before = spec_cards_at(floor, row, id, (upto - 1) as nat);
        let placed = floor[upto - 1];
        if placed.slot.row == row && placed.slot.id == id {
            before.push(placed.card)
        } else {
            before
        }
    }
}

/// The cards of the floor that lie on the first `places` places of the row,
/// in the order of the places.
pub open spec fn spec_row_cards(floor: Seq<Placed>, row: ShopSlots, places: nat) -> Seq<Card>
    decreases places,
{
    if places == 0 {
        seq![]
    } else {
        spec_row_cards(floor, row, (places - 1) as nat) + spec_cards_at(
            floor,
            row,
            (places - 1) as u8,
            floor.len(),
        )
    }
}

/// The cards that lie in the row, in the order of their places: what the
/// player takes along from the shop as their board, or as their hand.
pub fn row_cards(floor: &Vec<Placed>, row: ShopSlots) -> (cards: Vec<Card>)
    ensures
        cards@ == spec_row_cards(floor@, row, 256),
{
    let mut cards: Vec<Card> = Vec::new();
    let mut place: u16 = 0;
    while place < 256
        invariant
            place <= 256,
            cards@ == spec_row_cards(floor@, row, place as nat),
        decreases 256 - place,
    {
        let ghost before = cards@;
        let mut i: usize = 0;
        while i < floor.len()
            invariant
                i <= floor.len(),
                place < 256,
                cards@ == before + spec_cards_at(floor@, row, place as u8, i as nat),
            decreases floor.len() - i,
        {
            if floor[i].slot.row == row && floor[i].slot.id as u16 == place {
                cards.push(floor[i].card);
            }
            i += 1;
        }
        place += 1;
    }
    cards
}

} // verus!
