use crate::card::BaseCards;
use crate::rng::gen_range;
use rand::rngs::StdRng;
use vstd::prelude::*;

verus! {

/// How many cards a shelf of the shop holds: two of each family.
pub const SHELF_SIZE: i32 = 8;

/// Stocks the shop.
pub struct ShopManager;

impl ShopManager {
    /// The card at place `roll` of the shelf of the given level: the shelf
    /// holds the cards of that rank, two of each family. A level past the
    /// third has the shelf of the fourth, a place past the last holds the
    /// last card.
    pub open spec fn spec_shelf(level: u16, roll: int) -> BaseCards {
        if level == 1 {
            if roll == 0 {
                BaseCards::Merch1
            } else if roll == 1 {
                BaseCards::Merch2
            } else if roll == 2 {
                BaseCards::Mush1
            } else if roll == 3 {
                BaseCards::Mush2
            } else if roll == 4 {
                BaseCards::Rob1
            } else if roll == 5 {
                BaseCards::Rob2
            } else if roll == 6 {
                BaseCards::Spid1
            } else {
                BaseCards::Spid2
            }
        } else if level == 2 {
            if roll == 0 {
                BaseCards::Merch3
            } else if roll == 1 {
                BaseCards::Merch4
            } else if roll == 2 {
                BaseCards::Mush3
            } else if roll == 3 {
                BaseCards::Mush4
            } else if roll == 4 {
                BaseCards::Rob3
            } else if roll == 5 {
                BaseCards::Rob4
            } else if roll == 6 {
                BaseCards::Spid3
            } else {
                BaseCards::Spid4
            }
        } else if level == 3 {
            if roll == 0 {
                BaseCards::Merch5
            } else if roll == 1 {
                BaseCards::Merch6
            } else if roll == 2 {
                BaseCards::Mush5
            } else if roll == 3 {
                BaseCards::Mush6
            } else if roll == 4 {
                BaseCards::Rob5
            } else if roll == 5 {
                BaseCards::Rob6
            } else if roll == 6 {
                BaseCards::Spid5
            } else {
                BaseCards::Spid6
            }
        } else {
            if roll == 0 {
                BaseCards::Merch7
            } else if roll == 1 {
                BaseCards::Merch8
            } else if roll == 2 {
                BaseCards::Mush7
            } else if roll == 3 {
                BaseCards::Mush8
            } else if roll == 4 {
                BaseCards::Rob7
            } else if roll == 5 {
                BaseCards::Rob8
            } else if roll == 6 {
                BaseCards::Spid7
            } else {
                BaseCards::Spid8
            }
        }
    }

    /// The card at place `roll` of the first shelf.
    pub fn level1(roll: i32) -> (card: BaseCards)
        ensures
            card == ShopManager::spec_shelf(1, roll as int),
    {
        match roll {
            0 => BaseCards::Merch1,
            1 => BaseCards::Merch2,
            2 => BaseCards::Mush1,
            3 => BaseCards::Mush2,
            4 => BaseCards::Rob1,
            5 => BaseCards::Rob2,
            6 => BaseCards::Spid1,
            _ => BaseCards::Spid2,
        }
    }

    /// The card at place `roll` of the second shelf.
    pub fn level2(roll: i32) -> (card: BaseCards)
        ensures
            card == ShopManager::spec_shelf(2, roll as int),
    {
        match roll {
            0 => BaseCards::Merch3,
            1 => BaseCards::Merch4,
            2 => BaseCards::Mush3,
            3 => BaseCards::Mush4,
            4 => BaseCards::Rob3,
            5 => BaseCards::Rob4,
            6 => BaseCards::Spid3,
            _ => BaseCards::Spid4,
        }
    }

    /// The card at place `roll` of the third shelf.
    pub fn level3(roll: i32) -> (card: BaseCards)
        ensures
            card == ShopManager::spec_shelf(3, roll as int),
    {
        match roll {
            0 => BaseCards::Merch5,
            1 => BaseCards::Merch6,
            2 => BaseCards::Mush5,
            3 => BaseCards::Mush6,
            4 => BaseCards::Rob5,
            5 => BaseCards::Rob6,
            6 => BaseCards::Spid5,
            _ => BaseCards::Spid6,
        }
    }

    /// The card at place `roll` of the fourth shelf.
    pub fn level4(roll: i32) -> (card: BaseCards)
        ensures
            card == ShopManager::spec_shelf(4, roll as int),
    {
        match roll {
            0 => BaseCards::Merch7,
            1 => BaseCards::Merch8,
            2 => BaseCards::Mush7,
            3 => BaseCards::Mush8,
            4 => BaseCards::Rob7,
            5 => BaseCards::Rob8,
            6 => BaseCards::Spid7,
            _ => BaseCards::Spid8,
        }
    }

    /// Whether the card stands on the shelf of the given level.
    pub open spec fn on_shelf(level: u16, card: BaseCards) -> bool {
        exists|roll: int| 0 <= roll < SHELF_SIZE && card == ShopManager::spec_shelf(level, roll)
    }

    /// A card of the first shelf that `rng` picks, each as likely as the
    /// next.
    pub fn draw_level1(rng: &mut StdRng) -> (card: BaseCards)
        ensures
            ShopManager::on_shelf(1, card),
    {
        ShopManager::level1(gen_range(rng, 0, SHELF_SIZE))
    }

    /// A card of the second shelf that `rng` picks.
    pub fn draw_level2(rng: &mut StdRng) -> (card: BaseCards)
        ensures
            ShopManager::on_shelf(2, card),
    {
        ShopManager::level2(gen_range(rng, 0, SHELF_SIZE))
    }

    /// A card of the third shelf that `rng` picks.
    pub fn draw_level3(rng: &mut StdRng) -> (card: BaseCards)
        ensures
            ShopManager::on_shelf(3, card),
    {
        ShopManager::level3(gen_range(rng, 0, SHELF_SIZE))
    }

    /// A card of the fourth shelf that `rng` picks.
    pub fn draw_level4(rng: &mut StdRng) -> (card: BaseCards)
        ensures
            ShopManager::on_shelf(4, card),
    {
        ShopManager::level4(gen_range(rng, 0, SHELF_SIZE))
    }

    pub open spec fn spec_cards_amount(level: u16) -> u16 {
        if level == 1 {
            3
        } else if level == 2 {
            4
        } else if level == 3 {
            5
        } else {
            6
        }
    }

    /// How many cards a shop of the given level shows.
    pub fn cards_amount(level: u16) -> (amount: u16)
        ensures
            amount == ShopManager::spec_cards_amount(level),
    {
        match level {
            1 => 3,
            2 => 4,
            3 => 5,
            _ => 6,
        }
    }

    /// How many ways the roll can fall that says which shelf a card of a shop
    /// of the given level comes from.
    pub open spec fn spec_shelf_rolls(level: u16) -> int {
        if level == 1 {
            1
        } else if level == 2 {
            2
        } else if level == 3 {
            5
        } else {
            11
        }
    }

    /// The shelf that a card of a shop of the given level comes from when
    /// the roll for it falls on `roll`. A shop shows cards of its own level
    /// and of those below, and the higher its level, the more of the rolls go
    /// to the higher shelves.
    pub open spec fn spec_shelf_of(level: u16, roll: int) -> u16 {
        if level == 1 {
            1
        } else if level == 2 {
            if roll == 0 {
                1
            } else {
                2
            }
        } else if level == 3 {
            if roll == 0 {
                1
            } else if roll == 1 || roll == 2 {
                2
            } else {
                3
            }
        } else {
            if roll == 0 || roll == 1 {
                1
            } else if 2 <= roll <= 4 {
                2
            } else if 5 <= roll <= 8 {
                3
            } else {
                4
            }
        }
    }

    pub fn shelf_of(level: u16, roll: i32) -> (shelf: u16)
        ensures
            shelf == ShopManager::spec_shelf_of(level, roll as int),
            1 <= shelf <= 4,
    {
        match level {
            1 => 1,
            2 => match roll {
                0 => 1,
                _ => 2,
            },
            3 => match roll {
                0 => 1,
                1 | 2 => 2,
                _ => 3,
            },
            _ => match roll {
                0 | 1 => 1,
                2 | 3 | 4 => 2,
                5 | 6 | 7 | 8 => 3,
                _ => 4,
            },
        }
    }

    /// Whether a shop of the given level can show the card: it stands on a
    /// shelf that some roll of the shop leads to.
    pub open spec fn in_stock(level: u16, card: BaseCards) -> bool {
        exists|roll: int|
            0 <= roll < ShopManager::spec_shelf_rolls(level) && ShopManager::on_shelf(
                #[trigger] ShopManager::spec_shelf_of(level, roll),
                card,
            )
    }

    /// The cards that a shop of the given level shows: `rng` picks for each
    /// the shelf that it comes from, and the card on that shelf.
    pub fn shop_inventory(level: u16, rng: &mut StdRng) -> (cards: Vec<BaseCards>)
        ensures
            cards.len() == ShopManager::spec_cards_amount(level),
            forall|i: int|
                0 <= i < cards.len() ==> ShopManager::in_stock(level, #[trigger] cards[i]),
    {
        let amount = ShopManager::cards_amount(level);
        let mut cards: Vec<BaseCards> = Vec::new();
        let mut i: u16 = 0;
        while i < amount
            invariant
                i <= amount,
                cards.len() == i,
                forall|j: int|
                    0 <= j < cards.len() ==> ShopManager::in_stock(level, #[trigger] cards[j]),
            decreases amount - i,
        {
            let roll = match level {
                1 => 0,
                2 => gen_range(rng, 0, 2),
                3 => gen_range(rng, 0, 5),
                _ => gen_range(rng, 0, 11),
            };
            let card = match ShopManager::shelf_of(level, roll) {
                1 => ShopManager::draw_level1(rng),
                2 => ShopManager::draw_level2(rng),
                3 => ShopManager::draw_level3(rng),
                _ => ShopManager::draw_level4(rng),
            };
            proof {
                assert(ShopManager::on_shelf(ShopManager::spec_shelf_of(level, roll as int), card));
            }
            cards.push(card);
            i += 1;
        }
        cards
    }
}

} // verus!
