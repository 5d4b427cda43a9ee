use crate::card::{Abilities, BaseCards, Card, Families};
use crate::rng::{gen_flag, gen_range, pick_one};
use crate::shop::{
    free_slot, is_first_free, is_taken_in, CoinsDiff, Placed, ShopSlot, ShopSlots, BOARD_SLOTS,
    HAND_SLOTS,
};
use crate::util::{lowered, raised, spec_lowered, spec_raised};
use rand::rngs::StdRng;
use vstd::prelude::*;

verus! {

/// `placed` with the hit points and the attack of its card raised.
pub open spec fn spec_buffed(placed: Placed, hp: nat, atk: nat) -> Placed {
    Placed {
        card: Card {
            hp: spec_raised(placed.card.hp, hp),
            atk: spec_raised(placed.card.atk, atk),
            ..placed.card
        },
        ..placed
    }
}

pub fn buffed(placed: Placed, hp: usize, atk: usize) -> (more: Placed)
    ensures
        more == spec_buffed(placed, hp as nat, atk as nat),
{
    Placed {
        card: Card {
            hp: raised(placed.card.hp, hp),
            atk: raised(placed.card.atk, atk),
            ..placed.card
        },
        slot: placed.slot,
    }
}

/// Whether card `i` of the floor is another card than card `at`, lies on the
/// board and is of the family.
pub open spec fn is_ally(floor: Seq<Placed>, at: int, i: int, family: Families) -> bool {
    &&& i != at
    &&& floor[i].slot.row == ShopSlots::Board
    &&& floor[i].card.base_card.spec_family() == family
}

pub fn ally(floor: &Vec<Placed>, at: usize, i: usize, family: Families) -> (yes: bool)
    requires
        i < floor.len(),
    ensures
        yes == is_ally(floor@, at as int, i as int, family),
{
    i != at && floor[i].slot.row == ShopSlots::Board && floor[i].card.base_card.family() == family
}

/// How many of the first `upto` cards of the floor are allies of card `at`
/// in the family (see [`is_ally`]); with `armed`, only those that have
/// attack are counted.
pub open spec fn spec_allies(
    floor: Seq<Placed>,
    at: int,
    family: Families,
    armed: bool,
    upto: nat,
) -> nat
    decreases upto,
{
    if upto == 0 {
        0
    } else {
        let i = upto - 1;
        let before = spec_allies(floor, at, family, armed, i as nat);
        if is_ally(floor, at, i, family) && (!armed || floor[i].card.atk > 0) {
            before + 1
        } else {
            before
        }
    }
}

/// How many cards of the floor are allies of card `at` in the family; with
/// `armed`, how many of them have attack.
pub fn allies(floor: &Vec<Placed>, at: usize, family: Families, armed: bool) -> (count: usize)
    ensures
        count == spec_allies(floor@, at as int, family, armed, floor@.len()),
{
    let mut count: usize = 0;
    let mut i: usize = 0;
    while i < floor.len()
        invariant
            i <= floor.len(),
            count <= i,
            count == spec_allies(floor@, at as int, family, armed, i as nat),
        decreases floor.len() - i,
    {
        if ally(floor, at, i, family) && (!armed || floor[i].card.atk > 0) {
            count += 1;
        }
        i += 1;
    }
    count
}

/// Whether `prey` is the card that card `at` eats: of the spiders of the
/// board other than `at`, the first of those of the lowest rank.
pub open spec fn is_prey(floor: Seq<Placed>, at: int, prey: int) -> bool {
    &&& 0 <= prey < floor.len()
    &&& is_ally(floor, at, prey, Families::Spiders)
    &&& forall|i: int|
        0 <= i < floor.len() && is_ally(floor, at, i, Families::Spiders)
            ==> floor[prey].card.base_card.spec_rank() <= (
        #[trigger] floor[i]).card.base_card.spec_rank()
    &&& forall|i: int|
        0 <= i < prey && is_ally(floor, at, i, Families::Spiders)
            ==> floor[prey].card.base_card.spec_rank() < (
        #[trigger] floor[i]).card.base_card.spec_rank()
}

/// The card that card `at` eats, where there is one.
pub fn find_prey(floor: &Vec<Placed>, at: usize) -> (prey: Option<usize>)
    ensures
        match prey {
            Some(prey) => is_prey(floor@, at as int, prey as int),
            None => forall|i: int|
                0 <= i < floor.len() ==> !is_ally(floor@, at as int, i, Families::Spiders),
        },
{
    let mut prey: Option<usize> = None;
    let mut i: usize = 0;
    while i < floor.len()
        invariant
            i <= floor.len(),
            match prey {
                Some(prey) => {
                    &&& prey < i
                    &&& is_ally(floor@, at as int, prey as int, Families::Spiders)
                    &&& forall|j: int|
                        0 <= j < i && is_ally(floor@, at as int, j, Families::Spiders)
                            ==> floor@[prey as int].card.base_card.spec_rank() <= (
                        #[trigger] floor@[j]).card.base_card.spec_rank()
                    &&& forall|j: int|
                        0 <= j < prey && is_ally(floor@, at as int, j, Families::Spiders)
                            ==> floor@[prey as int].card.base_card.spec_rank() < (
                        #[trigger] floor@[j]).card.base_card.spec_rank()
                },
                None => forall|j: int|
                    0 <= j < i ==> !is_ally(floor@, at as int, j, Families::Spiders),
            },
        decreases floor.len() - i,
    {
        if ally(floor, at, i, Families::Spiders) {
            match prey {
                Some(best) => {
                    if floor[i].card.base_card.rank() < floor[best].card.base_card.rank() {
                        prey = Some(i);
                    }
                },
                None => {
                    prey = Some(i);
                },
            }
        }
        i += 1;
    }
    prey
}

/// No two cards are the prey of a card.
pub proof fn lemma_prey_is_one(floor: Seq<Placed>, at: int, prey: int, other: int)
    requires
        is_prey(floor, at, prey),
        is_prey(floor, at, other),
    ensures
        prey == other,
{
    if prey < other {
        assert(floor[other].card.base_card.spec_rank() < floor[prey].card.base_card.spec_rank());
        assert(floor[prey].card.base_card.spec_rank() <= floor[other].card.base_card.spec_rank());
    } else if other < prey {
        assert(floor[prey].card.base_card.spec_rank() < floor[other].card.base_card.spec_rank());
        assert(floor[other].card.base_card.spec_rank() <= floor[prey].card.base_card.spec_rank());
    }
}

/// Whether two places of a row lie side by side.
pub open spec fn is_beside(id: u8, other: u8) -> bool {
    id == other + 1 || id + 1 == other
}

/// What card `i` of the floor becomes when the ability of card `at` fires as
/// card `at` is played:
/// - Sweet Scent gives 1 hit point and 1 attack to every other mushroom of
///   the board;
/// - Cooperation gives its card 1 hit point for every other spider of the
///   board;
/// - Scanner gives its card 1 hit point and 1 attack for every other robot of
///   the board;
/// - no other ability changes a card.
pub open spec fn spec_played(floor: Seq<Placed>, at: int, i: int) -> Placed {
    let it = floor[i];
    match floor[at].card.base_card.spec_ability() {
        Abilities::SweetScent => if is_ally(floor, at, i, Families::Mushrooms) {
            spec_buffed(it, 1, 1)
        } else {
            it
        },
        Abilities::Cooperation => if i == at {
            spec_buffed(it, spec_allies(floor, at, Families::Spiders, false, floor.len()), 0)
        } else {
            it
        },
        Abilities::Scanner => if i == at {
            let robots = spec_allies(floor, at, Families::Robots, false, floor.len());
            spec_buffed(it, robots, robots)
        } else {
            it
        },
        _ => it,
    }
}

/// The floor once the ability of card `at` has fired as card `at` was
/// played, new cards apart (see [`spec_played`]).
pub open spec fn spec_floor_played(floor: Seq<Placed>, at: int) -> Seq<Placed> {
    Seq::new(floor.len(), |i: int| spec_played(floor, at, i))
}

/// A card of the given type, new to the game, on a place of the row.
pub open spec fn spec_newcomer(card_type: BaseCards, id: u32, row: ShopSlots, slot: u8) -> Placed {
    Placed { card: Card::spec_new(card_type, id), slot: ShopSlot { row, id: slot } }
}

/// Fires the ability of card `at` as the card is played (see
/// [`spec_played`]). Replication, besides, puts a new Nanobot on the first
/// free place of the board, where one is free: the Nanobot takes the
/// identifier `next_card_id`, which then moves on, and becomes the last card
/// of the floor. Returns the place of the new card, where one was added.
pub fn played_trigger(floor: &mut Vec<Placed>, at: usize, next_card_id: &mut u32) -> (added: Option<
    u8,
>)
    requires
        at < old(floor).len(),
        *old(next_card_id) < u32::MAX,
    ensures
        match added {
            Some(slot) => {
                &&& old(floor)@[at as int].card.base_card.spec_ability() == Abilities::Replication
                &&& is_first_free(old(floor)@, ShopSlots::Board, BOARD_SLOTS, slot)
                &&& final(floor)@ == old(floor)@.push(
                    spec_newcomer(BaseCards::Rob1, *old(next_card_id), ShopSlots::Board, slot),
                )
                &&& *final(next_card_id) == *old(next_card_id) + 1
            },
            None => {
                &&& final(floor)@ == spec_floor_played(old(floor)@, at as int)
                &&& *final(next_card_id) == *old(next_card_id)
                &&& old(floor)@[at as int].card.base_card.spec_ability() == Abilities::Replication
                    ==> forall|slot: u8|
                    slot < BOARD_SLOTS ==> #[trigger] is_taken_in(
                        old(floor)@,
                        ShopSlots::Board,
                        slot,
                    )
            },
        },
{
    let ability = floor[at].card.base_card.ability();
    match ability {
        Abilities::SweetScent => {
            let mut i: usize = 0;
            while i < floor.len()
                invariant
                    i <= floor.len(),
                    at < floor.len(),
                    floor.len() == old(floor).len(),
                    floor@[at as int] == old(floor)@[at as int],
                    old(floor)@[at as int].card.base_card.spec_ability() == Abilities::SweetScent,
                    forall|j: int|
                        0 <= j < i ==> floor@[j] == spec_played(old(floor)@, at as int, j),
                    forall|j: int| i <= j < floor.len() ==> floor@[j] == old(floor)@[j],
                    forall|j: int|
                        0 <= j < floor.len() ==> is_ally(floor@, at as int, j, Families::Mushrooms)
                            == is_ally(old(floor)@, at as int, j, Families::Mushrooms),
                decreases floor.len() - i,
            {
                if ally(floor, at, i, Families::Mushrooms) {
                    let more = buffed(floor[i], 1, 1);
                    floor[i] = more;
                }
                i += 1;
            }
            proof {
                assert(floor@ =~= spec_floor_played(old(floor)@, at as int));
            }
            None
        },
        Abilities::Cooperation => {
            let spiders = allies(floor, at, Families::Spiders, false);
            let more = buffed(floor[at], spiders, 0);
            floor[at] = more;
            proof {
                assert(floor@ =~= spec_floor_played(old(floor)@, at as int));
            }
            None
        },
        Abilities::Scanner => {
            let robots = allies(floor, at, Families::Robots, false);
            let more = buffed(floor[at], robots, robots);
            floor[at] = more;
            proof {
                assert(floor@ =~= spec_floor_played(old(floor)@, at as int));
            }
            None
        },
        Abilities::Replication => {
            proof {
                assert(floor@ =~= spec_floor_played(old(floor)@, at as int));
            }
            match free_slot(floor, ShopSlots::Board, BOARD_SLOTS) {
                Some(slot) => {
                    floor.push(
                        Placed {
                            card: Card::new(BaseCards::Rob1, *next_card_id),
                            slot: ShopSlot { row: ShopSlots::Board, id: slot },
                        },
                    );
                    *next_card_id = *next_card_id + 1;
                    Some(slot)
                },
                None => None,
            }
        },
        _ => {
            proof {
                assert(floor@ =~= spec_floor_played(old(floor)@, at as int));
            }
            None
        },
    }
}

/// Puts a new card of the given type on the first free place of the row
/// among its first `slots` places, where one is free. The card takes the
/// identifier `next_card_id`, which then moves on, and becomes the last card
/// of the floor. Returns the place of the new card, where one was added.
pub fn add_newcomer(
    floor: &mut Vec<Placed>,
    card_type: BaseCards,
    row: ShopSlots,
    slots: u8,
    next_card_id: &mut u32,
) -> (added: Option<u8>)
    requires
        *old(next_card_id) < u32::MAX,
    ensures
        match added {
            Some(slot) => {
                &&& is_first_free(old(floor)@, row, slots, slot)
                &&& final(floor)@ == old(floor)@.push(
                    spec_newcomer(card_type, *old(next_card_id), row, slot),
                )
                &&& *final(next_card_id) == *old(next_card_id) + 1
            },
            None => {
                &&& final(floor)@ == old(floor)@
                &&& *final(next_card_id) == *old(next_card_id)
                &&& forall|slot: u8| slot < slots ==> #[trigger] is_taken_in(old(floor)@, row, slot)
            },
        },
{
    match free_slot(floor, row, slots) {
        Some(slot) => {
            floor.push(
                Placed {
                    card: Card::new(card_type, *next_card_id),
                    slot: ShopSlot { row, id: slot },
                },
            );
            *next_card_id = *next_card_id + 1;
            Some(slot)
        },
        None => None,
    }
}

/// The places in the floor of the cards that lie on the board, in order.
pub open spec fn spec_on_board(floor: Seq<Placed>) -> Seq<usize>
    decreases floor.len(),
{
    if floor.len() == 0 {
        seq![]
    } else if floor.last().slot.row == ShopSlots::Board {
        spec_on_board(floor.drop_last()).push((floor.len() - 1) as usize)
    } else {
        spec_on_board(floor.drop_last())
    }
}

pub fn on_board(floor: &Vec<Placed>) -> (places: Vec<usize>)
    ensures
        places@ == spec_on_board(floor@),
        places.len() <= floor.len(),
        forall|k: int|
            0 <= k < places.len() ==> (#[trigger] places[k]) < floor.len()
                && floor@[places[k] as int].slot.row == ShopSlots::Board,
{
    let mut places: Vec<usize> = Vec::new();
    let mut i: usize = 0;
    while i < floor.len()
        invariant
            i <= floor.len(),
            places.len() <= i,
            places@ == spec_on_board(floor@.take(i as int)),
            forall|k: int|
                0 <= k < places.len() ==> (#[trigger] places[k]) < i
                    && floor@[places[k] as int].slot.row == ShopSlots::Board,
        decreases floor.len() - i,
    {
        proof {
            assert(floor@.take(i as int + 1).drop_last() == floor@.take(i as int));
        }
        if floor[i].slot.row == ShopSlots::Board {
            places.push(i);
        }
        i += 1;
    }
    proof {
        assert(floor@.take(i as int) == floor@);
    }
    places
}

/// The floor once each of `picks`, in order, has given 1 hit point to the
/// card at the place that it names.
pub open spec fn spec_shared(floor: Seq<Placed>, picks: Seq<usize>) -> Seq<Placed>
    decreases picks.len(),
{
    if picks.len() == 0 {
        floor
    } else {
        let before = spec_shared(floor, picks.drop_last());
        let to = picks.last() as int;
        before.update(to, spec_buffed(before[to], 1, 0))
    }
}

/// Whether the floor went from `floor` to `after`, the next free identifier
/// from `next_card_id` to `next_after`, and `added` was returned, as when the
/// ability of the card `sold` fires as the card is sold:
/// - Sporocarp puts a mushroom on the first free place of the hand, where one
///   is free;
/// - Altruism hands out the hit points of the card one by one, each to a
///   card of the board, where the board has a card;
/// - no other ability does anything.
pub open spec fn is_sold(
    floor: Seq<Placed>,
    sold: Card,
    next_card_id: u32,
    after: Seq<Placed>,
    next_after: u32,
    added: Option<u8>,
) -> bool {
    match sold.base_card.spec_ability() {
        Abilities::Sporocarp => match added {
            Some(slot) => {
                &&& is_first_free(floor, ShopSlots::Hand, HAND_SLOTS, slot)
                &&& exists|roll: int|
                    0 <= roll < 8 && after == floor.push(
                        #[trigger] spec_newcomer(
                            BaseCards::spec_mush(roll),
                            next_card_id,
                            ShopSlots::Hand,
                            slot,
                        ),
                    )
                &&& next_after == next_card_id + 1
            },
            None => {
                &&& after == floor
                &&& next_after == next_card_id
                &&& forall|slot: u8|
                    slot < HAND_SLOTS ==> #[trigger] is_taken_in(floor, ShopSlots::Hand, slot)
            },
        },
        Abilities::Altruism => {
            &&& added is None
            &&& next_after == next_card_id
            &&& exists|picks: Seq<usize>|
                {
                    &&& #[trigger] spec_shared(floor, picks) == after
                    &&& picks.len() == if spec_on_board(floor).len() > 0 {
                        sold.hp as nat
                    } else {
                        0
                    }
                    &&& forall|k: int|
                        0 <= k < picks.len() ==> spec_on_board(floor).contains(#[trigger] picks[k])
                }
        },
        _ => after == floor && next_after == next_card_id && added is None,
    }
}

/// Fires the ability of the card `sold` as the card is sold: see
/// [`is_sold`]. `rng` picks the mushroom of Sporocarp, each being as likely
/// as the next, and for each hit point that Altruism hands out the card that
/// gets it, each card of the board being as likely as the next. Returns the
/// place of the new card, where one was added.
pub fn sold_trigger(
    floor: &mut Vec<Placed>,
    sold: Card,
    next_card_id: &mut u32,
    rng: &mut StdRng,
) -> (added: Option<u8>)
    requires
        *old(next_card_id) < u32::MAX,
    ensures
        is_sold(
            old(floor)@,
            sold,
            *old(next_card_id),
            final(floor)@,
            *final(next_card_id),
            added,
        ),
{
    match sold.base_card.ability() {
        Abilities::Sporocarp => {
            if free_slot(floor, ShopSlots::Hand, HAND_SLOTS).is_some() {
                let roll = gen_range(rng, 0, 8);
                let card_type = BaseCards::mush(roll);
                let added = add_newcomer(
                    floor,
                    card_type,
                    ShopSlots::Hand,
                    HAND_SLOTS,
                    next_card_id,
                );
                proof {
                    let slot = added->Some_0;
                    assert(final(floor)@ == old(floor)@.push(
                        spec_newcomer(
                            BaseCards::spec_mush(roll as int),
                            *old(next_card_id),
                            ShopSlots::Hand,
                            slot,
                        ),
                    )) by {
                        assert(floor@ == old(floor)@.push(
                            spec_newcomer(card_type, *old(next_card_id), ShopSlots::Hand, slot),
                        ));
                    }
                }
                added
            } else {
                None
            }
        },
        Abilities::Altruism => {
            let places = on_board(floor);
            let ghost mut picks: Seq<usize> = seq![];
            let mut given: u16 = 0;
            while given < sold.hp
                invariant
                    given <= sold.hp,
                    places@ == spec_on_board(old(floor)@),
                    floor.len() == old(floor).len(),
                    forall|k: int| 0 <= k < places.len() ==> (#[trigger] places[k]) < floor.len(),
                    picks.len() == if places.len() > 0 {
                        given as nat
                    } else {
                        0
                    },
                    floor@ == spec_shared(old(floor)@, picks),
                    forall|k: int|
                        0 <= k < picks.len() ==> spec_on_board(old(floor)@).contains(
                            #[trigger] picks[k],
                        ),
                decreases sold.hp - given,
            {
                match pick_one(&places, rng) {
                    Some(to) => {
                        proof {
                            let at = choose|at: int| 0 <= at < places.len() && places@[at] == to;
                            assert(places[at] < floor.len());
                        }
                        let more = buffed(floor[to], 1, 0);
                        floor[to] = more;
                        proof {
                            let longer = picks.push(to);
                            assert(longer.drop_last() == picks);
                            picks = longer;
                        }
                    },
                    None => {},
                }
                given += 1;
            }
            proof {
                assert(spec_shared(old(floor)@, picks) == floor@);
            }
            None
        },
        _ => None,
    }
}

/// The card that card `at` of the floor eats, where there is one (see
/// [`is_prey`]).
pub open spec fn spec_prey(floor: Seq<Placed>, at: int) -> Option<int> {
    if exists|prey: int| is_prey(floor, at, prey) {
        Some(choose|prey: int| is_prey(floor, at, prey))
    } else {
        None
    }
}

/// What card `i` of the floor becomes when the ability of card `at` fires at
/// the start of a turn, if it stays on the floor at all:
/// - Cannibalism: the card eats another spider of the board (see
///   [`is_prey`]), which leaves the floor, and gains its hit points and its
///   attack;
/// - Upgrade gives 1 hit point and 1 attack to the cards of the board on
///   the places beside that of its card;
/// - Upload takes 2 hit points from its card where the card lies on the
///   board, or the card itself from the floor where it has fewer than 3, and
///   gives 2 hit points to every other robot;
/// - Download takes 1 hit point and 1 attack from every other robot of the
///   board, which leaves the floor if that was its last hit point, and gives
///   to its card what it has taken;
/// - Slimy gives its card 1 hit point;
/// - Roots gives its card 1 hit point for every other mushroom of the
///   board;
/// - no other ability changes a card.
pub open spec fn spec_turned(floor: Seq<Placed>, at: int, i: int) -> Option<Placed> {
    let it = floor[i];
    match floor[at].card.base_card.spec_ability() {
        Abilities::Cannibalism => match spec_prey(floor, at) {
            Some(prey) => if i == at {
                Some(spec_buffed(it, floor[prey].card.hp as nat, floor[prey].card.atk as nat))
            } else if i == prey {
                None
            } else {
                Some(it)
            },
            None => Some(it),
        },
        Abilities::Upgrade => if it.slot.row == ShopSlots::Board && is_beside(
            it.slot.id,
            floor[at].slot.id,
        ) {
            Some(spec_buffed(it, 1, 1))
        } else {
            Some(it)
        },
        Abilities::Upload => if i == at {
            if it.card.hp < 3 {
                None
            } else if it.slot.row == ShopSlots::Board {
                Some(Placed { card: Card { hp: (it.card.hp - 2) as u16, ..it.card }, ..it })
            } else {
                Some(it)
            }
        } else if it.card.base_card.spec_family() == Families::Robots {
            Some(spec_buffed(it, 2, 0))
        } else {
            Some(it)
        },
        Abilities::Download => if i == at {
            Some(
                spec_buffed(
                    it,
                    spec_allies(floor, at, Families::Robots, false, floor.len()),
                    spec_allies(floor, at, Families::Robots, true, floor.len()),
                ),
            )
        } else if is_ally(floor, at, i, Families::Robots) {
            if it.card.hp <= 1 {
                None
            } else {
                Some(
                    Placed {
                        card: Card {
                            hp: (it.card.hp - 1) as u16,
                            atk: spec_lowered(it.card.atk, 1),
                            ..it.card
                        },
                        ..it
                    },
                )
            }
        } else {
            Some(it)
        },
        Abilities::Slimy => if i == at {
            Some(spec_buffed(it, 1, 0))
        } else {
            Some(it)
        },
        Abilities::Roots => if i == at {
            Some(
                spec_buffed(it, spec_allies(floor, at, Families::Mushrooms, false, floor.len()), 0),
            )
        } else {
            Some(it)
        },
        _ => Some(it),
    }
}

/// The cards of the first `upto` places of the floor that stay on it when
/// the ability of card `at` fires at the start of a turn, each as the ability
/// leaves it (see [`spec_turned`]).
pub open spec fn spec_floor_turned(floor: Seq<Placed>, at: int, upto: nat) -> Seq<Placed>
    decreases upto,
{
    if upto == 0 {
        seq![]
    } else {
        let before = spec_floor_turned(floor, at, (upto - 1) as nat);
        match spec_turned(floor, at, upto - 1) {
            Some(placed) => before.push(placed),
            None => before,
        }
    }
}

/// What card `i` of the floor becomes when the ability of card `at` fires at
/// the start of a turn. `prey` is the card that card `at` eats, `robots` and
/// `mushrooms` count its allies in these families, and `armed` those of the
/// robots that have attack.
fn turned(
    floor: &Vec<Placed>,
    at: usize,
    i: usize,
    prey: Option<usize>,
    robots: usize,
    armed: usize,
    mushrooms: usize,
) -> (after: Option<Placed>)
    requires
        at < floor.len(),
        i < floor.len(),
        match prey {
            Some(prey) => spec_prey(floor@, at as int) == Some(prey as int),
            None => spec_prey(floor@, at as int) is None,
        },
        robots == spec_allies(floor@, at as int, Families::Robots, false, floor@.len()),
        armed == spec_allies(floor@, at as int, Families::Robots, true, floor@.len()),
        mushrooms == spec_allies(floor@, at as int, Families::Mushrooms, false, floor@.len()),
    ensures
        after == spec_turned(floor@, at as int, i as int),
{
    let it = floor[i];
    let bearer = floor[at];
    match bearer.card.base_card.ability() {
        Abilities::Cannibalism => match prey {
            Some(prey) => if i == at {
                Some(buffed(it, floor[prey].card.hp as usize, floor[prey].card.atk as usize))
            } else if i == prey {
                None
            } else {
                Some(it)
            },
            None => Some(it),
        },
        Abilities::Upgrade => {
            let beside = (bearer.slot.id < u8::MAX && it.slot.id == bearer.slot.id + 1) || (
            it.slot.id < u8::MAX && it.slot.id + 1 == bearer.slot.id);
            if it.slot.row == ShopSlots::Board && beside {
                Some(buffed(it, 1, 1))
            } else {
                Some(it)
            }
        },
        Abilities::Upload => if i == at {
            if it.card.hp < 3 {
                None
            } else if it.slot.row == ShopSlots::Board {
                Some(Placed { card: Card { hp: it.card.hp - 2, ..it.card }, slot: it.slot })
            } else {
                Some(it)
            }
        } else if it.card.base_card.family() == Families::Robots {
            Some(buffed(it, 2, 0))
        } else {
            Some(it)
        },
        Abilities::Download => if i == at {
            Some(buffed(it, robots, armed))
        } else if ally(floor, at, i, Families::Robots) {
            if it.card.hp <= 1 {
                None
            } else {
                Some(
                    Placed {
                        card: Card { hp: it.card.hp - 1, atk: lowered(it.card.atk, 1), ..it.card },
                        slot: it.slot,
                    },
                )
            }
        } else {
            Some(it)
        },
        Abilities::Slimy => if i == at {
            Some(buffed(it, 1, 0))
        } else {
            Some(it)
        },
        Abilities::Roots => if i == at {
            Some(buffed(it, mushrooms, 0))
        } else {
            Some(it)
        },
        _ => Some(it),
    }
}

/// Fires the ability of card `at` at the start of a turn, as far as it
/// changes the cards of the floor or takes some off (see [`spec_turned`]).
pub fn turn_cards(floor: &mut Vec<Placed>, at: usize)
    requires
        at < old(floor).len(),
    ensures
        final(floor)@ == spec_floor_turned(old(floor)@, at as int, old(floor)@.len()),
        final(floor).len() <= old(floor).len(),
{
    let prey = find_prey(floor, at);
    proof {
        match prey {
            Some(prey) => {
                lemma_prey_is_one(
                    floor@,
                    at as int,
                    prey as int,
                    choose|other: int| is_prey(floor@, at as int, other),
                );
            },
            None => {
                assert forall|other: int| !is_prey(floor@, at as int, other) by {
                    if is_prey(floor@, at as int, other) {
                        assert(is_ally(floor@, at as int, other, Families::Spiders));
                    }
                }
            },
        }
    }
    let robots = allies(floor, at, Families::Robots, false);
    let armed = allies(floor, at, Families::Robots, true);
    let mushrooms = allies(floor, at, Families::Mushrooms, false);
    let mut left: Vec<Placed> = Vec::new();
    let mut i: usize = 0;
    while i < floor.len()
        invariant
            i <= floor.len(),
            at < floor.len(),
            floor@ == old(floor)@,
            left.len() <= i,
            left@ == spec_floor_turned(floor@, at as int, i as nat),
            match prey {
                Some(prey) => spec_prey(floor@, at as int) == Some(prey as int),
                None => spec_prey(floor@, at as int) is None,
            },
            robots == spec_allies(floor@, at as int, Families::Robots, false, floor@.len()),
            armed == spec_allies(floor@, at as int, Families::Robots, true, floor@.len()),
            mushrooms == spec_allies(floor@, at as int, Families::Mushrooms, false, floor@.len()),
        decreases floor.len() - i,
    {
        match turned(floor, at, i, prey, robots, armed, mushrooms) {
            Some(placed) => {
                left.push(placed);
            },
            None => {},
        }
        i += 1;
    }
    *floor = left;
}

/// How many cards of the floor lie on the board.
pub fn board_size(floor: &Vec<Placed>) -> (size: usize)
    ensures
        size == spec_on_board(floor@).len(),
{
    on_board(floor).len()
}

/// Whether the floor went from `floor` to `after`, the next free identifier
/// from `next_card_id` to `next_after`, and `added` and `payment` were
/// returned, as when the ability of card `at` fires at the start of a turn:
/// - Spawn puts a spider of the first rank on the board, on the place after
///   its last card, while the board has fewer than [`BOARD_SLOTS`] cards;
/// - Gold Mine pays the player 1 gold, which may go past the limit of the
///   turn;
/// - any other ability does to the cards what [`spec_turned`] tells.
pub open spec fn is_turned(
    floor: Seq<Placed>,
    at: int,
    next_card_id: u32,
    after: Seq<Placed>,
    next_after: u32,
    added: Option<u8>,
    payment: Option<CoinsDiff>,
) -> bool {
    let ability = floor[at].card.base_card.spec_ability();
    let cards = spec_on_board(floor).len();
    &&& payment == if ability == Abilities::GoldMine {
        Some(CoinsDiff(-1i8, true))
    } else {
        None
    }
    &&& if ability == Abilities::Spawn && cards < BOARD_SLOTS {
        &&& added == Some(cards as u8)
        &&& next_after == next_card_id + 1
        &&& after == floor.push(
            spec_newcomer(BaseCards::Spid1, next_card_id, ShopSlots::Board, cards as u8),
        ) || after == floor.push(
            spec_newcomer(BaseCards::Spid2, next_card_id, ShopSlots::Board, cards as u8),
        )
    } else {
        &&& added is None
        &&& next_after == next_card_id
        &&& after == spec_floor_turned(floor, at, floor.len())
    }
}

/// Fires the ability of card `at` at the start of a turn: see
/// [`is_turned`]. `rng` picks the spider of Spawn, each of the two being as
/// likely as the other. Returns the place of the new card, where one was
/// added, and the payment to make, where there is one.
pub fn turn_trigger(
    floor: &mut Vec<Placed>,
    at: usize,
    next_card_id: &mut u32,
    rng: &mut StdRng,
) -> (done: (Option<u8>, Option<CoinsDiff>))
    requires
        at < old(floor).len(),
        *old(next_card_id) < u32::MAX,
    ensures
        is_turned(
            old(floor)@,
            at as int,
            *old(next_card_id),
            final(floor)@,
            *final(next_card_id),
            done.0,
            done.1,
        ),
{
    let ability = floor[at].card.base_card.ability();
    let payment = match ability {
        Abilities::GoldMine => Some(CoinsDiff(-1, true)),
        _ => None,
    };
    let cards = board_size(floor);
    if ability == Abilities::Spawn && cards < BOARD_SLOTS as usize {
        let base_card = if gen_flag(rng) {
            BaseCards::Spid1
        } else {
            BaseCards::Spid2
        };
        floor.push(
            Placed {
                card: Card::new(base_card, *next_card_id),
                slot: ShopSlot { row: ShopSlots::Board, id: cards as u8 },
            },
        );
        *next_card_id = *next_card_id + 1;
        (Some(cards as u8), payment)
    } else {
        turn_cards(floor, at);
        (None, payment)
    }
}

} // verus!
