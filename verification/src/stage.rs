use vstd::prelude::*;

verus! {

/// The two sides of a fight, as the player at the screen sees them.
#[derive(Copy, Clone, Debug, PartialEq, Eq, Structural)]
pub enum FightPlayers {
    MySelf,
    MyFoe,
}

/// The four rows of the stage: the row where each side's cards wait, and the
/// row before it, to which a card of the other side comes to strike.
#[derive(Copy, Clone, Debug, PartialEq, Eq, Structural)]
pub enum FightSlotHeight {
    MySelf,
    MyFoe,
    /// Before my row: a card of my foe stands here while it strikes.
    FightingMySelf,
    /// Before my foe's row: a card of mine stands here while it strikes.
    FightingMyFoe,
}

/// A place on the stage.
#[derive(Copy, Clone, Debug, PartialEq, Eq, Structural)]
pub struct FightSlot {
    pub who: FightSlotHeight,
    pub index: u8,
}

/// Whether the fight ended the game, and how.
#[derive(Copy, Clone, Debug, PartialEq, Eq, Structural)]
pub struct Won(pub bool);

pub open spec fn spec_to_base_height(p: FightPlayers) -> FightSlotHeight {
    match p {
        FightPlayers::MySelf => FightSlotHeight::MySelf,
        FightPlayers::MyFoe => FightSlotHeight::MyFoe,
    }
}

/// The row where the cards of `p` wait.
pub fn to_base_height(p: FightPlayers) -> (height: FightSlotHeight)
    ensures
        height == spec_to_base_height(p),
{
    match p {
        FightPlayers::MySelf => FightSlotHeight::MySelf,
        FightPlayers::MyFoe => FightSlotHeight::MyFoe,
    }
}

pub open spec fn spec_to_fighting_height(p: FightPlayers) -> FightSlotHeight {
    match p {
        FightPlayers::MySelf => FightSlotHeight::FightingMyFoe,
        FightPlayers::MyFoe => FightSlotHeight::FightingMySelf,
    }
}

/// The row to which a card of `p` comes to strike: the one before the other
/// side's.
pub fn to_fighting_height(p: FightPlayers) -> (height: FightSlotHeight)
    ensures
        height == spec_to_fighting_height(p),
{
    match p {
        FightPlayers::MySelf => FightSlotHeight::FightingMyFoe,
        FightPlayers::MyFoe => FightSlotHeight::FightingMySelf,
    }
}

pub open spec fn spec_to_owner(s: FightSlotHeight) -> FightPlayers {
    match s {
        FightSlotHeight::MySelf => FightPlayers::MySelf,
        FightSlotHeight::MyFoe => FightPlayers::MyFoe,
        FightSlotHeight::FightingMySelf => FightPlayers::MyFoe,
        FightSlotHeight::FightingMyFoe => FightPlayers::MySelf,
    }
}

/// The side whose cards stand in the row.
pub fn to_owner(s: FightSlotHeight) -> (owner: FightPlayers)
    ensures
        owner == spec_to_owner(s),
{
    match s {
        FightSlotHeight::MySelf => FightPlayers::MySelf,
        FightSlotHeight::MyFoe => FightPlayers::MyFoe,
        FightSlotHeight::FightingMySelf => FightPlayers::MyFoe,
        FightSlotHeight::FightingMyFoe => FightPlayers::MySelf,
    }
}

pub open spec fn spec_other_player(p: FightPlayers) -> FightPlayers {
    match p {
        FightPlayers::MySelf => FightPlayers::MyFoe,
        FightPlayers::MyFoe => FightPlayers::MySelf,
    }
}

/// The side that `p` fights.
pub fn other_player(p: FightPlayers) -> (other: FightPlayers)
    ensures
        other == spec_other_player(p),
{
    match p {
        FightPlayers::MySelf => FightPlayers::MyFoe,
        FightPlayers::MyFoe => FightPlayers::MySelf,
    }
}

/// A card stays its owner's wherever it stands: in the row where it waits
/// and in the row where it strikes. And each side is the other's other.
pub proof fn lemma_rows_keep_owners(p: FightPlayers)
    ensures
        spec_to_owner(spec_to_base_height(p)) == p,
        spec_to_owner(spec_to_fighting_height(p)) == p,
        spec_to_base_height(p) != spec_to_fighting_height(p),
        spec_other_player(spec_other_player(p)) == p,
        spec_other_player(p) != p,
{
}

/// The side of the player `player_id`, for the player `my_id` at the screen.
pub fn side_of(player_id: u16, my_id: u16) -> (side: FightPlayers)
    ensures
        side == if player_id == my_id {
            FightPlayers::MySelf
        } else {
            FightPlayers::MyFoe
        },
{
    if player_id == my_id {
        FightPlayers::MySelf
    } else {
        FightPlayers::MyFoe
    }
}

/// The way of a card that strikes: from its place in its owner's row to the
/// place before the card that it strikes.
pub fn attack_path(att: FightPlayers, att_card_index: u8, def_card_index: u8) -> (path: (
    FightSlot,
    FightSlot,
))
    ensures
        path.0 == (FightSlot { who: spec_to_base_height(att), index: att_card_index }),
        path.1 == (FightSlot { who: spec_to_fighting_height(att), index: def_card_index }),
{
    (
        FightSlot { who: to_base_height(att), index: att_card_index },
        FightSlot { who: to_fighting_height(att), index: def_card_index },
    )
}

/// Whether the place `index` is taken.
pub open spec fn is_used(used: Seq<u8>, index: int) -> bool {
    exists|i: int| 0 <= i < used.len() && used[i] == index
}

/// The first place that is not taken.
pub fn first_free(used: &Vec<u8>) -> (free: u8)
    requires
        used.len() <= u8::MAX,
    ensures
        !is_used(used@, free as int),
        forall|before: int| 0 <= before < free ==> is_used(used@, before),
{
    let mut free: u8 = 0;
    let ghost mut witness: Seq<int> = seq![];
    loop
        invariant
            used.len() <= u8::MAX,
            witness.len() == free,
            forall|before: int|
                0 <= before < free ==> 0 <= #[trigger] witness[before] < used.len()
                    && used@[witness[before]] == before,
        ensures
            !is_used(used@, free as int),
            forall|before: int| 0 <= before < free ==> is_used(used@, before),
        decreases u8::MAX - free,
    {
        let mut i: usize = 0;
        let mut found = false;
        while i < used.len()
            invariant_except_break
                !found,
                forall|j: int| 0 <= j < i ==> used@[j] != free,
            invariant
                i <= used.len(),
            ensures
                found ==> i < used.len() && used@[i as int] == free,
                !found ==> forall|j: int| 0 <= j < used.len() ==> used@[j] != free,
            decreases used.len() - i,
        {
            if used[i] == free {
                found = true;
                break;
            }
            i += 1;
        }
        if !found {
            proof {
                assert forall|before: int| 0 <= before < free implies is_used(used@, before) by {
                    assert(used@[witness[before]] == before);
                }
            }
            break;
        }
        proof {
            // The places below `free` and `free` itself are taken by
            // different entries, so there are more entries than places taken.
            witness = witness.push(i as int);
            lemma_places_need_entries(used@, witness);
        }
        free += 1;
    }
    free
}

/// Where each of the places from 0 up to a bound is taken by an entry, there
/// are as many entries as places at least.
pub proof fn lemma_places_need_entries(used: Seq<u8>, witness: Seq<int>)
    requires
        forall|place: int|
            0 <= place < witness.len() ==> 0 <= #[trigger] witness[place] < used.len()
                && used[witness[place]] == place,
    ensures
        witness.len() <= used.len(),
    decreases used.len(),
{
    if witness.len() > 0 {
        if used.len() == 0 {
            assert(0 <= witness[0] < used.len());
        } else {
            // Drop the last entry, and the place that it takes, if any: the
            // place above moves down into the gap.
            let last = used.len() - 1;
            let place = used[last] as int;
            let rest = used.drop_last();
            if place < witness.len() {
                let top = witness.len() - 1;
                let fewer = Seq::new(
                    top as nat,
                    |p: int|
                        if p == place {
                            witness[top]
                        } else {
                            witness[p]
                        },
                );
                let moved = Seq::new(
                    rest.len(),
                    |i: int|
                        if place < top && i == witness[top] {
                            place as u8
                        } else {
                            rest[i]
                        },
                );
                assert forall|p: int| 0 <= p < fewer.len() implies 0 <= #[trigger] fewer[p]
                    < moved.len() && moved[fewer[p]] == p by {
                    assert(0 <= witness[p] < used.len());
                    assert(0 <= witness[top] < used.len());
                    assert(used[witness[top]] == top);
                    if p == place {
                        assert(witness[top] != last);
                    } else {
                        assert(used[witness[p]] == p);
                        assert(witness[p] != last);
                        assert(witness[p] != witness[top]);
                    }
                }
                lemma_places_need_entries(moved, fewer);
            } else {
                assert forall|p: int| 0 <= p < witness.len() implies 0 <= #[trigger] witness[p]
                    < rest.len() && rest[witness[p]] == p by {
                    assert(used[witness[p]] == p);
                }
                lemma_places_need_entries(rest, witness);
            }
        }
    }
}

/// How many of the places of `removed` stand in the row of `slot`, before
/// it.
pub open spec fn spec_removed_before(slot: FightSlot, removed: Seq<FightSlot>) -> nat
    decreases removed.len(),
{
    if removed.len() == 0 {
        0
    } else {
        let rest = spec_removed_before(slot, removed.drop_last());
        if removed.last().who == slot.who && removed.last().index < slot.index {
            rest + 1
        } else {
            rest
        }
    }
}

pub fn removed_before(slot: FightSlot, removed: &Vec<FightSlot>) -> (count: usize)
    ensures
        count == spec_removed_before(slot, removed@),
{
    let mut count: usize = 0;
    let mut i: usize = 0;
    while i < removed.len()
        invariant
            i <= removed.len(),
            count <= i,
            count == spec_removed_before(slot, removed@.take(i as int)),
        decreases removed.len() - i,
    {
        proof {
            assert(removed@.take(i as int + 1).drop_last() == removed@.take(i as int));
        }
        if removed[i].who == slot.who && removed[i].index < slot.index {
            count += 1;
        }
        i += 1;
    }
    proof {
        assert(removed@.take(i as int) == removed@);
    }
    count
}

/// Where a card moves to when the cards on the places of `removed` have
/// left the stage: it closes up by as many places as were freed before it in
/// its row.
pub fn shifted(slot: FightSlot, removed: &Vec<FightSlot>) -> (to: FightSlot)
    requires
        spec_removed_before(slot, removed@) <= slot.index,
    ensures
        to.who == slot.who,
        to.index == slot.index - spec_removed_before(slot, removed@),
{
    let before = removed_before(slot, removed);
    FightSlot { who: slot.who, index: slot.index - before as u8 }
}

/// Whether no foe has hit points left.
pub open spec fn foes_are_down(foes_hp: Seq<u16>) -> bool {
    forall|i: int| 0 <= i < foes_hp.len() ==> foes_hp[i] == 0
}

/// What follows a fight. The game is over once the player has no hit points
/// left, or no foe has any; the player has won it in the second case. In any
/// other case the game goes on in the shop, and nothing is returned.
pub fn after_fight(my_hp: u16, foes_hp: &Vec<u16>) -> (over: Option<Won>)
    ensures
        over is Some <==> my_hp == 0 || foes_are_down(foes_hp@),
        over matches Some(won) ==> won.0 == foes_are_down(foes_hp@),
{
    let dead = my_hp == 0;
    let mut last_alive = true;
    let mut i: usize = 0;
    while i < foes_hp.len()
        invariant_except_break
            last_alive,
            forall|j: int| 0 <= j < i ==> foes_hp@[j] == 0,
        invariant
            i <= foes_hp.len(),
        ensures
            last_alive == foes_are_down(foes_hp@),
        decreases foes_hp.len() - i,
    {
        if foes_hp[i] > 0 {
            last_alive = false;
            break;
        }
        i += 1;
    }
    if dead || last_alive {
        Some(Won(last_alive))
    } else {
        None
    }
}

} // verus!
