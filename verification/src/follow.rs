use crate::card::Card;
use crate::events::CombatEvents;
use crate::player::PlayerData;
use vstd::prelude::*;

verus! {

/// `stat` changed by `change`, kept within what a `u16` holds.
pub open spec fn spec_shift_stat(stat: u16, change: i32) -> u16 {
    if stat + change < 0 {
        0
    } else if stat + change > u16::MAX {
        u16::MAX
    } else {
        (stat + change) as u16
    }
}

pub fn shift_stat(stat: u16, change: i32) -> (shifted: u16)
    ensures
        shifted == spec_shift_stat(stat, change),
{
    let sum: i64 = stat as i64 + change as i64;
    if sum < 0 {
        0
    } else if sum > u16::MAX as i64 {
        u16::MAX
    } else {
        sum as u16
    }
}

/// `card` with its stats changed by `hp` and `at`.
pub open spec fn spec_with_change(card: Card, hp: i32, at: i32) -> Card {
    Card { hp: spec_shift_stat(card.hp, hp), atk: spec_shift_stat(card.atk, at), ..card }
}

/// `board` without the cards that carry the identifier `id`.
pub open spec fn without_card(board: Seq<Card>, id: u32) -> Seq<Card>
    decreases board.len(),
{
    if board.len() == 0 {
        board
    } else if board.last().id == id {
        without_card(board.drop_last(), id)
    } else {
        without_card(board.drop_last(), id).push(board.last())
    }
}

/// `board` with the stats of the cards that carry the identifier `id`
/// changed by `hp` and `at`.
pub open spec fn with_stats_change(board: Seq<Card>, id: u32, hp: i32, at: i32) -> Seq<Card> {
    Seq::new(
        board.len(),
        |i: int|
            if board[i].id == id {
                spec_with_change(board[i], hp, at)
            } else {
                board[i]
            },
    )
}

/// The board of `owner` as a reader of the log sees it after an entry, who
/// saw it as `board` before. A strike at a card of the board leaves the card
/// the hit points that the entry tells; a death of one takes the card off the
/// board; a change of stats is added to the stats. No other entry changes
/// the board.
pub open spec fn board_followed(owner: u16, board: Seq<Card>, event: CombatEvents) -> Seq<Card> {
    match event {
        CombatEvents::Attack { def_id, def_card_index, def_hp, .. } => if def_id == owner
            && def_card_index < board.len() {
            board.update(
                def_card_index as int,
                Card { hp: def_hp, ..board[def_card_index as int] },
            )
        } else {
            board
        },
        CombatEvents::Death { player_id, card_id } => if player_id == owner {
            without_card(board, card_id)
        } else {
            board
        },
        CombatEvents::StatsChange { player_id, card_id, hp, at } => if player_id == owner {
            with_stats_change(board, card_id, hp, at)
        } else {
            board
        },
        _ => board,
    }
}

/// The hit points of the player `owner` after an entry: the verdict of a
/// fight that the other player has won changes them.
pub open spec fn hp_followed(owner: u16, hp: u16, event: CombatEvents) -> u16 {
    match event {
        CombatEvents::PlayersAttack { att_id, change_def_hp } => if att_id != owner {
            spec_shift_stat(hp, change_def_hp)
        } else {
            hp
        },
        _ => hp,
    }
}

/// The gold that the player `owner` has won in fights, after an entry.
pub open spec fn gold_followed(owner: u16, extra_coins: u16, event: CombatEvents) -> u16 {
    match event {
        CombatEvents::GoldChange { player_id, change } => if player_id == owner {
            spec_shift_stat(extra_coins, change)
        } else {
            extra_coins
        },
        _ => extra_coins,
    }
}

/// The board of `owner` after the entries of `log`, read in order.
pub open spec fn board_followed_all(owner: u16, board: Seq<Card>, log: Seq<CombatEvents>) -> Seq<
    Card,
>
    decreases log.len(),
{
    if log.len() == 0 {
        board
    } else {
        board_followed(owner, board_followed_all(owner, board, log.drop_last()), log.last())
    }
}

/// The hit points of the player `owner` after the entries of `log`.
pub open spec fn hp_followed_all(owner: u16, hp: u16, log: Seq<CombatEvents>) -> u16
    decreases log.len(),
{
    if log.len() == 0 {
        hp
    } else {
        hp_followed(owner, hp_followed_all(owner, hp, log.drop_last()), log.last())
    }
}

/// The gold that the player `owner` has won in fights, after the entries of
/// `log`.
pub open spec fn gold_followed_all(owner: u16, extra_coins: u16, log: Seq<CombatEvents>) -> u16
    decreases log.len(),
{
    if log.len() == 0 {
        extra_coins
    } else {
        gold_followed(owner, gold_followed_all(owner, extra_coins, log.drop_last()), log.last())
    }
}

impl PlayerData {
    /// Whether `after` is this player once they have read the entry: their
    /// board, their hit points and the gold won are those of [`board_followed`],
    /// [`hp_followed`] and [`gold_followed`], and nothing else has changed.
    pub open spec fn is_followed(self, event: CombatEvents, after: PlayerData) -> bool {
        &&& after.board@ == board_followed(self.id, self.board@, event)
        &&& after.hp == hp_followed(self.id, self.hp, event)
        &&& after.extra_coins == gold_followed(self.id, self.extra_coins, event)
        &&& after.id == self.id
        &&& after.name == self.name
        &&& after.hand == self.hand
        &&& after.coins == self.coins
        &&& after.shop_level == self.shop_level
        &&& after.ia == self.ia
    }

    /// Takes the cards that carry the identifier `id` off the board.
    fn drop_card(&mut self, id: u32)
        ensures
            final(self).board@ == without_card(old(self).board@, id),
            final(self).same_but_board(*old(self)),
    {
        let ghost before = self.board@;
        let mut left: Vec<Card> = Vec::new();
        let mut i: usize = 0;
        while i < self.board.len()
            invariant
                i <= self.board.len(),
                self.board@ == before,
                left@ == without_card(before.take(i as int), id),
            decreases self.board.len() - i,
        {
            proof {
                assert(before.take(i as int + 1).drop_last() == before.take(i as int));
            }
            if self.board[i].id != id {
                left.push(self.board[i]);
            }
            i += 1;
        }
        proof {
            assert(before.take(i as int) == before);
        }
        self.board = left;
    }

    /// Changes the stats of the cards of the board that carry the identifier
    /// `id`.
    fn change_stats(&mut self, id: u32, hp: i32, at: i32)
        ensures
            final(self).board@ == with_stats_change(old(self).board@, id, hp, at),
            final(self).same_but_board(*old(self)),
    {
        let ghost before = self.board@;
        let mut i: usize = 0;
        while i < self.board.len()
            invariant
                i <= self.board.len(),
                self.board.len() == before.len(),
                self.same_but_board(*old(self)),
                old(self).board@ == before,
                forall|j: int|
                    0 <= j < i ==> self.board@[j] == with_stats_change(before, id, hp, at)[j],
                forall|j: int| i <= j < before.len() ==> self.board@[j] == before[j],
            decreases self.board.len() - i,
        {
            let card = self.board[i];
            if card.id == id {
                self.board[i].hp = shift_stat(card.hp, hp);
                self.board[i].atk = shift_stat(card.atk, at);
            }
            i += 1;
        }
        proof {
            assert(self.board@ =~= with_stats_change(before, id, hp, at));
        }
    }

    /// Takes note of an entry of the log of a fight that the player is in:
    /// their board, their hit points and the gold that they have won become
    /// what the entry makes of them.
    pub fn follow(&mut self, event: &CombatEvents)
        ensures
            old(self).is_followed(*event, *final(self)),
    {
        match *event {
            CombatEvents::Attack { att_id, att_card_index, def_id, def_card_index, def_hp } => {
                if def_id == self.id && (def_card_index as usize) < self.board.len() {
                    self.board[def_card_index as usize].hp = def_hp;
                }
            },
            CombatEvents::Death { player_id, card_id } => {
                if player_id == self.id {
                    self.drop_card(card_id);
                }
            },
            CombatEvents::StatsChange { player_id, card_id, hp, at } => {
                if player_id == self.id {
                    self.change_stats(card_id, hp, at);
                }
            },
            CombatEvents::ApplyAbility { card_index, player_id, ability, card_id } => {},
            CombatEvents::GoldChange { player_id, change } => {
                if player_id == self.id {
                    self.extra_coins = shift_stat(self.extra_coins, change);
                }
            },
            CombatEvents::PlayersAttack { att_id, change_def_hp } => {
                if att_id != self.id {
                    self.hp = shift_stat(self.hp, change_def_hp);
                }
            },
        }
    }

    /// Takes note of the log of a fight that the player was in, entry by
    /// entry.
    pub fn follow_all(&mut self, events: &Vec<CombatEvents>)
        ensures
            final(self).board@ == board_followed_all(old(self).id, old(self).board@, events@),
            final(self).hp == hp_followed_all(old(self).id, old(self).hp, events@),
            final(self).extra_coins == gold_followed_all(
                old(self).id,
                old(self).extra_coins,
                events@,
            ),
            final(self).id == old(self).id,
            final(self).name == old(self).name,
            final(self).hand == old(self).hand,
            final(self).coins == old(self).coins,
            final(self).shop_level == old(self).shop_level,
            final(self).ia == old(self).ia,
    {
        let mut i: usize = 0;
        while i < events.len()
            invariant
                i <= events.len(),
                self.board@ == board_followed_all(
                    old(self).id,
                    old(self).board@,
                    events@.take(i as int),
                ),
                self.hp == hp_followed_all(old(self).id, old(self).hp, events@.take(i as int)),
                self.extra_coins == gold_followed_all(
                    old(self).id,
                    old(self).extra_coins,
                    events@.take(i as int),
                ),
                self.id == old(self).id,
                self.name == old(self).name,
                self.hand == old(self).hand,
                self.coins == old(self).coins,
                self.shop_level == old(self).shop_level,
                self.ia == old(self).ia,
            decreases events.len() - i,
        {
            proof {
                assert(events@.take(i as int + 1).drop_last() == events@.take(i as int));
            }
            self.follow(&events[i]);
            i += 1;
        }
        proof {
            assert(events@.take(i as int) == events@);
        }
    }
}

} // verus!
