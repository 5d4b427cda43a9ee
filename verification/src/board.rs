use crate::card::Card;
use crate::util::spec_lowered;
use vstd::prelude::*;

verus! {

/// The cards of `board` that have hit points left, in their order.
pub open spec fn survivors(board: Seq<Card>) -> Seq<Card>
    decreases board.len(),
{
    if board.len() == 0 {
        board
    } else if board.last().hp > 0 {
        survivors(board.drop_last()).push(board.last())
    } else {
        survivors(board.drop_last())
    }
}

/// `board` with every card `amount` hit points lower, none below zero.
pub open spec fn blasted(board: Seq<Card>, amount: u16) -> Seq<Card> {
    Seq::new(board.len(), |i: int| Card { hp: spec_lowered(board[i].hp, amount), ..board[i] })
}

/// Whether every card of `board` has hit points left.
pub open spec fn is_alive(board: Seq<Card>) -> bool {
    forall|i: int| 0 <= i < board.len() ==> (#[trigger] board[i]).hp > 0
}

/// Whether a card of `board` carries the identifier `id`.
pub open spec fn holds_card(board: Seq<Card>, id: u32) -> bool {
    exists|i: int| 0 <= i < board.len() && board[i].id == id
}

/// Whether `index` is the place of the first card of `board` that carries
/// the identifier `id`.
pub open spec fn is_card_position(board: Seq<Card>, id: u32, index: int) -> bool {
    &&& 0 <= index < board.len()
    &&& board[index].id == id
    &&& forall|j: int| 0 <= j < index ==> board[j].id != id
}

/// The place of the first card of `board` that carries the identifier `id`,
/// where there is one.
pub open spec fn card_position(board: Seq<Card>, id: u32) -> int {
    choose|index: int| is_card_position(board, id, index)
}

/// Whether `index` is the place of the card of `board` that attacks next:
/// the first of those that have attacked least.
pub open spec fn is_next_to_play(board: Seq<Card>, index: int) -> bool {
    &&& 0 <= index < board.len()
    &&& forall|j: int| 0 <= j < board.len() ==> board[index].played <= board[j].played
    &&& forall|j: int| 0 <= j < index ==> board[index].played < board[j].played
}

/// The place of the card of `board` that attacks next, where the board has
/// a card.
pub open spec fn next_to_play(board: Seq<Card>) -> int {
    choose|index: int| is_next_to_play(board, index)
}

/// Whether no card of `board` can be sent to attack any more: each has
/// attacked as often as its counter can tell.
pub open spec fn out_of_moves(board: Seq<Card>) -> bool {
    forall|i: int| 0 <= i < board.len() ==> board[i].played == u8::MAX
}

/// How many more times the cards of `board` can be sent to attack, all
/// together.
pub open spec fn moves_left(board: Seq<Card>) -> nat
    decreases board.len(),
{
    if board.len() == 0 {
        0
    } else {
        moves_left(board.drop_last()) + (u8::MAX - board.last().played) as nat
    }
}

/// The hit points of the cards of `board`, all together.
pub open spec fn total_hp(board: Seq<Card>) -> nat
    decreases board.len(),
{
    if board.len() == 0 {
        0
    } else {
        total_hp(board.drop_last()) + board.last().hp as nat
    }
}

/// The ranks of the cards of `board`, all together.
pub open spec fn total_rank(board: Seq<Card>) -> nat
    decreases board.len(),
{
    if board.len() == 0 {
        0
    } else {
        total_rank(board.drop_last()) + board.last().base_card.spec_rank() as nat
    }
}

/// A card has rank 4 at most.
pub proof fn lemma_total_rank_bound(board: Seq<Card>)
    ensures
        total_rank(board) <= 4 * board.len(),
    decreases board.len(),
{
    if board.len() > 0 {
        lemma_total_rank_bound(board.drop_last());
    }
}

/// Whether `after` is no more than `before` in any way that counts in a
/// fight: it has no more cards, no more hit points and no more moves left.
pub open spec fn wanes(before: Seq<Card>, after: Seq<Card>) -> bool {
    &&& after.len() <= before.len()
    &&& total_hp(after) <= total_hp(before)
    &&& moves_left(after) <= moves_left(before)
}

/// A board whose cards have lost hit points or moves, each in its place,
/// has waned.
pub proof fn lemma_worn_board_wanes(before: Seq<Card>, after: Seq<Card>)
    requires
        before.len() == after.len(),
        forall|i: int|
            0 <= i < before.len() ==> after[i].hp <= before[i].hp && after[i].played
                >= before[i].played,
    ensures
        wanes(before, after),
    decreases before.len(),
{
    if before.len() > 0 {
        lemma_worn_board_wanes(before.drop_last(), after.drop_last());
    }
}

/// What a change to one card does to the totals of its board.
pub proof fn lemma_update_totals(board: Seq<Card>, index: int, card: Card)
    requires
        0 <= index < board.len(),
    ensures
        total_hp(board.update(index, card)) == total_hp(board) - board[index].hp + card.hp,
        moves_left(board.update(index, card)) == moves_left(board) + board[index].played
            - card.played,
    decreases board.len(),
{
    let changed = board.update(index, card);
    if index == board.len() - 1 {
        assert(changed.drop_last() == board.drop_last());
    } else {
        lemma_update_totals(board.drop_last(), index, card);
        assert(changed.drop_last() == board.drop_last().update(index, card));
    }
}

/// The dead leave without taking a hit point along: the board wanes, and its
/// hit points stay what they were.
pub proof fn lemma_survivors_wane(board: Seq<Card>)
    ensures
        wanes(board, survivors(board)),
        total_hp(survivors(board)) == total_hp(board),
    decreases board.len(),
{
    if board.len() > 0 {
        lemma_survivors_wane(board.drop_last());
        if board.last().hp > 0 {
            assert(survivors(board).drop_last() == survivors(board.drop_last()));
        }
    }
}

/// Every survivor has hit points left and stood on the board before.
pub proof fn lemma_survivors_stood(board: Seq<Card>, index: int)
    requires
        0 <= index < survivors(board).len(),
    ensures
        survivors(board)[index].hp > 0,
        board.contains(survivors(board)[index]),
    decreases board.len(),
{
    if board.len() > 0 {
        let rest = survivors(board.drop_last());
        if index < rest.len() {
            lemma_survivors_stood(board.drop_last(), index);
            let at = choose|i: int|
                0 <= i < board.drop_last().len() && board.drop_last()[i] == rest[index];
            assert(board[at] == rest[index]);
        } else {
            assert(board[board.len() - 1] == board.last());
        }
    }
}

/// The place of the card of the board that attacks next: the first of those
/// that have attacked least.
pub fn next_card_to_play(board: &Vec<Card>) -> (index: usize)
    requires
        board.len() > 0,
    ensures
        is_next_to_play(board@, index as int),
        index == next_to_play(board@),
{
    let mut best: usize = 0;
    let mut i: usize = 1;
    while i < board.len()
        invariant
            1 <= i <= board.len(),
            0 <= best < i,
            forall|j: int| 0 <= j < i ==> board@[best as int].played <= board@[j].played,
            forall|j: int| 0 <= j < best ==> board@[best as int].played < board@[j].played,
        decreases board.len() - i,
    {
        if board[i].played < board[best].played {
            best = i;
        }
        i += 1;
    }
    proof {
        lemma_next_to_play_is_one(board@, best as int);
    }
    best
}

/// No two places are that of the card that attacks next.
pub proof fn lemma_next_to_play_is_one(board: Seq<Card>, index: int)
    requires
        is_next_to_play(board, index),
    ensures
        next_to_play(board) == index,
{
    let other = next_to_play(board);
    assert(is_next_to_play(board, other));
    if other < index {
        assert(board[index].played < board[other].played);
    } else if index < other {
        assert(board[other].played < board[index].played);
    }
}

/// A board with a card has one that attacks next, and that one can still be
/// sent unless the whole board is out of moves.
pub proof fn lemma_next_to_play_exists(board: Seq<Card>)
    requires
        board.len() > 0,
    ensures
        is_next_to_play(board, next_to_play(board)),
        board[next_to_play(board)].played == u8::MAX <==> out_of_moves(board),
    decreases board.len(),
{
    if board.len() == 1 {
        assert(is_next_to_play(board, 0));
    } else {
        let rest = board.drop_last();
        let last = board.len() - 1;
        lemma_next_to_play_exists(rest);
        let best = next_to_play(rest);
        assert(forall|j: int| 0 <= j < last ==> rest[j] == board[j]);
        if board[last].played < rest[best].played {
            assert forall|j: int| 0 <= j < last implies board[last].played < board[j].played by {
                assert(rest[best].played <= rest[j].played);
            }
            assert(is_next_to_play(board, last));
        } else {
            assert forall|j: int| 0 <= j < board.len() implies board[best].played
                <= board[j].played by {
                if j < last {
                    assert(rest[best].played <= rest[j].played);
                }
            }
            assert forall|j: int| 0 <= j < best implies board[best].played < board[j].played by {
                assert(rest[best].played < rest[j].played);
            }
            assert(is_next_to_play(board, best));
        }
    }
    let index = next_to_play(board);
    if board[index].played != u8::MAX {
        assert(!out_of_moves(board));
    }
}

/// Where a card of the board carries the identifier, one is the first to.
pub proof fn lemma_card_position_exists(board: Seq<Card>, id: u32)
    requires
        holds_card(board, id),
    ensures
        is_card_position(board, id, card_position(board, id)),
    decreases board.len(),
{
    let rest = board.drop_last();
    let last = board.len() - 1;
    let some = choose|i: int| 0 <= i < board.len() && board[i].id == id;
    assert(forall|j: int| 0 <= j < last ==> rest[j] == board[j]);
    if exists|i: int| 0 <= i < last && board[i].id == id {
        let i = choose|i: int| 0 <= i < last && board[i].id == id;
        assert(rest[i].id == id);
        lemma_card_position_exists(rest, id);
        let first = card_position(rest, id);
        assert forall|j: int| 0 <= j < first implies board[j].id != id by {
            assert(rest[j].id != id);
        }
        assert(is_card_position(board, id, first));
    } else {
        assert(some == last);
        assert(is_card_position(board, id, last));
    }
}

/// Whether a card of the board carries the identifier `id`, and the place of
/// the first that does.
pub fn find_card(board: &Vec<Card>, id: u32) -> (found: Option<usize>)
    ensures
        found is Some == holds_card(board@, id),
        found matches Some(index) ==> is_card_position(board@, id, index as int) && index
            == card_position(board@, id),
{
    let mut i: usize = 0;
    while i < board.len()
        invariant
            i <= board.len(),
            forall|j: int| 0 <= j < i ==> board@[j].id != id,
        decreases board.len() - i,
    {
        if board[i].id == id {
            proof {
                let other = card_position(board@, id);
                assert(is_card_position(board@, id, i as int));
                assert(is_card_position(board@, id, other));
            }
            return Some(i);
        }
        i += 1;
    }
    None
}

/// The ranks of the cards of the board, all together.
pub fn board_rank(board: &Vec<Card>) -> (rank: i32)
    requires
        board.len() <= u8::MAX,
    ensures
        rank == total_rank(board@),
{
    let mut rank: i32 = 0;
    let mut i: usize = 0;
    while i < board.len()
        invariant
            i <= board.len() <= u8::MAX,
            rank == total_rank(board@.take(i as int)),
            rank <= 4 * i,
        decreases board.len() - i,
    {
        proof {
            assert(board@.take(i as int + 1).drop_last() == board@.take(i as int));
        }
        rank = rank + board[i].base_card.rank() as i32;
        i += 1;
    }
    proof {
        assert(board@.take(i as int) == board@);
    }
    rank
}

} // verus!
