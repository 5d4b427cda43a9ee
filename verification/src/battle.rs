use crate::attack::{attack_outcome, is_attack, lemma_attack_wanes, simulate_attack, AttackDraw};
use crate::board::{
    board_rank, card_position, find_card, lemma_card_position_exists, lemma_next_to_play_exists,
    lemma_update_totals, moves_left, next_card_to_play, next_to_play, out_of_moves, total_rank,
    wanes,
};
use crate::card::Card;
use crate::events::CombatEvents;
use crate::player::PlayerData;
use crate::rng::gen_flag;
use crate::util::min2;
use rand::rngs::StdRng;
use vstd::prelude::*;

verus! {

/// What is drawn for one turn: for the attack, and for the second attack
/// that the turn may grant.
pub struct TurnDraw {
    pub strike: AttackDraw,
    pub replay: AttackDraw,
}

/// The two boards after a turn, the entries that tell of it, and how many
/// attacks were made in it.
pub struct TurnOutcome {
    pub player: Seq<Card>,
    pub opponent: Seq<Card>,
    pub events: Seq<CombatEvents>,
    pub attacks: nat,
}

/// `board` once its card `index` has been sent to attack.
pub open spec fn sent(board: Seq<Card>, index: int) -> Seq<Card> {
    board.update(index, Card { played: (board[index].played + 1) as u8, ..board[index] })
}

/// What happens in a turn of `player` against `opponent`.
///
/// The card of `player` that has attacked least, the first of them where
/// there are several, is sent to attack, which counts on its counter. Where
/// the attack grants a second one, the first card of the board that carries
/// the attacker's identifier attacks again; what that attack would grant is
/// not taken.
pub open spec fn turn_outcome(
    player_id: u16,
    player: Seq<Card>,
    opponent_id: u16,
    opponent: Seq<Card>,
    draw: TurnDraw,
) -> TurnOutcome {
    let index = next_to_play(player);
    let strike = attack_outcome(
        player_id,
        sent(player, index),
        index,
        opponent_id,
        opponent,
        draw.strike,
    );
    if strike.replay {
        let replay = attack_outcome(
            player_id,
            strike.att,
            card_position(strike.att, player[index].id),
            opponent_id,
            strike.def,
            draw.replay,
        );
        TurnOutcome {
            player: replay.att,
            opponent: replay.def,
            events: strike.events + replay.events,
            attacks: 2,
        }
    } else {
        TurnOutcome { player: strike.att, opponent: strike.def, events: strike.events, attacks: 1 }
    }
}

/// Whether each target of `draw` is a card of the board that it is drawn
/// from, in a turn of `player` against `opponent`.
pub open spec fn turn_draw_fits(
    player_id: u16,
    player: Seq<Card>,
    opponent_id: u16,
    opponent: Seq<Card>,
    draw: TurnDraw,
) -> bool {
    let index = next_to_play(player);
    let strike = attack_outcome(
        player_id,
        sent(player, index),
        index,
        opponent_id,
        opponent,
        draw.strike,
    );
    &&& 0 <= draw.strike.target < opponent.len()
    &&& strike.replay ==> 0 <= draw.replay.target < strike.def.len()
}

/// Whether the two players went from `player` and `opponent` to
/// `player_after` and `opponent_after`, and `events` was logged, as in a turn
/// of `player` in which `draw` is drawn: the boards and the log are those of
/// [`turn_outcome`], and nothing else changes.
pub open spec fn is_turn(
    player: PlayerData,
    opponent: PlayerData,
    draw: TurnDraw,
    player_after: PlayerData,
    opponent_after: PlayerData,
    events: Seq<CombatEvents>,
) -> bool {
    let outcome = turn_outcome(player.id, player.board@, opponent.id, opponent.board@, draw);
    &&& player_after.board@ == outcome.player
    &&& opponent_after.board@ == outcome.opponent
    &&& events == outcome.events
    &&& player_after.same_but_board(player)
    &&& opponent_after.same_but_board(opponent)
}

/// A turn adds no card and no hit point to either board, and costs the
/// player who takes it a move.
pub proof fn lemma_turn_wanes(
    player_id: u16,
    player: Seq<Card>,
    opponent_id: u16,
    opponent: Seq<Card>,
    draw: TurnDraw,
)
    requires
        player.len() > 0,
        !out_of_moves(player),
        turn_draw_fits(player_id, player, opponent_id, opponent, draw),
    ensures
        wanes(player, turn_outcome(player_id, player, opponent_id, opponent, draw).player),
        wanes(opponent, turn_outcome(player_id, player, opponent_id, opponent, draw).opponent),
        moves_left(turn_outcome(player_id, player, opponent_id, opponent, draw).player)
            < moves_left(player),
{
    lemma_next_to_play_exists(player);
    let index = next_to_play(player);
    let lined = sent(player, index);
    lemma_update_totals(player, index, lined[index]);
    let strike = attack_outcome(player_id, lined, index, opponent_id, opponent, draw.strike);
    lemma_attack_wanes(player_id, lined, index, opponent_id, opponent, draw.strike);
    if strike.replay {
        lemma_card_position_exists(strike.att, player[index].id);
        let again = card_position(strike.att, player[index].id);
        lemma_attack_wanes(player_id, strike.att, again, opponent_id, strike.def, draw.replay);
    }
}

/// One turn of `player_hb` against `opponent_hb`: the card that has attacked
/// least attacks a card that `rng` picks, and once more where the attack
/// grants it. Returns the entries that tell of the turn.
///
/// Whatever `rng` gives, the turn is that of [`turn_outcome`] on what was
/// drawn.
pub fn play_turn(
    player_hb: &mut PlayerData,
    opponent_hb: &mut PlayerData,
    rng: &mut StdRng,
) -> (events: Vec<CombatEvents>)
    requires
        0 < old(player_hb).board.len() <= u8::MAX,
        0 < old(opponent_hb).board.len() <= u8::MAX,
        !out_of_moves(old(player_hb).board@),
    ensures
        exists|draw: TurnDraw|
            turn_draw_fits(
                old(player_hb).id,
                old(player_hb).board@,
                old(opponent_hb).id,
                old(opponent_hb).board@,
                draw,
            ) && #[trigger] is_turn(
                *old(player_hb),
                *old(opponent_hb),
                draw,
                *final(player_hb),
                *final(opponent_hb),
                events@,
            ),
        final(player_hb).board.len() <= old(player_hb).board.len(),
        final(opponent_hb).board.len() <= old(opponent_hb).board.len(),
{
    let index = next_card_to_play(&player_hb.board);
    let attacker = player_hb.board[index];
    proof {
        lemma_next_to_play_exists(player_hb.board@);
    }
    player_hb.board[index].played = attacker.played + 1;
    let ghost lined = *player_hb;
    let (mut events, replay) = simulate_attack(index, player_hb, opponent_hb, rng);
    let ghost strike = choose|draw: AttackDraw|
        0 <= draw.target < old(opponent_hb).board.len() && #[trigger] is_attack(
            lined,
            index as int,
            *old(opponent_hb),
            draw,
            *player_hb,
            *opponent_hb,
            events@,
            replay,
        );
    proof {
        lemma_attack_wanes(
            lined.id,
            lined.board@,
            index as int,
            old(opponent_hb).id,
            old(opponent_hb).board@,
            strike,
        );
    }
    if replay {
        let ghost struck = *player_hb;
        let ghost stricken = *opponent_hb;
        let again = find_card(&player_hb.board, attacker.id);
        match again {
            Some(again) => {
                let (mut told, more) = simulate_attack(again, player_hb, opponent_hb, rng);
                let ghost second = choose|draw: AttackDraw|
                    0 <= draw.target < stricken.board.len() && #[trigger] is_attack(
                        struck,
                        again as int,
                        stricken,
                        draw,
                        *player_hb,
                        *opponent_hb,
                        told@,
                        more,
                    );
                events.append(&mut told);
                proof {
                    let draw = TurnDraw { strike, replay: second };
                    assert(is_turn(
                        *old(player_hb),
                        *old(opponent_hb),
                        draw,
                        *player_hb,
                        *opponent_hb,
                        events@,
                    ));
                }
            },
            None => {
                // A second attack is granted only to a card still on its board.
                assert(false);
            },
        }
    } else {
        proof {
            let draw = TurnDraw { strike, replay: strike };
            assert(is_turn(
                *old(player_hb),
                *old(opponent_hb),
                draw,
                *player_hb,
                *opponent_hb,
                events@,
            ));
        }
    }
    events
}

/// A fight between two boards, as far as it has gone: the boards, whose turn
/// it is (`to_play` is set when it is the first board's), and the log.
pub struct Battle {
    pub hb1: Seq<Card>,
    pub hb2: Seq<Card>,
    pub to_play: bool,
    pub events: Seq<CombatEvents>,
}

/// Whether no further turn is taken: a board is empty, or the board whose
/// turn it is has no card that can still be sent to attack.
pub open spec fn is_over(hb1: Seq<Card>, hb2: Seq<Card>, to_play: bool) -> bool {
    ||| hb1.len() == 0
    ||| hb2.len() == 0
    ||| out_of_moves(
        if to_play {
            hb1
        } else {
            hb2
        },
    )
}

/// The fight one turn later: the board whose turn it is takes it, and the
/// turn passes to the other. A fight that is over stays as it is.
pub open spec fn battle_step(id1: u16, id2: u16, battle: Battle, draw: TurnDraw) -> Battle {
    if is_over(battle.hb1, battle.hb2, battle.to_play) {
        battle
    } else if battle.to_play {
        let turn = turn_outcome(id1, battle.hb1, id2, battle.hb2, draw);
        Battle {
            hb1: turn.player,
            hb2: turn.opponent,
            to_play: false,
            events: battle.events + turn.events,
        }
    } else {
        let turn = turn_outcome(id2, battle.hb2, id1, battle.hb1, draw);
        Battle {
            hb1: turn.opponent,
            hb2: turn.player,
            to_play: true,
            events: battle.events + turn.events,
        }
    }
}

/// The fight after the first `turns` of `draws` have been played from
/// `start`.
pub open spec fn battle_after(
    id1: u16,
    id2: u16,
    start: Battle,
    draws: Seq<TurnDraw>,
    turns: nat,
) -> Battle
    decreases turns,
{
    if turns == 0 {
        start
    } else {
        battle_step(
            id1,
            id2,
            battle_after(id1, id2, start, draws, (turns - 1) as nat),
            draws[turns - 1],
        )
    }
}

/// Whether each of the first `turns` of `draws` fits the turn that it is
/// drawn for (see [`turn_draw_fits`]), as the fight is played from `start`.
pub open spec fn draws_fit(
    id1: u16,
    id2: u16,
    start: Battle,
    draws: Seq<TurnDraw>,
    turns: nat,
) -> bool
    decreases turns,
{
    turns == 0 || {
        let battle = battle_after(id1, id2, start, draws, (turns - 1) as nat);
        let draw = draws[turns - 1];
        &&& draws_fit(id1, id2, start, draws, (turns - 1) as nat)
        &&& is_over(battle.hb1, battle.hb2, battle.to_play) || if battle.to_play {
            turn_draw_fits(id1, battle.hb1, id2, battle.hb2, draw)
        } else {
            turn_draw_fits(id2, battle.hb2, id1, battle.hb1, draw)
        }
    }
}

/// What a fight costs the player who has lost it: as many hit points as the
/// ranks of the winner's board come to, but no more than the loser has.
pub open spec fn players_attack(winner_id: u16, winner: Seq<Card>, loser_hp: u16) -> CombatEvents {
    CombatEvents::PlayersAttack {
        att_id: winner_id,
        change_def_hp: if loser_hp < total_rank(winner) {
            (-loser_hp) as i32
        } else {
            (-total_rank(winner)) as i32
        },
    }
}

/// The entry that closes the log of a fight that has ended with the boards
/// `hb1` and `hb2`: the player whose board is empty has lost, the first where
/// both are. Where neither board is empty nobody has lost, and nothing is
/// logged.
pub open spec fn verdict(
    id1: u16,
    hp1: u16,
    hb1: Seq<Card>,
    id2: u16,
    hp2: u16,
    hb2: Seq<Card>,
) -> Seq<CombatEvents> {
    if hb1.len() == 0 {
        seq![players_attack(id2, hb2, hp1)]
    } else if hb2.len() == 0 {
        seq![players_attack(id1, hb1, hp2)]
    } else {
        seq![]
    }
}

/// The fight between the boards `hb1` and `hb2` once `draws` have been played,
/// where `to_play` tells who takes the first turn.
pub open spec fn combat_end(
    id1: u16,
    hb1: Seq<Card>,
    id2: u16,
    hb2: Seq<Card>,
    to_play: bool,
    draws: Seq<TurnDraw>,
) -> Battle {
    battle_after(id1, id2, Battle { hb1, hb2, to_play, events: seq![] }, draws, draws.len())
}

/// Whether `events` is the log of the fight between `hb1` and `hb2` in which
/// `to_play` tells who takes the first turn and `draws` holds what is drawn,
/// turn by turn: every draw fits its turn, the fight is over once they are
/// played, and the log is that of the turns, closed by the verdict.
pub open spec fn is_combat(
    hb1: PlayerData,
    hb2: PlayerData,
    to_play: bool,
    draws: Seq<TurnDraw>,
    events: Seq<CombatEvents>,
) -> bool {
    let start = Battle { hb1: hb1.board@, hb2: hb2.board@, to_play, events: seq![] };
    let end = combat_end(hb1.id, hb1.board@, hb2.id, hb2.board@, to_play, draws);
    &&& draws_fit(hb1.id, hb2.id, start, draws, draws.len())
    &&& is_over(end.hb1, end.hb2, end.to_play)
    &&& events == end.events + verdict(hb1.id, hb1.hp, end.hb1, hb2.id, hb2.hp, end.hb2)
}

/// Whether the two players went from `hb1` and `hb2` to `hb1_after` and
/// `hb2_after`, and `events` was logged, as in the fight in which `to_play`
/// tells who takes the first turn and `draws` holds what is drawn: the log is
/// that of [`is_combat`], the boards are those that the fight ends with, and
/// nothing else changes.
pub open spec fn is_fight(
    hb1: PlayerData,
    hb2: PlayerData,
    to_play: bool,
    draws: Seq<TurnDraw>,
    hb1_after: PlayerData,
    hb2_after: PlayerData,
    events: Seq<CombatEvents>,
) -> bool {
    let end = combat_end(hb1.id, hb1.board@, hb2.id, hb2.board@, to_play, draws);
    &&& is_combat(hb1, hb2, to_play, draws, events)
    &&& hb1_after.board@ == end.hb1
    &&& hb2_after.board@ == end.hb2
    &&& hb1_after.same_but_board(hb1)
    &&& hb2_after.same_but_board(hb2)
}

/// How a fight has gone so far does not depend on what is drawn later.
pub proof fn lemma_later_draw_changes_nothing(
    id1: u16,
    id2: u16,
    start: Battle,
    draws: Seq<TurnDraw>,
    draw: TurnDraw,
    turns: nat,
)
    requires
        turns <= draws.len(),
    ensures
        battle_after(id1, id2, start, draws.push(draw), turns) == battle_after(
            id1,
            id2,
            start,
            draws,
            turns,
        ),
        draws_fit(id1, id2, start, draws.push(draw), turns) == draws_fit(
            id1,
            id2,
            start,
            draws,
            turns,
        ),
    decreases turns,
{
    if turns > 0 {
        lemma_later_draw_changes_nothing(id1, id2, start, draws, draw, (turns - 1) as nat);
    }
}

/// Whether another turn is to be taken.
fn goes_on(hb1: &PlayerData, hb2: &PlayerData, to_play: bool) -> (on: bool)
    ensures
        on == !is_over(hb1.board@, hb2.board@, to_play),
{
    if hb1.board.is_empty() || hb2.board.is_empty() {
        return false;
    }
    let board = if to_play {
        &hb1.board
    } else {
        &hb2.board
    };
    proof {
        lemma_next_to_play_exists(board@);
    }
    board[next_card_to_play(board)].played < u8::MAX
}

/// What a fight costs the loser in hit points, as a change: no more than the
/// loser has, and no more than the ranks of the winner's board come to.
fn damage(loser_hp: i32, winner_rank: i32) -> (change: i32)
    requires
        0 <= loser_hp,
        0 <= winner_rank,
    ensures
        change == if loser_hp < winner_rank {
            -loser_hp
        } else {
            -winner_rank
        },
{
    -min2(loser_hp, winner_rank)
}

/// Adds to `events` the entry that closes the log of a fight that has ended
/// with the boards of `hb1` and `hb2`.
fn close(hb1: &PlayerData, hb2: &PlayerData, events: &mut Vec<CombatEvents>)
    requires
        hb1.board.len() <= u8::MAX,
        hb2.board.len() <= u8::MAX,
    ensures
        final(events)@ == old(events)@ + verdict(
            hb1.id,
            hb1.hp,
            hb1.board@,
            hb2.id,
            hb2.hp,
            hb2.board@,
        ),
{
    if hb1.board.is_empty() {
        let change_def_hp = damage(hb1.hp as i32, board_rank(&hb2.board));
        events.push(CombatEvents::PlayersAttack { att_id: hb2.id, change_def_hp });
    } else if hb2.board.is_empty() {
        let change_def_hp = damage(hb2.hp as i32, board_rank(&hb1.board));
        events.push(CombatEvents::PlayersAttack { att_id: hb1.id, change_def_hp });
    }
}

/// The fight between the boards of `hb1` and `hb2`, from the first turn to
/// the verdict. Returns its log, and leaves to each player the board that
/// the fight has left them.
///
/// `rng` says who takes the first turn. Then the two take turns (see
/// [`play_turn`]) until a board is empty, or until the one whose turn it is
/// has no card left that can be sent to attack: a card can be sent
/// `u8::MAX` times and no more, which keeps every fight finite. The player
/// whose board is empty has lost, and the log ends with what it costs them
/// (see [`verdict`]). The log tells of that cost and of the gold won; the
/// players' hit points and gold are left for the caller to settle.
///
/// Whatever `rng` gives, the fight is that of [`is_fight`] on what was drawn.
pub fn fight(hb1: &mut PlayerData, hb2: &mut PlayerData, rng: &mut StdRng) -> (events: Vec<
    CombatEvents,
>)
    requires
        old(hb1).board.len() <= u8::MAX,
        old(hb2).board.len() <= u8::MAX,
    ensures
        exists|to_play: bool, draws: Seq<TurnDraw>| #[trigger]
            is_fight(*old(hb1), *old(hb2), to_play, draws, *final(hb1), *final(hb2), events@),
        final(hb1).board.len() <= old(hb1).board.len(),
        final(hb2).board.len() <= old(hb2).board.len(),
{
    let ghost id1 = hb1.id;
    let ghost id2 = hb2.id;
    let mut events: Vec<CombatEvents> = Vec::new();
    let mut to_play = gen_flag(rng);
    let ghost start = Battle { hb1: hb1.board@, hb2: hb2.board@, to_play, events: seq![] };
    let ghost mut draws: Seq<TurnDraw> = seq![];

    while goes_on(hb1, hb2, to_play)
        invariant
            hb1.same_but_board(*old(hb1)),
            hb2.same_but_board(*old(hb2)),
            old(hb1).id == id1,
            old(hb2).id == id2,
            hb1.board.len() <= old(hb1).board.len() <= u8::MAX,
            hb2.board.len() <= old(hb2).board.len() <= u8::MAX,
            draws_fit(id1, id2, start, draws, draws.len()),
            battle_after(id1, id2, start, draws, draws.len()) == (Battle {
                hb1: hb1.board@,
                hb2: hb2.board@,
                to_play,
                events: events@,
            }),
        decreases moves_left(hb1.board@) + moves_left(hb2.board@),
    {
        let ghost before1 = *hb1;
        let ghost before2 = *hb2;
        let mut told = if to_play {
            play_turn(hb1, hb2, rng)
        } else {
            play_turn(hb2, hb1, rng)
        };
        proof {
            let draw = if to_play {
                choose|draw: TurnDraw|
                    turn_draw_fits(id1, before1.board@, id2, before2.board@, draw)
                        && #[trigger] is_turn(before1, before2, draw, *hb1, *hb2, told@)
            } else {
                choose|draw: TurnDraw|
                    turn_draw_fits(id2, before2.board@, id1, before1.board@, draw)
                        && #[trigger] is_turn(before2, before1, draw, *hb2, *hb1, told@)
            };
            if to_play {
                lemma_turn_wanes(id1, before1.board@, id2, before2.board@, draw);
            } else {
                lemma_turn_wanes(id2, before2.board@, id1, before1.board@, draw);
            }
            lemma_later_draw_changes_nothing(id1, id2, start, draws, draw, draws.len());
            draws = draws.push(draw);
        }
        events.append(&mut told);
        to_play = !to_play;
    }
    close(hb1, hb2, &mut events);
    proof {
        assert(is_fight(*old(hb1), *old(hb2), start.to_play, draws, *hb1, *hb2, events@));
    }
    events
}

/// The log of the fight between the boards of `hb1` and `hb2` (see
/// [`fight`]).
///
/// Whatever `rng` gives, the log is that of [`is_combat`] on what was drawn.
pub fn simulate_combat(hb1: PlayerData, hb2: PlayerData, rng: &mut StdRng) -> (events: Vec<
    CombatEvents,
>)
    requires
        hb1.board.len() <= u8::MAX,
        hb2.board.len() <= u8::MAX,
    ensures
        exists|to_play: bool, draws: Seq<TurnDraw>| #[trigger]
            is_combat(hb1, hb2, to_play, draws, events@),
{
    let mut hb1 = hb1;
    let mut hb2 = hb2;
    let ghost first1 = hb1;
    let ghost first2 = hb2;
    let events = fight(&mut hb1, &mut hb2, rng);
    proof {
        let (to_play, draws) = choose|to_play: bool, draws: Seq<TurnDraw>| #[trigger]
            is_fight(first1, first2, to_play, draws, hb1, hb2, events@);
        assert(is_combat(first1, first2, to_play, draws, events@));
    }
    events
}

} // verus!
