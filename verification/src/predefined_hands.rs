use crate::card::{BaseCards, Card};
use crate::player::GlobalData;
use crate::rng::gen_range;
use rand::rngs::StdRng;
use vstd::prelude::*;

verus! {

/// The ready-made opponents.
#[derive(Copy, Clone, Debug, PartialEq, Eq, Structural)]
pub enum HandsName {
    Mush,
    Spiders,
}

/// The opponent that was picked for a game.
pub struct ChosenHand(pub HandsName);

/// A card of a ready-made board: its type, its attack and its hit points.
#[derive(Copy, Clone, Debug, PartialEq, Eq, Structural)]
pub struct CardState(pub BaseCards, pub u16, pub u16);

impl HandsName {
    /// The opponent that a roll of 0 or 1 stands for; any other roll stands
    /// for the first.
    pub open spec fn spec_pick(roll: int) -> HandsName {
        if roll == 1 {
            HandsName::Spiders
        } else {
            HandsName::Mush
        }
    }

    pub fn pick(roll: i32) -> (hand: HandsName)
        ensures
            hand == HandsName::spec_pick(roll as int),
    {
        match roll {
            0 => HandsName::Mush,
            1 => HandsName::Spiders,
            _ => HandsName::Mush,
        }
    }

    /// An opponent that `rng` picks, each as likely as the other.
    pub fn sample(rng: &mut StdRng) -> (hand: HandsName)
        ensures
            exists|roll: int| 0 <= roll < 2 && hand == HandsName::spec_pick(roll),
    {
        let roll = gen_range(rng, 0, 2);
        HandsName::pick(roll)
    }

    /// The board that the opponent brings to the fight of the given turn.
    pub open spec fn spec_hand_components(self, turn: u16) -> Seq<CardState> {
        match self {
            HandsName::Mush => match turn {
                1 => seq![
                    CardState(BaseCards::Mush2, 1, 1),
                ],
                2 => seq![
                    CardState(BaseCards::Mush2, 1, 2),
                ],
                3 => seq![
                    CardState(BaseCards::Mush2, 1, 3),
                    CardState(BaseCards::Mush2, 1, 1),
                ],
                4 => seq![
                    CardState(BaseCards::Mush2, 2, 5),
                    CardState(BaseCards::Mush4, 1, 1),
                    CardState(BaseCards::Mush2, 2, 3),
                ],
                5 => seq![
                    CardState(BaseCards::Mush2, 2, 6),
                    CardState(BaseCards::Mush4, 1, 1),
                    CardState(BaseCards::Mush3, 2, 5),
                    CardState(BaseCards::Mush2, 2, 4),
                ],
                6 => seq![
                    CardState(BaseCards::Mush1, 1, 3),
                    CardState(BaseCards::Mush2, 2, 7),
                    CardState(BaseCards::Mush4, 1, 1),
                    CardState(BaseCards::Mush3, 2, 5),
                    CardState(BaseCards::Mush2, 2, 5),
                ],
                7 => seq![
                    CardState(BaseCards::Mush1, 1, 3),
                    CardState(BaseCards::Mush2, 2, 8),
                    CardState(BaseCards::Mush4, 1, 1),
                    CardState(BaseCards::Mush3, 2, 5),
                    CardState(BaseCards::Mush2, 2, 6),
                ],
                8 => seq![
                    CardState(BaseCards::Mush1, 1, 3),
                    CardState(BaseCards::Mush2, 2, 9),
                    CardState(BaseCards::Mush5, 0, 2),
                    CardState(BaseCards::Mush4, 1, 1),
                    CardState(BaseCards::Mush3, 2, 5),
                    CardState(BaseCards::Mush2, 2, 7),
                ],
                9 => seq![
                    CardState(BaseCards::Mush1, 2, 4),
                    CardState(BaseCards::Mush4, 1, 1),
                    CardState(BaseCards::Mush2, 3, 11),
                    CardState(BaseCards::Mush5, 1, 3),
                    CardState(BaseCards::Mush4, 2, 2),
                    CardState(BaseCards::Mush3, 3, 6),
                    CardState(BaseCards::Mush2, 3, 9),
                ],
                _ => seq![
                    CardState(BaseCards::Mush1, 3, 5),
                    CardState(BaseCards::Mush8, 6, 7),
                    CardState(BaseCards::Mush2, 4, 13),
                    CardState(BaseCards::Mush5, 2, 4),
                    CardState(BaseCards::Mush4, 2, 2),
                    CardState(BaseCards::Mush3, 4, 7),
                    CardState(BaseCards::Mush2, 4, 11),
                ],
            },
            HandsName::Spiders => match turn {
                1 => seq![
                    CardState(BaseCards::Spid2, 2, 2),
                ],
                2 => seq![
                    CardState(BaseCards::Spid2, 2, 2),
                    CardState(BaseCards::Spid1, 2, 2),
                ],
                3 => seq![
                    CardState(BaseCards::Spid1, 2, 1),
                    CardState(BaseCards::Spid2, 2, 2),
                ],
                4 => seq![
                    CardState(BaseCards::Spid3, 3, 2),
                    CardState(BaseCards::Spid2, 2, 2),
                    CardState(BaseCards::Spid1, 2, 1),
                ],
                5 => seq![
                    CardState(BaseCards::Spid3, 3, 2),
                    CardState(BaseCards::Spid4, 3, 3),
                    CardState(BaseCards::Spid2, 2, 2),
                    CardState(BaseCards::Spid1, 2, 1),
                ],
                6 => seq![
                    CardState(BaseCards::Spid3, 3, 2),
                    CardState(BaseCards::Spid4, 3, 3),
                    CardState(BaseCards::Spid2, 2, 2),
                    CardState(BaseCards::Spid1, 2, 1),
                ],
                7 => seq![
                    CardState(BaseCards::Spid3, 3, 2),
                    CardState(BaseCards::Spid6, 5, 2),
                    CardState(BaseCards::Spid4, 3, 3),
                    CardState(BaseCards::Spid2, 2, 2),
                    CardState(BaseCards::Spid1, 2, 1),
                ],
                8 => seq![
                    CardState(BaseCards::Spid3, 3, 2),
                    CardState(BaseCards::Spid3, 3, 2),
                    CardState(BaseCards::Spid6, 5, 2),
                    CardState(BaseCards::Spid4, 3, 3),
                    CardState(BaseCards::Spid2, 2, 2),
                    CardState(BaseCards::Spid1, 2, 1),
                ],
                9 => seq![
                    CardState(BaseCards::Spid3, 3, 2),
                    CardState(BaseCards::Spid3, 3, 2),
                    CardState(BaseCards::Spid6, 5, 2),
                    CardState(BaseCards::Spid6, 5, 2),
                    CardState(BaseCards::Spid4, 3, 3),
                    CardState(BaseCards::Spid2, 2, 2),
                    CardState(BaseCards::Spid1, 2, 1),
                ],
                10 => seq![
                    CardState(BaseCards::Spid3, 3, 2),
                    CardState(BaseCards::Spid3, 3, 2),
                    CardState(BaseCards::Spid7, 6, 4),
                    CardState(BaseCards::Spid6, 5, 2),
                    CardState(BaseCards::Spid6, 5, 2),
                    CardState(BaseCards::Spid4, 3, 3),
                ],
                _ => seq![
                    CardState(BaseCards::Spid3, 3, 2),
                    CardState(BaseCards::Spid3, 3, 2),
                    CardState(BaseCards::Spid7, 6, 4),
                    CardState(BaseCards::Spid6, 5, 2),
                    CardState(BaseCards::Spid6, 5, 2),
                    CardState(BaseCards::Spid4, 3, 3),
                    CardState(BaseCards::Spid1, 2, 7),
                ],
            },
        }
    }

    pub fn hand_components(&self, turn: u16) -> (cards: Vec<CardState>)
        ensures
            cards@ == self.spec_hand_components(turn),
            0 < cards.len() <= 7,
    {
        match self {
            HandsName::Mush => match turn {
                1 => vec![
                    CardState(BaseCards::Mush2, 1, 1),
                ],
                2 => vec![
                    CardState(BaseCards::Mush2, 1, 2),
                ],
                3 => vec![
                    CardState(BaseCards::Mush2, 1, 3),
                    CardState(BaseCards::Mush2, 1, 1),
                ],
                4 => vec![
                    CardState(BaseCards::Mush2, 2, 5),
                    CardState(BaseCards::Mush4, 1, 1),
                    CardState(BaseCards::Mush2, 2, 3),
                ],
                5 => vec![
                    CardState(BaseCards::Mush2, 2, 6),
                    CardState(BaseCards::Mush4, 1, 1),
                    CardState(BaseCards::Mush3, 2, 5),
                    CardState(BaseCards::Mush2, 2, 4),
                ],
                6 => vec![
                    CardState(BaseCards::Mush1, 1, 3),
                    CardState(BaseCards::Mush2, 2, 7),
                    CardState(BaseCards::Mush4, 1, 1),
                    CardState(BaseCards::Mush3, 2, 5),
                    CardState(BaseCards::Mush2, 2, 5),
                ],
                7 => vec![
                    CardState(BaseCards::Mush1, 1, 3),
                    CardState(BaseCards::Mush2, 2, 8),
                    CardState(BaseCards::Mush4, 1, 1),
                    CardState(BaseCards::Mush3, 2, 5),
                    CardState(BaseCards::Mush2, 2, 6),
                ],
                8 => vec![
                    CardState(BaseCards::Mush1, 1, 3),
                    CardState(BaseCards::Mush2, 2, 9),
                    CardState(BaseCards::Mush5, 0, 2),
                    CardState(BaseCards::Mush4, 1, 1),
                    CardState(BaseCards::Mush3, 2, 5),
                    CardState(BaseCards::Mush2, 2, 7),
                ],
                9 => vec![
                    CardState(BaseCards::Mush1, 2, 4),
                    CardState(BaseCards::Mush4, 1, 1),
                    CardState(BaseCards::Mush2, 3, 11),
                    CardState(BaseCards::Mush5, 1, 3),
                    CardState(BaseCards::Mush4, 2, 2),
                    CardState(BaseCards::Mush3, 3, 6),
                    CardState(BaseCards::Mush2, 3, 9),
                ],
                _ => vec![
                    CardState(BaseCards::Mush1, 3, 5),
                    CardState(BaseCards::Mush8, 6, 7),
                    CardState(BaseCards::Mush2, 4, 13),
                    CardState(BaseCards::Mush5, 2, 4),
                    CardState(BaseCards::Mush4, 2, 2),
                    CardState(BaseCards::Mush3, 4, 7),
                    CardState(BaseCards::Mush2, 4, 11),
                ],
            },
            HandsName::Spiders => match turn {
                1 => vec![
                    CardState(BaseCards::Spid2, 2, 2),
                ],
                2 => vec![
                    CardState(BaseCards::Spid2, 2, 2),
                    CardState(BaseCards::Spid1, 2, 2),
                ],
                3 => vec![
                    CardState(BaseCards::Spid1, 2, 1),
                    CardState(BaseCards::Spid2, 2, 2),
                ],
                4 => vec![
                    CardState(BaseCards::Spid3, 3, 2),
                    CardState(BaseCards::Spid2, 2, 2),
                    CardState(BaseCards::Spid1, 2, 1),
                ],
                5 => vec![
                    CardState(BaseCards::Spid3, 3, 2),
                    CardState(BaseCards::Spid4, 3, 3),
                    CardState(BaseCards::Spid2, 2, 2),
                    CardState(BaseCards::Spid1, 2, 1),
                ],
                6 => vec![
                    CardState(BaseCards::Spid3, 3, 2),
                    CardState(BaseCards::Spid4, 3, 3),
                    CardState(BaseCards::Spid2, 2, 2),
                    CardState(BaseCards::Spid1, 2, 1),
                ],
                7 => vec![
                    CardState(BaseCards::Spid3, 3, 2),
                    CardState(BaseCards::Spid6, 5, 2),
                    CardState(BaseCards::Spid4, 3, 3),
                    CardState(BaseCards::Spid2, 2, 2),
                    CardState(BaseCards::Spid1, 2, 1),
                ],
                8 => vec![
                    CardState(BaseCards::Spid3, 3, 2),
                    CardState(BaseCards::Spid3, 3, 2),
                    CardState(BaseCards::Spid6, 5, 2),
                    CardState(BaseCards::Spid4, 3, 3),
                    CardState(BaseCards::Spid2, 2, 2),
                    CardState(BaseCards::Spid1, 2, 1),
                ],
                9 => vec![
                    CardState(BaseCards::Spid3, 3, 2),
                    CardState(BaseCards::Spid3, 3, 2),
                    CardState(BaseCards::Spid6, 5, 2),
                    CardState(BaseCards::Spid6, 5, 2),
                    CardState(BaseCards::Spid4, 3, 3),
                    CardState(BaseCards::Spid2, 2, 2),
                    CardState(BaseCards::Spid1, 2, 1),
                ],
                10 => vec![
                    CardState(BaseCards::Spid3, 3, 2),
                    CardState(BaseCards::Spid3, 3, 2),
                    CardState(BaseCards::Spid7, 6, 4),
                    CardState(BaseCards::Spid6, 5, 2),
                    CardState(BaseCards::Spid6, 5, 2),
                    CardState(BaseCards::Spid4, 3, 3),
                ],
                _ => vec![
                    CardState(BaseCards::Spid3, 3, 2),
                    CardState(BaseCards::Spid3, 3, 2),
                    CardState(BaseCards::Spid7, 6, 4),
                    CardState(BaseCards::Spid6, 5, 2),
                    CardState(BaseCards::Spid6, 5, 2),
                    CardState(BaseCards::Spid4, 3, 3),
                    CardState(BaseCards::Spid1, 2, 7),
                ],
            },
        }
    }

    /// The cards of the board that the opponent brings to the fight of the
    /// given turn, numbered from `first_id` on.
    pub open spec fn spec_hand(self, turn: u16, first_id: u32) -> Seq<Card> {
        let components = self.spec_hand_components(turn);
        Seq::new(
            components.len(),
            |i: int|
                Card {
                    base_card: components[i].0,
                    id: (first_id + i) as u32,
                    hp: components[i].2,
                    atk: components[i].1,
                    played: 0,
                },
        )
    }

    /// The board that the opponent brings to the fight of the turn that
    /// `global_data` is at. Its cards are new: each takes the next free
    /// identifier.
    pub fn hand(&self, global_data: &mut GlobalData) -> (cards: Vec<Card>)
        requires
            old(global_data).next_card_id + 7 <= u32::MAX,
        ensures
            cards@ == self.spec_hand(old(global_data).turn, old(global_data).next_card_id),
            final(global_data).next_card_id == old(global_data).next_card_id + cards.len(),
            final(global_data).turn == old(global_data).turn,
            final(global_data).rng == old(global_data).rng,
    {
        let components = self.hand_components(global_data.turn);
        let ghost first_id = global_data.next_card_id;
        let mut cards: Vec<Card> = Vec::new();
        let mut i: usize = 0;
        while i < components.len()
            invariant
                i <= components.len() <= 7,
                first_id + 7 <= u32::MAX,
                components@ == self.spec_hand_components(old(global_data).turn),
                global_data.next_card_id == first_id + i,
                global_data.turn == old(global_data).turn,
                global_data.rng == old(global_data).rng,
                cards@ == self.spec_hand(old(global_data).turn, first_id).take(i as int),
            decreases components.len() - i,
        {
            let state = components[i];
            cards.push(
                Card {
                    base_card: state.0,
                    id: global_data.next_card_id,
                    hp: state.2,
                    atk: state.1,
                    played: 0,
                },
            );
            global_data.next_card_id += 1;
            i += 1;
        }
        cards
    }
}

} // verus!
