use crate::card::Card;
use crate::predefined_hands::HandsName;
use rand::rngs::StdRng;
use vstd::prelude::*;

verus! {

/// One player: what persists from turn to turn, and the board that the player
/// brings to a fight.
#[derive(Clone)]
pub struct PlayerData {
    /// Tells the two players of a fight apart.
    pub id: u16,
    pub name: String,
    pub hand: Vec<Card>,
    pub board: Vec<Card>,
    pub coins: u16,
    /// Gold won in a fight, paid out at the next visit to the shop.
    pub extra_coins: u16,
    pub hp: u16,
    pub shop_level: u16,
    pub ia: HandsName,
}

impl Default for PlayerData {
    fn default() -> (player: PlayerData)
        ensures
            player.id == 0,
            player.name@ == "YOU"@,
            player.hand@ == Seq::<Card>::empty(),
            player.board@ == Seq::<Card>::empty(),
            player.coins == 3,
            player.extra_coins == 0,
            player.hp == 25,
            player.shop_level == 1,
            player.ia == HandsName::Mush,
    {
        PlayerData {
            id: 0,
            name: "YOU".to_owned(),
            hand: Vec::new(),
            board: Vec::new(),
            coins: 3,
            extra_coins: 0,
            hp: 25,
            shop_level: 1,
            ia: HandsName::Mush,
        }
    }
}

impl PlayerData {
    /// Everything but the board is the same in both.
    pub open spec fn same_but_board(self, other: PlayerData) -> bool {
        &&& self.id == other.id
        &&& self.name == other.name
        &&& self.hand == other.hand
        &&& self.coins == other.coins
        &&& self.extra_coins == other.extra_coins
        &&& self.hp == other.hp
        &&& self.shop_level == other.shop_level
        &&& self.ia == other.ia
    }
}

/// How many cards the player brings to a fight.
pub fn get_number_of_cards(b: &PlayerData) -> (number: u8)
    requires
        b.board.len() <= u8::MAX,
    ensures
        number == b.board.len(),
{
    b.board.len() as u8
}

/// What the whole game shares: the source of randomness, the turn and the
/// identifier that the next new card gets.
pub struct GlobalData {
    pub rng: StdRng,
    pub turn: u16,
    pub next_card_id: u32,
}

impl GlobalData {
    /// The state at the start of a game, around the given source of randomness.
    pub fn new(rng: StdRng) -> (data: GlobalData)
        ensures
            data.rng == rng,
            data.turn == 0,
            data.next_card_id == 0,
    {
        GlobalData { rng, turn: 0, next_card_id: 0 }
    }
}

} // verus!
