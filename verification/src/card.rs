use crate::rng::gen_range;
use rand::rngs::StdRng;
use vstd::prelude::*;

verus! {

/// The card types of the game: four families of eight cards each.
#[derive(Copy, Clone, Debug, PartialEq, Eq, Structural)]
pub enum BaseCards {
    Mush1,
    Mush2,
    Mush3,
    Mush4,
    Mush5,
    Mush6,
    Mush7,
    Mush8,
    Merch1,
    Merch2,
    Merch3,
    Merch4,
    Merch5,
    Merch6,
    Merch7,
    Merch8,
    Spid1,
    Spid2,
    Spid3,
    Spid4,
    Spid5,
    Spid6,
    Spid7,
    Spid8,
    Rob1,
    Rob2,
    Rob3,
    Rob4,
    Rob5,
    Rob6,
    Rob7,
    Rob8,
}

/// A card as it stands in a hand or on a board.
#[derive(Copy, Clone, Debug, PartialEq, Eq, Structural)]
pub struct Card {
    pub base_card: BaseCards,
    /// Identifies the card for the whole game.
    pub id: u32,
    pub hp: u16,
    pub atk: u16,
    /// How many times the card has been sent to attack; the card of a board
    /// with the lowest count attacks next.
    pub played: u8,
}

#[derive(Copy, Clone, Debug, PartialEq, Eq, Structural)]
pub enum Abilities {
    // Mushrooms
    Slimy,
    SweetScent,
    ToxicSpores,
    Sporocarp,
    Roots,
    Gigantism,
    // Merchants
    Sadism,
    ExplodingArmour,
    Pillage,
    GoldMine,
    Altruism,
    Dexterity,
    // Spiders
    Cooperation,
    Trap,
    Multiplication,
    Poisonous,
    Spawn,
    Cannibalism,
    // Robots
    Replication,
    Scanner,
    Upgrade,
    Glitch,
    Upload,
    Download,
    /// No ability, or none that acts during a fight.
    NoAbility,
}

#[derive(Copy, Clone, Debug, PartialEq, Eq, Structural)]
pub enum Triggers {
    /// At the beginning of each turn.
    Turn,
    /// When this card is played.
    Played,
    /// When this card dies.
    Death,
    /// When this card attacks and survives.
    Survived,
    /// When this card attacks or is attacked.
    Hit,
    /// When this card kills.
    Kill,
    /// When this card is sold.
    Sold,
    /// The card has no ability to fire.
    NoTrigger,
}

#[derive(Copy, Clone, Debug, PartialEq, Eq, Structural)]
pub enum Families {
    Merchants,
    Spiders,
    Robots,
    Mushrooms,
}

impl Abilities {
    /// The word for the ability, as shown to the player.
    pub open spec fn spec_name(self) -> Seq<char> {
        match self {
            Abilities::Slimy => "Slimy"@,
            Abilities::SweetScent => "SweetScent"@,
            Abilities::ToxicSpores => "ToxicSpores"@,
            Abilities::Sporocarp => "Sporocarp"@,
            Abilities::Roots => "Roots"@,
            Abilities::Gigantism => "Gigantism"@,
            Abilities::Sadism => "Sadism"@,
            Abilities::ExplodingArmour => "ExplodingArmour"@,
            Abilities::Pillage => "Pillage"@,
            Abilities::GoldMine => "GoldMine"@,
            Abilities::Altruism => "Altruism"@,
            Abilities::Dexterity => "Dexterity"@,
            Abilities::Cooperation => "Cooperation"@,
            Abilities::Trap => "Trap"@,
            Abilities::Multiplication => "Multiplication"@,
            Abilities::Poisonous => "Poisonous"@,
            Abilities::Spawn => "Spawn"@,
            Abilities::Cannibalism => "Cannibalism"@,
            Abilities::Replication => "Replication"@,
            Abilities::Scanner => "Scanner"@,
            Abilities::Upgrade => "Upgrade"@,
            Abilities::Glitch => "Glitch"@,
            Abilities::Upload => "Upload"@,
            Abilities::Download => "Download"@,
            Abilities::NoAbility => "None"@,
        }
    }

    pub fn name(&self) -> (r: &'static str)
        ensures
            r@ == self.spec_name(),
    {
        match self {
            Abilities::Slimy => "Slimy",
            Abilities::SweetScent => "SweetScent",
            Abilities::ToxicSpores => "ToxicSpores",
            Abilities::Sporocarp => "Sporocarp",
            Abilities::Roots => "Roots",
            Abilities::Gigantism => "Gigantism",
            Abilities::Sadism => "Sadism",
            Abilities::ExplodingArmour => "ExplodingArmour",
            Abilities::Pillage => "Pillage",
            Abilities::GoldMine => "GoldMine",
            Abilities::Altruism => "Altruism",
            Abilities::Dexterity => "Dexterity",
            Abilities::Cooperation => "Cooperation",
            Abilities::Trap => "Trap",
            Abilities::Multiplication => "Multiplication",
            Abilities::Poisonous => "Poisonous",
            Abilities::Spawn => "Spawn",
            Abilities::Cannibalism => "Cannibalism",
            Abilities::Replication => "Replication",
            Abilities::Scanner => "Scanner",
            Abilities::Upgrade => "Upgrade",
            Abilities::Glitch => "Glitch",
            Abilities::Upload => "Upload",
            Abilities::Download => "Download",
            Abilities::NoAbility => "None",
        }
    }
}

impl Triggers {
    /// The word for the trigger, as shown to the player.
    pub open spec fn spec_name(self) -> Seq<char> {
        match self {
            Triggers::Turn => "Turn"@,
            Triggers::Played => "Played"@,
            Triggers::Death => "Death"@,
            Triggers::Survived => "Survived"@,
            Triggers::Hit => "Hit"@,
            Triggers::Kill => "Kill"@,
            Triggers::Sold => "Sold"@,
            Triggers::NoTrigger => "None"@,
        }
    }

    pub fn name(&self) -> (r: &'static str)
        ensures
            r@ == self.spec_name(),
    {
        match self {
            Triggers::Turn => "Turn",
            Triggers::Played => "Played",
            Triggers::Death => "Death",
            Triggers::Survived => "Survived",
            Triggers::Hit => "Hit",
            Triggers::Kill => "Kill",
            Triggers::Sold => "Sold",
            Triggers::NoTrigger => "None",
        }
    }
}

impl BaseCards {

    /// The name printed on the card.
    pub open spec fn spec_name(self) -> Seq<char> {
        match self {
            BaseCards::Mush1 => "Coprinus"@,
            BaseCards::Mush2 => "Gomphidius"@,
            BaseCards::Mush3 => "Cantharellus"@,
            BaseCards::Mush4 => "Mycelius"@,
            BaseCards::Mush5 => "Amanita"@,
            BaseCards::Mush6 => "Boletus"@,
            BaseCards::Mush7 => "Silex fungi"@,
            BaseCards::Mush8 => "Titanicus"@,
            BaseCards::Merch1 => "Silvanus"@,
            BaseCards::Merch2 => "Estan"@,
            BaseCards::Merch3 => "Mandra"@,
            BaseCards::Merch4 => "Julius"@,
            BaseCards::Merch5 => "Sixante"@,
            BaseCards::Merch6 => "Eladra"@,
            BaseCards::Merch7 => "Jasmar"@,
            BaseCards::Merch8 => "Tujilus"@,
            BaseCards::Spid1 => "Micro spider"@,
            BaseCards::Spid2 => "Jumping Spider"@,
            BaseCards::Spid3 => "Funnel Web Spider"@,
            BaseCards::Spid4 => "Goliath"@,
            BaseCards::Spid5 => "Egg"@,
            BaseCards::Spid6 => "Tarantula"@,
            BaseCards::Spid7 => "Aragog"@,
            BaseCards::Spid8 => "Australian black widow"@,
            BaseCards::Rob1 => "Nanobot"@,
            BaseCards::Rob2 => "Cleaning robot"@,
            BaseCards::Rob3 => "Turret"@,
            BaseCards::Rob4 => "Modular bot"@,
            BaseCards::Rob5 => "Unfinished prototype"@,
            BaseCards::Rob6 => "Humanoid"@,
            BaseCards::Rob7 => "Repair drones"@,
            BaseCards::Rob8 => "SkyBot"@,
        }
    }

    pub fn name(&self) -> (r: &'static str)
        ensures
            r@ == self.spec_name(),
    {
        match self {
            BaseCards::Mush1 => "Coprinus",
            BaseCards::Mush2 => "Gomphidius",
            BaseCards::Mush3 => "Cantharellus",
            BaseCards::Mush4 => "Mycelius",
            BaseCards::Mush5 => "Amanita",
            BaseCards::Mush6 => "Boletus",
            BaseCards::Mush7 => "Silex fungi",
            BaseCards::Mush8 => "Titanicus",
            BaseCards::Merch1 => "Silvanus",
            BaseCards::Merch2 => "Estan",
            BaseCards::Merch3 => "Mandra",
            BaseCards::Merch4 => "Julius",
            BaseCards::Merch5 => "Sixante",
            BaseCards::Merch6 => "Eladra",
            BaseCards::Merch7 => "Jasmar",
            BaseCards::Merch8 => "Tujilus",
            BaseCards::Spid1 => "Micro spider",
            BaseCards::Spid2 => "Jumping Spider",
            BaseCards::Spid3 => "Funnel Web Spider",
            BaseCards::Spid4 => "Goliath",
            BaseCards::Spid5 => "Egg",
            BaseCards::Spid6 => "Tarantula",
            BaseCards::Spid7 => "Aragog",
            BaseCards::Spid8 => "Australian black widow",
            BaseCards::Rob1 => "Nanobot",
            BaseCards::Rob2 => "Cleaning robot",
            BaseCards::Rob3 => "Turret",
            BaseCards::Rob4 => "Modular bot",
            BaseCards::Rob5 => "Unfinished prototype",
            BaseCards::Rob6 => "Humanoid",
            BaseCards::Rob7 => "Repair drones",
            BaseCards::Rob8 => "SkyBot",
        }
    }


    /// The ability that the card carries.
    pub open spec fn spec_ability(self) -> Abilities {
        match self {
            BaseCards::Mush1 => Abilities::NoAbility,
            BaseCards::Mush2 => Abilities::Slimy,
            BaseCards::Mush3 => Abilities::NoAbility,
            BaseCards::Mush4 => Abilities::SweetScent,
            BaseCards::Mush5 => Abilities::ToxicSpores,
            BaseCards::Mush6 => Abilities::Sporocarp,
            BaseCards::Mush7 => Abilities::Roots,
            BaseCards::Mush8 => Abilities::Gigantism,
            BaseCards::Merch1 => Abilities::NoAbility,
            BaseCards::Merch2 => Abilities::Sadism,
            BaseCards::Merch3 => Abilities::ExplodingArmour,
            BaseCards::Merch4 => Abilities::NoAbility,
            BaseCards::Merch5 => Abilities::Pillage,
            BaseCards::Merch6 => Abilities::GoldMine,
            BaseCards::Merch7 => Abilities::Altruism,
            BaseCards::Merch8 => Abilities::Dexterity,
            BaseCards::Spid1 => Abilities::Cooperation,
            BaseCards::Spid2 => Abilities::NoAbility,
            BaseCards::Spid3 => Abilities::Trap,
            BaseCards::Spid4 => Abilities::NoAbility,
            BaseCards::Spid5 => Abilities::Multiplication,
            BaseCards::Spid6 => Abilities::Poisonous,
            BaseCards::Spid7 => Abilities::Spawn,
            BaseCards::Spid8 => Abilities::Cannibalism,
            BaseCards::Rob1 => Abilities::Replication,
            BaseCards::Rob2 => Abilities::NoAbility,
            BaseCards::Rob3 => Abilities::Scanner,
            BaseCards::Rob4 => Abilities::Upgrade,
            BaseCards::Rob5 => Abilities::Glitch,
            BaseCards::Rob6 => Abilities::NoAbility,
            BaseCards::Rob7 => Abilities::Upload,
            BaseCards::Rob8 => Abilities::Download,
        }
    }

    pub fn ability(&self) -> (r: Abilities)
        ensures
            r == self.spec_ability(),
    {
        match self {
            BaseCards::Mush1 => Abilities::NoAbility,
            BaseCards::Mush2 => Abilities::Slimy,
            BaseCards::Mush3 => Abilities::NoAbility,
            BaseCards::Mush4 => Abilities::SweetScent,
            BaseCards::Mush5 => Abilities::ToxicSpores,
            BaseCards::Mush6 => Abilities::Sporocarp,
            BaseCards::Mush7 => Abilities::Roots,
            BaseCards::Mush8 => Abilities::Gigantism,
            BaseCards::Merch1 => Abilities::NoAbility,
            BaseCards::Merch2 => Abilities::Sadism,
            BaseCards::Merch3 => Abilities::ExplodingArmour,
            BaseCards::Merch4 => Abilities::NoAbility,
            BaseCards::Merch5 => Abilities::Pillage,
            BaseCards::Merch6 => Abilities::GoldMine,
            BaseCards::Merch7 => Abilities::Altruism,
            BaseCards::Merch8 => Abilities::Dexterity,
            BaseCards::Spid1 => Abilities::Cooperation,
            BaseCards::Spid2 => Abilities::NoAbility,
            BaseCards::Spid3 => Abilities::Trap,
            BaseCards::Spid4 => Abilities::NoAbility,
            BaseCards::Spid5 => Abilities::Multiplication,
            BaseCards::Spid6 => Abilities::Poisonous,
            BaseCards::Spid7 => Abilities::Spawn,
            BaseCards::Spid8 => Abilities::Cannibalism,
            BaseCards::Rob1 => Abilities::Replication,
            BaseCards::Rob2 => Abilities::NoAbility,
            BaseCards::Rob3 => Abilities::Scanner,
            BaseCards::Rob4 => Abilities::Upgrade,
            BaseCards::Rob5 => Abilities::Glitch,
            BaseCards::Rob6 => Abilities::NoAbility,
            BaseCards::Rob7 => Abilities::Upload,
            BaseCards::Rob8 => Abilities::Download,
        }
    }


    /// The family that the card belongs to.
    pub open spec fn spec_family(self) -> Families {
        match self {
            BaseCards::Mush1 => Families::Mushrooms,
            BaseCards::Mush2 => Families::Mushrooms,
            BaseCards::Mush3 => Families::Mushrooms,
            BaseCards::Mush4 => Families::Mushrooms,
            BaseCards::Mush5 => Families::Mushrooms,
            BaseCards::Mush6 => Families::Mushrooms,
            BaseCards::Mush7 => Families::Mushrooms,
            BaseCards::Mush8 => Families::Mushrooms,
            BaseCards::Merch1 => Families::Merchants,
            BaseCards::Merch2 => Families::Merchants,
            BaseCards::Merch3 => Families::Merchants,
            BaseCards::Merch4 => Families::Merchants,
            BaseCards::Merch5 => Families::Merchants,
            BaseCards::Merch6 => Families::Merchants,
            BaseCards::Merch7 => Families::Merchants,
            BaseCards::Merch8 => Families::Merchants,
            BaseCards::Spid1 => Families::Spiders,
            BaseCards::Spid2 => Families::Spiders,
            BaseCards::Spid3 => Families::Spiders,
            BaseCards::Spid4 => Families::Spiders,
            BaseCards::Spid5 => Families::Spiders,
            BaseCards::Spid6 => Families::Spiders,
            BaseCards::Spid7 => Families::Spiders,
            BaseCards::Spid8 => Families::Spiders,
            BaseCards::Rob1 => Families::Robots,
            BaseCards::Rob2 => Families::Robots,
            BaseCards::Rob3 => Families::Robots,
            BaseCards::Rob4 => Families::Robots,
            BaseCards::Rob5 => Families::Robots,
            BaseCards::Rob6 => Families::Robots,
            BaseCards::Rob7 => Families::Robots,
            BaseCards::Rob8 => Families::Robots,
        }
    }

    pub fn family(&self) -> (r: Families)
        ensures
            r == self.spec_family(),
    {
        match self {
            BaseCards::Mush1 => Families::Mushrooms,
            BaseCards::Mush2 => Families::Mushrooms,
            BaseCards::Mush3 => Families::Mushrooms,
            BaseCards::Mush4 => Families::Mushrooms,
            BaseCards::Mush5 => Families::Mushrooms,
            BaseCards::Mush6 => Families::Mushrooms,
            BaseCards::Mush7 => Families::Mushrooms,
            BaseCards::Mush8 => Families::Mushrooms,
            BaseCards::Merch1 => Families::Merchants,
            BaseCards::Merch2 => Families::Merchants,
            BaseCards::Merch3 => Families::Merchants,
            BaseCards::Merch4 => Families::Merchants,
            BaseCards::Merch5 => Families::Merchants,
            BaseCards::Merch6 => Families::Merchants,
            BaseCards::Merch7 => Families::Merchants,
            BaseCards::Merch8 => Families::Merchants,
            BaseCards::Spid1 => Families::Spiders,
            BaseCards::Spid2 => Families::Spiders,
            BaseCards::Spid3 => Families::Spiders,
            BaseCards::Spid4 => Families::Spiders,
            BaseCards::Spid5 => Families::Spiders,
            BaseCards::Spid6 => Families::Spiders,
            BaseCards::Spid7 => Families::Spiders,
            BaseCards::Spid8 => Families::Spiders,
            BaseCards::Rob1 => Families::Robots,
            BaseCards::Rob2 => Families::Robots,
            BaseCards::Rob3 => Families::Robots,
            BaseCards::Rob4 => Families::Robots,
            BaseCards::Rob5 => Families::Robots,
            BaseCards::Rob6 => Families::Robots,
            BaseCards::Rob7 => Families::Robots,
            BaseCards::Rob8 => Families::Robots,
        }
    }


    /// What the card's ability does, as shown to the player.
    pub open spec fn spec_description(self) -> Seq<char> {
        match self {
            BaseCards::Mush1 => ""@,
            BaseCards::Mush2 => "This card gets +1 HP."@,
            BaseCards::Mush3 => ""@,
            BaseCards::Mush4 => "Gives +1 HP & +1 ATK\nto other Mush cards."@,
            BaseCards::Mush5 => "Toxic spores are released\nand kill the opponent."@,
            BaseCards::Mush6 => "Adds a random Mush\nto your hand."@,
            BaseCards::Mush7 => "Gets +1 HP for each allied Mush."@,
            BaseCards::Mush8 => "Gets +1 ATK."@,
            BaseCards::Merch1 => ""@,
            BaseCards::Merch2 => "Attack a random ally\nonce (50%)."@,
            BaseCards::Merch3 => "Deals 1 DMG to every\nenemy card."@,
            BaseCards::Merch4 => ""@,
            BaseCards::Merch5 => "Gain +1 gold for the\nnext turn."@,
            BaseCards::Merch6 => "Gain +1 gold for this turn."@,
            BaseCards::Merch7 => "Distribute its max HP\nbetween allies."@,
            BaseCards::Merch8 => "Attacks another enemy once."@,
            BaseCards::Spid1 => "Gets +1 HP for each spider on board."@,
            BaseCards::Spid2 => ""@,
            BaseCards::Spid3 => "Lowers the opponents\nattack by half."@,
            BaseCards::Spid4 => ""@,
            BaseCards::Spid5 => "Fills the board with\nlower rank spiders."@,
            BaseCards::Spid6 => "Bites the opponent\nand kills it."@,
            BaseCards::Spid7 => "Spawns a new Rank 1 Spider."@,
            BaseCards::Spid8 => "Eats the lowest rank\nspider of the board,\nand gains its stats."@,
            BaseCards::Rob1 => "Spawns a new Nanobot."@,
            BaseCards::Rob2 => ""@,
            BaseCards::Rob3 => "Gains +1 HP and +1 ATK\nfor each allied Nanobot."@,
            BaseCards::Rob4 => "Gives +1 HP and +1 ATK\nto itself and adjacent cards."@,
            BaseCards::Rob5 => "Removes 2 HP max or\n2 ATK max to the enemy."@,
            BaseCards::Rob6 => ""@,
            BaseCards::Rob7 => "This loses 2 HP\nand gives +2 HP\nto allied robots."@,
            BaseCards::Rob8 => "Steals +1 HP and +1 ATK\nfrom each allied robot."@,
        }
    }

    pub fn description(&self) -> (r: &'static str)
        ensures
            r@ == self.spec_description(),
    {
        match self {
            BaseCards::Mush1 => "",
            BaseCards::Mush2 => "This card gets +1 HP.",
            BaseCards::Mush3 => "",
            BaseCards::Mush4 => "Gives +1 HP & +1 ATK\nto other Mush cards.",
            BaseCards::Mush5 => "Toxic spores are released\nand kill the opponent.",
            BaseCards::Mush6 => "Adds a random Mush\nto your hand.",
            BaseCards::Mush7 => "Gets +1 HP for each allied Mush.",
            BaseCards::Mush8 => "Gets +1 ATK.",
            BaseCards::Merch1 => "",
            BaseCards::Merch2 => "Attack a random ally\nonce (50%).",
            BaseCards::Merch3 => "Deals 1 DMG to every\nenemy card.",
            BaseCards::Merch4 => "",
            BaseCards::Merch5 => "Gain +1 gold for the\nnext turn.",
            BaseCards::Merch6 => "Gain +1 gold for this turn.",
            BaseCards::Merch7 => "Distribute its max HP\nbetween allies.",
            BaseCards::Merch8 => "Attacks another enemy once.",
            BaseCards::Spid1 => "Gets +1 HP for each spider on board.",
            BaseCards::Spid2 => "",
            BaseCards::Spid3 => "Lowers the opponents\nattack by half.",
            BaseCards::Spid4 => "",
            BaseCards::Spid5 => "Fills the board with\nlower rank spiders.",
            BaseCards::Spid6 => "Bites the opponent\nand kills it.",
            BaseCards::Spid7 => "Spawns a new Rank 1 Spider.",
            BaseCards::Spid8 => "Eats the lowest rank\nspider of the board,\nand gains its stats.",
            BaseCards::Rob1 => "Spawns a new Nanobot.",
            BaseCards::Rob2 => "",
            BaseCards::Rob3 => "Gains +1 HP and +1 ATK\nfor each allied Nanobot.",
            BaseCards::Rob4 => "Gives +1 HP and +1 ATK\nto itself and adjacent cards.",
            BaseCards::Rob5 => "Removes 2 HP max or\n2 ATK max to the enemy.",
            BaseCards::Rob6 => "",
            BaseCards::Rob7 => "This loses 2 HP\nand gives +2 HP\nto allied robots.",
            BaseCards::Rob8 => "Steals +1 HP and +1 ATK\nfrom each allied robot.",
        }
    }


    /// The tier of the card, from 1 to 4.
    pub open spec fn spec_rank(self) -> u8 {
        match self {
            BaseCards::Mush1 => 1,
            BaseCards::Mush2 => 1,
            BaseCards::Mush3 => 2,
            BaseCards::Mush4 => 2,
            BaseCards::Mush5 => 3,
            BaseCards::Mush6 => 3,
            BaseCards::Mush7 => 4,
            BaseCards::Mush8 => 4,
            BaseCards::Merch1 => 1,
            BaseCards::Merch2 => 1,
            BaseCards::Merch3 => 2,
            BaseCards::Merch4 => 2,
            BaseCards::Merch5 => 3,
            BaseCards::Merch6 => 3,
            BaseCards::Merch7 => 4,
            BaseCards::Merch8 => 4,
            BaseCards::Spid1 => 1,
            BaseCards::Spid2 => 1,
            BaseCards::Spid3 => 2,
            BaseCards::Spid4 => 2,
            BaseCards::Spid5 => 3,
            BaseCards::Spid6 => 3,
            BaseCards::Spid7 => 4,
            BaseCards::Spid8 => 4,
            BaseCards::Rob1 => 1,
            BaseCards::Rob2 => 1,
            BaseCards::Rob3 => 2,
            BaseCards::Rob4 => 2,
            BaseCards::Rob5 => 3,
            BaseCards::Rob6 => 3,
            BaseCards::Rob7 => 4,
            BaseCards::Rob8 => 4,
        }
    }

    pub fn rank(&self) -> (r: u8)
        ensures
            r == self.spec_rank(),
            1 <= r <= 4,
    {
        match self {
            BaseCards::Mush1 => 1,
            BaseCards::Mush2 => 1,
            BaseCards::Mush3 => 2,
            BaseCards::Mush4 => 2,
            BaseCards::Mush5 => 3,
            BaseCards::Mush6 => 3,
            BaseCards::Mush7 => 4,
            BaseCards::Mush8 => 4,
            BaseCards::Merch1 => 1,
            BaseCards::Merch2 => 1,
            BaseCards::Merch3 => 2,
            BaseCards::Merch4 => 2,
            BaseCards::Merch5 => 3,
            BaseCards::Merch6 => 3,
            BaseCards::Merch7 => 4,
            BaseCards::Merch8 => 4,
            BaseCards::Spid1 => 1,
            BaseCards::Spid2 => 1,
            BaseCards::Spid3 => 2,
            BaseCards::Spid4 => 2,
            BaseCards::Spid5 => 3,
            BaseCards::Spid6 => 3,
            BaseCards::Spid7 => 4,
            BaseCards::Spid8 => 4,
            BaseCards::Rob1 => 1,
            BaseCards::Rob2 => 1,
            BaseCards::Rob3 => 2,
            BaseCards::Rob4 => 2,
            BaseCards::Rob5 => 3,
            BaseCards::Rob6 => 3,
            BaseCards::Rob7 => 4,
            BaseCards::Rob8 => 4,
        }
    }


    /// The event on which the card's ability fires.
    pub open spec fn spec_trigger(self) -> Triggers {
        match self {
            BaseCards::Mush1 => Triggers::NoTrigger,
            BaseCards::Mush2 => Triggers::Turn,
            BaseCards::Mush3 => Triggers::NoTrigger,
            BaseCards::Mush4 => Triggers::Played,
            BaseCards::Mush5 => Triggers::Death,
            BaseCards::Mush6 => Triggers::Sold,
            BaseCards::Mush7 => Triggers::Turn,
            BaseCards::Mush8 => Triggers::Kill,
            BaseCards::Merch1 => Triggers::NoTrigger,
            BaseCards::Merch2 => Triggers::Survived,
            BaseCards::Merch3 => Triggers::Death,
            BaseCards::Merch4 => Triggers::NoTrigger,
            BaseCards::Merch5 => Triggers::Kill,
            BaseCards::Merch6 => Triggers::Turn,
            BaseCards::Merch7 => Triggers::Sold,
            BaseCards::Merch8 => Triggers::Survived,
            BaseCards::Spid1 => Triggers::Played,
            BaseCards::Spid2 => Triggers::NoTrigger,
            BaseCards::Spid3 => Triggers::Hit,
            BaseCards::Spid4 => Triggers::NoTrigger,
            BaseCards::Spid5 => Triggers::Death,
            BaseCards::Spid6 => Triggers::Hit,
            BaseCards::Spid7 => Triggers::Turn,
            BaseCards::Spid8 => Triggers::Turn,
            BaseCards::Rob1 => Triggers::Played,
            BaseCards::Rob2 => Triggers::NoTrigger,
            BaseCards::Rob3 => Triggers::Played,
            BaseCards::Rob4 => Triggers::Turn,
            BaseCards::Rob5 => Triggers::Hit,
            BaseCards::Rob6 => Triggers::NoTrigger,
            BaseCards::Rob7 => Triggers::Turn,
            BaseCards::Rob8 => Triggers::Turn,
        }
    }

    pub fn trigger(&self) -> (r: Triggers)
        ensures
            r == self.spec_trigger(),
    {
        match self {
            BaseCards::Mush1 => Triggers::NoTrigger,
            BaseCards::Mush2 => Triggers::Turn,
            BaseCards::Mush3 => Triggers::NoTrigger,
            BaseCards::Mush4 => Triggers::Played,
            BaseCards::Mush5 => Triggers::Death,
            BaseCards::Mush6 => Triggers::Sold,
            BaseCards::Mush7 => Triggers::Turn,
            BaseCards::Mush8 => Triggers::Kill,
            BaseCards::Merch1 => Triggers::NoTrigger,
            BaseCards::Merch2 => Triggers::Survived,
            BaseCards::Merch3 => Triggers::Death,
            BaseCards::Merch4 => Triggers::NoTrigger,
            BaseCards::Merch5 => Triggers::Kill,
            BaseCards::Merch6 => Triggers::Turn,
            BaseCards::Merch7 => Triggers::Sold,
            BaseCards::Merch8 => Triggers::Survived,
            BaseCards::Spid1 => Triggers::Played,
            BaseCards::Spid2 => Triggers::NoTrigger,
            BaseCards::Spid3 => Triggers::Hit,
            BaseCards::Spid4 => Triggers::NoTrigger,
            BaseCards::Spid5 => Triggers::Death,
            BaseCards::Spid6 => Triggers::Hit,
            BaseCards::Spid7 => Triggers::Turn,
            BaseCards::Spid8 => Triggers::Turn,
            BaseCards::Rob1 => Triggers::Played,
            BaseCards::Rob2 => Triggers::NoTrigger,
            BaseCards::Rob3 => Triggers::Played,
            BaseCards::Rob4 => Triggers::Turn,
            BaseCards::Rob5 => Triggers::Hit,
            BaseCards::Rob6 => Triggers::NoTrigger,
            BaseCards::Rob7 => Triggers::Turn,
            BaseCards::Rob8 => Triggers::Turn,
        }
    }


    /// The mushroom that a roll stands for: the rolls from 0 to 7 stand for
    /// the eight of them in order, any other roll for the last.
    pub open spec fn spec_mush(roll: int) -> BaseCards {
        if roll == 0 {
            BaseCards::Mush1
        } else if roll == 1 {
            BaseCards::Mush2
        } else if roll == 2 {
            BaseCards::Mush3
        } else if roll == 3 {
            BaseCards::Mush4
        } else if roll == 4 {
            BaseCards::Mush5
        } else if roll == 5 {
            BaseCards::Mush6
        } else if roll == 6 {
            BaseCards::Mush7
        } else {
            BaseCards::Mush8
        }
    }

    pub fn mush(roll: i32) -> (card: BaseCards)
        ensures
            card == BaseCards::spec_mush(roll as int),
            card.spec_family() == Families::Mushrooms,
    {
        match roll {
            0 => BaseCards::Mush1,
            1 => BaseCards::Mush2,
            2 => BaseCards::Mush3,
            3 => BaseCards::Mush4,
            4 => BaseCards::Mush5,
            5 => BaseCards::Mush6,
            6 => BaseCards::Mush7,
            _ => BaseCards::Mush8,
        }
    }

    /// A mushroom that `rng` picks, each as likely as the next.
    pub fn random_mush(rng: &mut StdRng) -> (card: BaseCards)
        ensures
            exists|roll: int| 0 <= roll < 8 && card == BaseCards::spec_mush(roll),
            card.spec_family() == Families::Mushrooms,
    {
        BaseCards::mush(gen_range(rng, 0, 8))
    }

    /// The attack that a fresh card of this type starts with.
    pub open spec fn spec_base_atk(self) -> u16 {
        match self {
            BaseCards::Mush1 => 1,
            BaseCards::Mush2 => 1,
            BaseCards::Mush3 => 2,
            BaseCards::Mush4 => 1,
            BaseCards::Mush5 => 0,
            BaseCards::Mush6 => 4,
            BaseCards::Mush7 => 6,
            BaseCards::Mush8 => 5,
            BaseCards::Merch1 => 1,
            BaseCards::Merch2 => 1,
            BaseCards::Merch3 => 1,
            BaseCards::Merch4 => 2,
            BaseCards::Merch5 => 5,
            BaseCards::Merch6 => 1,
            BaseCards::Merch7 => 4,
            BaseCards::Merch8 => 5,
            BaseCards::Spid1 => 2,
            BaseCards::Spid2 => 2,
            BaseCards::Spid3 => 3,
            BaseCards::Spid4 => 3,
            BaseCards::Spid5 => 0,
            BaseCards::Spid6 => 5,
            BaseCards::Spid7 => 4,
            BaseCards::Spid8 => 5,
            BaseCards::Rob1 => 1,
            BaseCards::Rob2 => 1,
            BaseCards::Rob3 => 3,
            BaseCards::Rob4 => 2,
            BaseCards::Rob5 => 4,
            BaseCards::Rob6 => 4,
            BaseCards::Rob7 => 5,
            BaseCards::Rob8 => 3,
        }
    }

    /// The hit points that a fresh card of this type starts with.
    pub open spec fn spec_base_hp(self) -> u16 {
        match self {
            BaseCards::Mush1 => 3,
            BaseCards::Mush2 => 1,
            BaseCards::Mush3 => 5,
            BaseCards::Mush4 => 1,
            BaseCards::Mush5 => 2,
            BaseCards::Mush6 => 2,
            BaseCards::Mush7 => 2,
            BaseCards::Mush8 => 6,
            BaseCards::Merch1 => 3,
            BaseCards::Merch2 => 4,
            BaseCards::Merch3 => 1,
            BaseCards::Merch4 => 5,
            BaseCards::Merch5 => 3,
            BaseCards::Merch6 => 7,
            BaseCards::Merch7 => 8,
            BaseCards::Merch8 => 9,
            BaseCards::Spid1 => 1,
            BaseCards::Spid2 => 2,
            BaseCards::Spid3 => 2,
            BaseCards::Spid4 => 3,
            BaseCards::Spid5 => 1,
            BaseCards::Spid6 => 2,
            BaseCards::Spid7 => 6,
            BaseCards::Spid8 => 6,
            BaseCards::Rob1 => 1,
            BaseCards::Rob2 => 3,
            BaseCards::Rob3 => 1,
            BaseCards::Rob4 => 2,
            BaseCards::Rob5 => 2,
            BaseCards::Rob6 => 8,
            BaseCards::Rob7 => 12,
            BaseCards::Rob8 => 3,
        }
    }
}

/// In the catalogue Exploding Armour fires on death and on nothing else.
pub proof fn lemma_armour_fires_on_death(card: BaseCards)
    ensures
        card.spec_ability() == Abilities::ExplodingArmour ==> card.spec_trigger()
            == Triggers::Death,
{
}

impl Card {
    /// A fresh card of the given type: its stats are those of the catalogue
    /// and it has not attacked yet.
    pub open spec fn spec_new(card_type: BaseCards, id: u32) -> Card {
        Card {
            base_card: card_type,
            id,
            hp: card_type.spec_base_hp(),
            atk: card_type.spec_base_atk(),
            played: 0,
        }
    }

    pub fn new(card_type: BaseCards, id: u32) -> (card: Card)
        ensures
            card == Card::spec_new(card_type, id),
    {
        let blank = Card { base_card: card_type, id, hp: 0, atk: 0, played: 0 };
        match card_type {
            BaseCards::Mush1 => Card { atk: 1, hp: 3, ..blank },
            BaseCards::Mush2 => Card { atk: 1, hp: 1, ..blank },
            BaseCards::Mush3 => Card { atk: 2, hp: 5, ..blank },
            BaseCards::Mush4 => Card { atk: 1, hp: 1, ..blank },
            BaseCards::Mush5 => Card { atk: 0, hp: 2, ..blank },
            BaseCards::Mush6 => Card { atk: 4, hp: 2, ..blank },
            BaseCards::Mush7 => Card { atk: 6, hp: 2, ..blank },
            BaseCards::Mush8 => Card { atk: 5, hp: 6, ..blank },
            BaseCards::Merch1 => Card { atk: 1, hp: 3, ..blank },
            BaseCards::Merch2 => Card { atk: 1, hp: 4, ..blank },
            BaseCards::Merch3 => Card { atk: 1, hp: 1, ..blank },
            BaseCards::Merch4 => Card { atk: 2, hp: 5, ..blank },
            BaseCards::Merch5 => Card { atk: 5, hp: 3, ..blank },
            BaseCards::Merch6 => Card { atk: 1, hp: 7, ..blank },
            BaseCards::Merch7 => Card { atk: 4, hp: 8, ..blank },
            BaseCards::Merch8 => Card { atk: 5, hp: 9, ..blank },
            BaseCards::Spid1 => Card { atk: 2, hp: 1, ..blank },
            BaseCards::Spid2 => Card { atk: 2, hp: 2, ..blank },
            BaseCards::Spid3 => Card { atk: 3, hp: 2, ..blank },
            BaseCards::Spid4 => Card { atk: 3, hp: 3, ..blank },
            BaseCards::Spid5 => Card { atk: 0, hp: 1, ..blank },
            BaseCards::Spid6 => Card { atk: 5, hp: 2, ..blank },
            BaseCards::Spid7 => Card { atk: 4, hp: 6, ..blank },
            BaseCards::Spid8 => Card { atk: 5, hp: 6, ..blank },
            BaseCards::Rob1 => Card { atk: 1, hp: 1, ..blank },
            BaseCards::Rob2 => Card { atk: 1, hp: 3, ..blank },
            BaseCards::Rob3 => Card { atk: 3, hp: 1, ..blank },
            BaseCards::Rob4 => Card { atk: 2, hp: 2, ..blank },
            BaseCards::Rob5 => Card { atk: 4, hp: 2, ..blank },
            BaseCards::Rob6 => Card { atk: 4, hp: 8, ..blank },
            BaseCards::Rob7 => Card { atk: 5, hp: 12, ..blank },
            BaseCards::Rob8 => Card { atk: 3, hp: 3, ..blank },
        }
    }
}

impl Default for Card {
    fn default() -> (card: Card)
        ensures
            card == (Card { base_card: BaseCards::Merch8, id: 0, hp: 0, atk: 0, played: 0 }),
    {
        Card { base_card: BaseCards::Merch8, id: 0, hp: 0, atk: 0, played: 0 }
    }
}

} // verus!
