use crate::rng::gen_range;
use rand::rngs::StdRng;
use vstd::prelude::*;

verus! {

/// What the shop charges and allows for one turn.
#[derive(Copy, Clone, Debug, PartialEq, Eq, Structural)]
pub struct ShopValues {
    /// The price of a card.
    pub buy: i8,
    /// What selling a card costs: negative when it pays.
    pub sell: i8,
    /// The price of a new set of cards.
    pub refresh: u16,
    /// The price of keeping the cards for the next turn.
    pub freeze: u16,
    /// No turn starts with more gold than this, the gold won in fights
    /// apart.
    pub gold_limit: u16,
    /// How long the shop stays open, in seconds.
    pub timer: u16,
}

impl Default for ShopValues {
    fn default() -> (values: ShopValues)
        ensures
            values == (ShopValues {
                buy: 3,
                sell: -1i8,
                refresh: 1,
                freeze: 0,
                gold_limit: 10,
                timer: 40,
            }),
    {
        ShopValues { buy: 3, sell: -1, refresh: 1, freeze: 0, gold_limit: 10, timer: 40 }
    }
}

/// The rule that the shopkeeper sets for a turn.
#[derive(Copy, Clone, Debug, PartialEq, Eq, Structural)]
pub enum ShopRules {
    BuyPlus,
    BuyMinus,
    SellPlus,
    SellMinus,
    RefreshPlus,
    RefreshMinus,
    RefreshInf,
    FreezePlus,
    FreezeInf,
    TimerPlus,
    TimerMinus,
    NoRule,
}

/// How many ways the roll for a rule can fall.
pub const RULE_ROLLS: i32 = 23;

/// How many ways the roll for a rule can fall when cards must stay at their
/// price or below.
pub const MILD_RULE_ROLLS: i32 = 21;

impl ShopRules {
    /// The rule that a roll stands for. Of the rolls from 0 to 22, two lead
    /// to each of the rules that are met more often, one to each of the
    /// others, and five to no rule at all.
    pub open spec fn spec_from_roll(roll: int) -> ShopRules {
        if roll == 1 || roll == 2 {
            ShopRules::BuyPlus
        } else if roll == 3 {
            ShopRules::BuyMinus
        } else if roll == 4 {
            ShopRules::SellPlus
        } else if roll == 5 || roll == 6 {
            ShopRules::SellMinus
        } else if roll == 7 || roll == 8 {
            ShopRules::RefreshPlus
        } else if roll == 9 {
            ShopRules::RefreshMinus
        } else if roll == 10 || roll == 11 {
            ShopRules::RefreshInf
        } else if roll == 12 || roll == 13 {
            ShopRules::FreezePlus
        } else if roll == 14 || roll == 15 {
            ShopRules::FreezeInf
        } else if roll == 16 {
            ShopRules::TimerPlus
        } else if roll == 17 || roll == 18 {
            ShopRules::TimerMinus
        } else {
            ShopRules::NoRule
        }
    }

    pub fn from_roll(roll: i32) -> (rule: ShopRules)
        ensures
            rule == ShopRules::spec_from_roll(roll as int),
    {
        match roll {
            1 | 2 => ShopRules::BuyPlus,
            3 => ShopRules::BuyMinus,
            4 => ShopRules::SellPlus,
            5 | 6 => ShopRules::SellMinus,
            7 | 8 => ShopRules::RefreshPlus,
            9 => ShopRules::RefreshMinus,
            10 | 11 => ShopRules::RefreshInf,
            12 | 13 => ShopRules::FreezePlus,
            14 | 15 => ShopRules::FreezeInf,
            16 => ShopRules::TimerPlus,
            17 | 18 => ShopRules::TimerMinus,
            _ => ShopRules::NoRule,
        }
    }

    /// A rule that `rng` picks: each roll from 0 to 22 is as likely as the
    /// next.
    pub fn sample(rng: &mut StdRng) -> (rule: ShopRules)
        ensures
            exists|roll: int| 0 <= roll < RULE_ROLLS && rule == ShopRules::spec_from_roll(roll),
    {
        ShopRules::from_roll(gen_range(rng, 0, RULE_ROLLS))
    }

    /// The roll among those from 0 to 22 that do not raise the price of
    /// cards, counted in order: `roll` counts them from 0 to 20.
    pub open spec fn spec_mild_roll(roll: int) -> int {
        if roll < 1 {
            roll
        } else {
            roll + 2
        }
    }

    pub fn mild_roll(roll: i32) -> (mild: i32)
        requires
            0 <= roll < MILD_RULE_ROLLS,
        ensures
            mild == ShopRules::spec_mild_roll(roll as int),
            0 <= mild < RULE_ROLLS,
            ShopRules::spec_from_roll(mild as int) != ShopRules::BuyPlus,
    {
        if roll < 1 {
            roll
        } else {
            roll + 2
        }
    }

    /// The shop's values under the rule.
    pub open spec fn spec_edit_values(self, values: ShopValues) -> ShopValues {
        match self {
            ShopRules::BuyPlus => ShopValues { buy: 4, ..values },
            ShopRules::BuyMinus => ShopValues { buy: 2, ..values },
            ShopRules::SellPlus => ShopValues { sell: -2i8, ..values },
            ShopRules::SellMinus => ShopValues { sell: 0, ..values },
            ShopRules::RefreshPlus => ShopValues { refresh: 2, ..values },
            ShopRules::RefreshMinus => ShopValues { refresh: 0, ..values },
            ShopRules::RefreshInf => ShopValues { refresh: 99, ..values },
            ShopRules::FreezePlus => ShopValues { freeze: 1, ..values },
            ShopRules::FreezeInf => ShopValues { refresh: 99, ..values },
            ShopRules::TimerPlus => ShopValues { timer: 55, ..values },
            ShopRules::TimerMinus => ShopValues { timer: 25, ..values },
            ShopRules::NoRule => values,
        }
    }

    /// Puts the rule into effect.
    pub fn edit_values(&self, values: &mut ShopValues)
        ensures
            *final(values) == self.spec_edit_values(*old(values)),
    {
        match self {
            ShopRules::BuyPlus => values.buy = 4,
            ShopRules::BuyMinus => values.buy = 2,
            ShopRules::SellPlus => values.sell = -2,
            ShopRules::SellMinus => values.sell = 0,
            ShopRules::RefreshPlus => values.refresh = 2,
            ShopRules::RefreshMinus => values.refresh = 0,
            ShopRules::RefreshInf => values.refresh = 99,
            ShopRules::FreezePlus => values.freeze = 1,
            ShopRules::FreezeInf => values.refresh = 99,
            ShopRules::TimerPlus => values.timer = 55,
            ShopRules::TimerMinus => values.timer = 25,
            ShopRules::NoRule => {},
        }
    }

    /// The note in which the shopkeeper announces the rule.
    pub open spec fn spec_description(self) -> Seq<char> {
        match self {
            ShopRules::BuyPlus => "\"I have less cards lately...\nI had to increase prices!\"\n\n(Cards cost 4 coins this turn.)"@,
            ShopRules::BuyMinus => "\"We will receive new cards soon...\nThere is a sale on all cards!\"\n\n(Cards cost 2 coins this turn.)"@,
            ShopRules::SellPlus => "\"My son wants to finish\nhis collection!\nCome and sell your cards!\"\n\n(Selling cards gives 2 coins this turn.)"@,
            ShopRules::SellMinus => "\"The shop is running low on coins...\nI can't accept returns today.\"\n\n(Selling cards gives 0 coins this turn.)"@,
            ShopRules::RefreshPlus => "\"I don't have enough time\nto show you all my cards today...\nIt will be more expensive.\"\n\n(Refreshing cards costs 2 coins this turn.)"@,
            ShopRules::RefreshMinus => "\"So much cards have arrived!\nWill you take a look at them all?\"\n\n(Refreshing cards is free this turn.)"@,
            ShopRules::RefreshInf => "\"All the cards are sold!\nI spared a few for you!\"\n\n(Can't refresh cards this turn.)"@,
            ShopRules::FreezePlus => "\"My storage is nearly full!\nIf you want me to keep some cards\nfor next time this will not be free...\"\n\n(Freezing cards costs 1 coin this turn.)"@,
            ShopRules::FreezeInf => "\"My storage is full!\nI can't keep any cards today, sorry.\"\n\n(Can't freeze cards this turn.)"@,
            ShopRules::TimerPlus => "\"You are early today!\nTake your time :)\"\n\n(The timer lasts 55s this turn.)"@,
            ShopRules::TimerMinus => "\"I will close soon...\nPlease hurry.\"\n\n(The timer lasts 25s this turn.)"@,
            ShopRules::NoRule => "\"Enjoy your time in the shop!\"\n\n(No effect this turn.)"@,
        }
    }

    pub fn description(&self) -> (note: &'static str)
        ensures
            note@ == self.spec_description(),
    {
        match self {
            ShopRules::BuyPlus => "\"I have less cards lately...\nI had to increase prices!\"\n\n(Cards cost 4 coins this turn.)",
            ShopRules::BuyMinus => "\"We will receive new cards soon...\nThere is a sale on all cards!\"\n\n(Cards cost 2 coins this turn.)",
            ShopRules::SellPlus => "\"My son wants to finish\nhis collection!\nCome and sell your cards!\"\n\n(Selling cards gives 2 coins this turn.)",
            ShopRules::SellMinus => "\"The shop is running low on coins...\nI can't accept returns today.\"\n\n(Selling cards gives 0 coins this turn.)",
            ShopRules::RefreshPlus => "\"I don't have enough time\nto show you all my cards today...\nIt will be more expensive.\"\n\n(Refreshing cards costs 2 coins this turn.)",
            ShopRules::RefreshMinus => "\"So much cards have arrived!\nWill you take a look at them all?\"\n\n(Refreshing cards is free this turn.)",
            ShopRules::RefreshInf => "\"All the cards are sold!\nI spared a few for you!\"\n\n(Can't refresh cards this turn.)",
            ShopRules::FreezePlus => "\"My storage is nearly full!\nIf you want me to keep some cards\nfor next time this will not be free...\"\n\n(Freezing cards costs 1 coin this turn.)",
            ShopRules::FreezeInf => "\"My storage is full!\nI can't keep any cards today, sorry.\"\n\n(Can't freeze cards this turn.)",
            ShopRules::TimerPlus => "\"You are early today!\nTake your time :)\"\n\n(The timer lasts 55s this turn.)",
            ShopRules::TimerMinus => "\"I will close soon...\nPlease hurry.\"\n\n(The timer lasts 25s this turn.)",
            ShopRules::NoRule => "\"Enjoy your time in the shop!\"\n\n(No effect this turn.)",
        }
    }

    /// The rule of the given turn, once `first` was drawn for it: `first`
    /// itself, unless the turn is the first of the game and `first` raises the
    /// price of cards. A player could then buy nothing, so the rule that `mild`
    /// stands for takes its place.
    pub open spec fn spec_settle(turn: u16, first: ShopRules, mild: ShopRules) -> ShopRules {
        if turn == 1 && first == ShopRules::BuyPlus {
            mild
        } else {
            first
        }
    }

    /// Sets the rule of the given turn: `rng` picks it, the rule is put into
    /// effect on `values`, and the note that announces it is returned. The
    /// first turn of a game never has the rule that raises the price of
    /// cards: where `rng` picks it, `rng` picks again among the other rolls.
    pub fn random(values: &mut ShopValues, turn: u16, rng: &mut StdRng) -> (note: &'static str)
        ensures
            exists|first: int, mild: int|
                {
                    let rule = ShopRules::spec_settle(
                        turn,
                        #[trigger] ShopRules::spec_from_roll(first),
                        ShopRules::spec_from_roll(#[trigger] ShopRules::spec_mild_roll(mild)),
                    );
                    &&& 0 <= first < RULE_ROLLS
                    &&& 0 <= mild < MILD_RULE_ROLLS
                    &&& *final(values) == rule.spec_edit_values(*old(values))
                    &&& note@ == rule.spec_description()
                },
            turn == 1 ==> final(values).buy <= old(values).buy || final(values).buy <= 3,
    {
        let first = gen_range(rng, 0, RULE_ROLLS);
        let mut rule = ShopRules::from_roll(first);
        let ghost mut mild: int = 0;
        if turn == 1 && rule == ShopRules::BuyPlus {
            let again = gen_range(rng, 0, MILD_RULE_ROLLS);
            rule = ShopRules::from_roll(ShopRules::mild_roll(again));
            proof {
                mild = again as int;
            }
        }
        rule.edit_values(values);
        let note = rule.description();
        proof {
            assert(rule == ShopRules::spec_settle(
                turn,
                ShopRules::spec_from_roll(first as int),
                ShopRules::spec_from_roll(ShopRules::spec_mild_roll(mild)),
            ));
        }
        note
    }
}

} // verus!
