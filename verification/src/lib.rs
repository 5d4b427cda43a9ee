//! The rules of Unbalanced Brawl, an auto-battler card game.
//!
//! Two players buy cards in a shop, line them up on a board, and let the
//! boards fight. A fight needs no player: the cards take turns to attack,
//! abilities fire, and the fight is over when a board is empty. The fight
//! returns its log, from which a screen can show it and a player's state can
//! be brought up to date.
//!
//! - [`card`] is the catalogue: the card types, their stats and abilities.
//! - [`player`] holds a player's state, [`events`] the entries of the log.
//! - [`effect`], [`attack`] and [`battle`] are the fight, from the inside
//!   out: one ability, one attack, the whole fight. Each says in a
//!   specification function what happens, given what is drawn at random, and
//!   offers one function that is handed the draws and one that draws them.
//! - [`board`] holds what is said of boards throughout, and [`util`] the
//!   arithmetic of stats.
//! - [`follow`] reads the log back: it makes of a player's state what the
//!   log says.
//! - [`laws`] proves what holds of every fight, whatever is drawn.
//! - [`shop`], [`shop_abilities`], [`shop_manager`] and [`shop_rules`] are
//!   the rules of the shop, [`predefined_hands`] the ready-made opponents,
//!   and [`stage`] the places of the cards on the screen of a fight.
//! - [`rng`] draws from the `rand` crate. What it draws is taken on trust:
//!   every other function is verified.

pub mod attack;
pub mod battle;
pub mod board;
pub mod card;
pub mod effect;
pub mod events;
pub mod follow;
pub mod laws;
pub mod player;
pub mod predefined_hands;
pub mod rng;
pub mod shop;
pub mod shop_abilities;
pub mod shop_manager;
pub mod shop_rules;
pub mod stage;
pub mod util;
