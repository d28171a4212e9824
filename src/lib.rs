//! A single-player blackjack engine: cards, hands with ace resolution,
//! the round state machine and chip settlement.
pub mod card;
pub mod hand;
pub mod round;
pub mod session;
pub mod input;
