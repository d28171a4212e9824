use vstd::prelude::*;
use crate::round::RoundStatus;

verus! {

/// The chip balance of one session, carried from round to round.
pub struct Session {
    pub chips: i64,
}

/// Balance after settling a round whose bet was already taken from `chips`:
/// a win pays back twice the bet, a draw returns the bet, a loss nothing.
pub open spec fn settled(chips: int, bet: int, outcome: RoundStatus) -> int {
    match outcome {
        RoundStatus::Win => chips + 2 * bet,
        RoundStatus::Loss => chips,
        RoundStatus::Draw => chips + bet,
    }
}

/// A round that starts at balance `start` with bet `bet` ends at
/// `start + bet` on a win, `start - bet` on a loss and `start` on a draw.
pub proof fn lemma_round_balance(start: int, bet: int, outcome: RoundStatus)
    ensures
        outcome == RoundStatus::Win ==> settled(start - bet, bet, outcome) == start + bet,
        outcome == RoundStatus::Loss ==> settled(start - bet, bet, outcome) == start - bet,
        outcome == RoundStatus::Draw ==> settled(start - bet, bet, outcome) == start,
{
}

impl Session {
    /// A session starting with `chips`.
    pub fn new(chips: i64) -> (r: Session)
        ensures
            r.chips == chips,
    {
        Session { chips }
    }

    /// Takes the bet from the balance before the round is played.
    pub fn place_bet(&mut self, bet: i64)
        requires
            i64::MIN <= old(self).chips - bet <= i64::MAX,
        ensures
            final(self).chips == old(self).chips - bet,
    {
        self.chips = self.chips - bet;
    }

    /// Pays out a finished round whose bet was already taken.
    pub fn settle(&mut self, bet: i64, outcome: RoundStatus)
        requires
            i64::MIN <= settled(old(self).chips as int, bet as int, outcome) <= i64::MAX,
            i64::MIN <= 2 * bet <= i64::MAX,
        ensures
            final(self).chips == settled(old(self).chips as int, bet as int, outcome),
    {
        match outcome {
            RoundStatus::Win => self.chips = self.chips + 2 * bet,
            RoundStatus::Loss => {},
            RoundStatus::Draw => self.chips = self.chips + bet,
        }
    }

    /// Takes the bet, then settles the round: the balance a whole round
    /// leaves behind.
    pub fn play_bet(&mut self, bet: i64, outcome: RoundStatus)
        requires
            i64::MIN <= old(self).chips - bet <= i64::MAX,
            i64::MIN <= 2 * bet <= i64::MAX,
            i64::MIN <= settled(old(self).chips - bet, bet as int, outcome) <= i64::MAX,
        ensures
            final(self).chips == settled(old(self).chips - bet, bet as int, outcome),
    {
        self.place_bet(bet);
        self.settle(bet, outcome);
    }

    /// Whether the session is over for lack of chips.
    pub fn is_broke(&self) -> (r: bool)
        ensures
            r == (self.chips <= 0),
    {
        self.chips <= 0
    }
}

} // verus!
