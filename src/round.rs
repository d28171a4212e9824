use vstd::prelude::*;
use crate::card::{Card, draw_card};
use crate::hand::{
    Player, Role, MAX_HAND_CARDS, hand_total, hard_points, hard_total,
    lemma_hard_total_bounds,
};

verus! {

/// The dealer keeps drawing while its total is below this.
pub const DEALER_STANDS_AT: i32 = 15;

/// Result of a round, seen from the human player.
#[derive(Clone, Copy, Debug, PartialEq, Eq, Structural)]
pub enum RoundStatus {
    Win,
    Loss,
    Draw,
}

/// Outcome of a round from the two final totals: a bust loses unless both
/// bust (a draw); otherwise the higher total wins and equal totals draw.
pub open spec fn round_outcome(player: int, dealer: int) -> RoundStatus {
    if player > 21 && dealer > 21 {
        RoundStatus::Draw
    } else if player > 21 {
        RoundStatus::Loss
    } else if dealer > 21 {
        RoundStatus::Win
    } else if player > dealer {
        RoundStatus::Win
    } else if player < dealer {
        RoundStatus::Loss
    } else {
        RoundStatus::Draw
    }
}

/// Decides the round from the player's and the dealer's final totals.
pub fn resolve(player_total: i32, dealer_total: i32) -> (r: RoundStatus)
    ensures
        r == round_outcome(player_total as int, dealer_total as int),
{
    if player_total > 21 && dealer_total > 21 {
        RoundStatus::Draw
    } else if player_total > 21 {
        RoundStatus::Loss
    } else if dealer_total > 21 {
        RoundStatus::Win
    } else if player_total > dealer_total {
        RoundStatus::Win
    } else if player_total < dealer_total {
        RoundStatus::Loss
    } else {
        RoundStatus::Draw
    }
}

/// Where cards come from: each draw gives one card with the requested face.
pub trait CardSource {
    fn draw(&mut self, hidden: bool) -> (c: Card)
        ensures
            c.hidden == hidden,
    ;
}

/// Cards drawn uniformly at random from an endless supply of full decks.
pub struct RandomDeck;

impl CardSource for RandomDeck {
    fn draw(&mut self, hidden: bool) -> (c: Card) {
        draw_card(hidden)
    }
}

/// Cards handed out in a fixed order, starting again from the first once
/// all have been dealt; with no cards at all it deals `fallback`.
pub struct ScriptedDeck {
    pub cards: Vec<Card>,
    pub next: usize,
    pub fallback: Card,
}

impl ScriptedDeck {
    /// A deck that deals `cards` in order.
    pub fn new(cards: Vec<Card>, fallback: Card) -> (r: ScriptedDeck)
        ensures
            r.cards@ == cards@,
            r.next == 0,
            r.fallback == fallback,
    {
        ScriptedDeck { cards, next: 0, fallback }
    }
}

impl ScriptedDeck {
    /// Position of the card the next draw deals: back to the first once the
    /// script is used up.
    pub open spec fn next_index(&self) -> int {
        if self.next >= self.cards.len() {
            0
        } else {
            self.next as int
        }
    }

    /// The card the next draw deals, with the requested face.
    pub open spec fn next_card(&self, hidden: bool) -> Card {
        if self.cards.len() == 0 {
            Card { hidden, ..self.fallback }
        } else {
            Card { hidden, ..self.cards@[self.next_index()] }
        }
    }

    /// Deals the next card of the script.
    pub fn draw_next(&mut self, hidden: bool) -> (c: Card)
        requires
            old(self).next < usize::MAX,
        ensures
            c == old(self).next_card(hidden),
            final(self).cards@ == old(self).cards@,
            final(self).fallback == old(self).fallback,
            final(self).next == if old(self).cards.len() == 0 {
                old(self).next as int
            } else {
                old(self).next_index() + 1
            },
    {
        if self.cards.len() == 0 {
            return Card { hidden, ..self.fallback };
        }
        if self.next >= self.cards.len() {
            self.next = 0;
        }
        let c = self.cards[self.next];
        self.next = self.next + 1;
        Card { hidden, ..c }
    }
}

impl CardSource for ScriptedDeck {
    fn draw(&mut self, hidden: bool) -> (c: Card) {
        if self.next == usize::MAX {
            self.next = 0;
        }
        self.draw_next(hidden)
    }
}

/// Appending a card adds its points to the hard total.
pub proof fn lemma_push_totals(cards: Seq<Card>, c: Card)
    ensures
        hard_total(cards.push(c)) == hard_total(cards) + hard_points(c.rank),
        hard_points(c.rank) >= 1,
        hand_total(cards) >= hard_total(cards),
{
    assert(cards.push(c).drop_last() =~= cards);
}

/// One round: the human's hand and the dealer's.
pub struct Round {
    pub human: Player,
    pub dealer: Player,
}

impl Round {
    /// The two hands belong to the right participants and stay within size.
    pub open spec fn wf(&self) -> bool {
        &&& self.human.role == Role::Human
        &&& self.dealer.role == Role::Dealer
        &&& self.human.cards.len() <= MAX_HAND_CARDS
        &&& self.dealer.cards.len() <= MAX_HAND_CARDS
    }

    /// Deals two cards to the human, then two to the dealer, the dealer's
    /// second one face down.
    pub fn deal<S: CardSource>(deck: &mut S) -> (r: Round)
        ensures
            r.wf(),
            r.human.cards.len() == 2,
            r.dealer.cards.len() == 2,
            !r.human.cards@[0].hidden,
            !r.human.cards@[1].hidden,
            !r.dealer.cards@[0].hidden,
            r.dealer.cards@[1].hidden,
    {
        let a = deck.draw(false);
        let b = deck.draw(false);
        let c = deck.draw(false);
        let d = deck.draw(true);
        Round::deal_cards(a, b, c, d)
    }

    /// A round whose human holds `a` and `b` and whose dealer holds `c` and
    /// `d`, the dealer's second card face down and the others face up.
    pub fn deal_cards(a: Card, b: Card, c: Card, d: Card) -> (r: Round)
        ensures
            r.wf(),
            r.human.cards@ == seq![Card { hidden: false, ..a }, Card { hidden: false, ..b }],
            r.dealer.cards@ == seq![Card { hidden: false, ..c }, Card { hidden: true, ..d }],
    {
        let mut human = Player::new(Role::Human);
        let mut dealer = Player::new(Role::Dealer);
        human.start_hand_with(a, b);
        dealer.start_hand_with(c, d);
        assert(human.cards@ =~= seq![Card { hidden: false, ..a }, Card { hidden: false, ..b }]);
        assert(dealer.cards@ =~= seq![Card { hidden: false, ..c }, Card { hidden: true, ..d }]);
        Round { human, dealer }
    }

    /// The human's current total.
    pub fn player_total(&self) -> (r: i32)
        requires
            self.wf(),
        ensures
            r == hand_total(self.human.cards@),
    {
        self.human.get_total_value()
    }

    /// The dealer's current total.
    pub fn dealer_total(&self) -> (r: i32)
        requires
            self.wf(),
        ensures
            r == hand_total(self.dealer.cards@),
    {
        self.dealer.get_total_value()
    }

    /// The human draws one face-up card. Returns whether the turn is over,
    /// that is whether the total has reached 21 or gone past it.
    pub fn player_hit<S: CardSource>(&mut self, deck: &mut S) -> (over: bool)
        requires
            old(self).wf(),
            old(self).human.cards.len() < MAX_HAND_CARDS,
        ensures
            final(self).wf(),
            final(self).dealer == old(self).dealer,
            final(self).human.cards.len() == old(self).human.cards.len() + 1,
            final(self).human.cards@.drop_last() == old(self).human.cards@,
            !final(self).human.cards@.last().hidden,
            over == (hand_total(final(self).human.cards@) >= 21),
    {
        let c = deck.draw(false);
        self.human.add_card(c);
        assert(self.human.cards@.drop_last() =~= old(self).human.cards@);
        let total = self.human.get_total_value();
        total >= 21
    }

    /// The dealer's turn: its hidden card is turned up, then it draws
    /// face-up cards while its total is below 15, and stops at the first
    /// total of 15 or more.
    pub fn dealer_turn<S: CardSource>(&mut self, deck: &mut S)
        requires
            old(self).wf(),
            old(self).dealer.cards.len() >= 2,
        ensures
            final(self).wf(),
            final(self).human == old(self).human,
            ({
                let before = old(self).dealer.cards@;
                let after = final(self).dealer.cards@;
                let start = before.update(1, Card { hidden: false, ..before[1] });
                &&& after.len() >= before.len()
                &&& after.subrange(0, before.len() as int) == start
                &&& forall|k: int| before.len() <= k < after.len() ==> !(#[trigger] after[k]).hidden
                &&& hand_total(after) >= DEALER_STANDS_AT
                &&& forall|k: int|
                    before.len() <= k < after.len() ==> hand_total(
                        #[trigger] after.subrange(0, k),
                    ) < DEALER_STANDS_AT
            }),
    {
        let ghost before = self.dealer.cards@;
        self.dealer.reveal_at(1);
        let ghost start = self.dealer.cards@;
        let mut total = self.dealer.get_total_value();
        proof {
            lemma_push_totals(start, start[0]);
            lemma_hard_total_bounds(start);
        }
        while total < DEALER_STANDS_AT
            invariant
                self.wf(),
                self.human == old(self).human,
                total == hand_total(self.dealer.cards@),
                self.dealer.cards.len() <= hard_total(self.dealer.cards@) <= total,
                self.dealer.cards.len() >= before.len(),
                start.len() == before.len(),
                self.dealer.cards@.subrange(0, before.len() as int) == start,
                forall|k: int|
                    before.len() <= k < self.dealer.cards.len() ==> !(
                    #[trigger] self.dealer.cards@[k]).hidden,
                forall|k: int|
                    before.len() <= k < self.dealer.cards.len() ==> hand_total(
                        #[trigger] self.dealer.cards@.subrange(0, k),
                    ) < DEALER_STANDS_AT,
            decreases 15 - self.dealer.cards.len(),
        {
            let ghost prev = self.dealer.cards@;
            proof {
                lemma_hard_total_bounds(prev);
            }
            let c = deck.draw(false);
            self.dealer.add_card(c);
            proof {
                lemma_push_totals(prev, c);
                assert(self.dealer.cards@.subrange(0, prev.len() as int) =~= prev);
                assert(self.dealer.cards@.subrange(0, before.len() as int) =~= start);
                assert(self.dealer.cards@ == prev.push(c));
                assert(hard_total(prev) <= hand_total(prev) < DEALER_STANDS_AT);
                assert forall|k: int|
                    before.len() <= k < self.dealer.cards.len() implies hand_total(
                        #[trigger] self.dealer.cards@.subrange(0, k),
                    ) < DEALER_STANDS_AT by {
                    if k < prev.len() {
                        assert(self.dealer.cards@.subrange(0, k) =~= prev.subrange(0, k));
                    }
                }
            }
            total = self.dealer.get_total_value();
            proof {
                lemma_push_totals(self.dealer.cards@, c);
                lemma_hard_total_bounds(self.dealer.cards@);
            }
        }
    }

    /// The outcome of the round from the two current totals.
    pub fn outcome(&self) -> (r: RoundStatus)
        requires
            self.wf(),
        ensures
            r == round_outcome(hand_total(self.human.cards@), hand_total(self.dealer.cards@)),
    {
        let p = self.human.get_total_value();
        let d = self.dealer.get_total_value();
        resolve(p, d)
    }
}

} // verus!
