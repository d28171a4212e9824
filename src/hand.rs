use vstd::prelude::*;
use crate::card::{Card, Rank, draw_card};

verus! {

/// Largest number of cards a hand may hold; keeps every total within `i32`.
pub const MAX_HAND_CARDS: usize = 10_000_000;

/// Highest total that does not bust.
pub const BLACKJACK: i32 = 21;

/// Who holds a hand: the dealer's second starting card is dealt face down.
#[derive(Clone, Copy, Debug, PartialEq, Eq, Structural)]
pub enum Role {
    Human,
    Dealer,
}

/// One participant and the cards it holds, in the order they were dealt.
pub struct Player {
    pub role: Role,
    pub cards: Vec<Card>,
}

/// Points of a rank when an Ace counts 1: numerals at face value, J, Q and K at 10.
pub open spec fn hard_points(r: Rank) -> int {
    match r {
        Rank::Ace => 1,
        Rank::Two => 2,
        Rank::Three => 3,
        Rank::Four => 4,
        Rank::Five => 5,
        Rank::Six => 6,
        Rank::Seven => 7,
        Rank::Eight => 8,
        Rank::Nine => 9,
        _ => 10,
    }
}

/// Sum of the cards with every Ace counted as 1.
pub open spec fn hard_total(cards: Seq<Card>) -> int
    decreases cards.len(),
{
    if cards.len() == 0 {
        0
    } else {
        hard_total(cards.drop_last()) + hard_points(cards.last().rank)
    }
}

/// Number of Aces among the cards.
pub open spec fn ace_count(cards: Seq<Card>) -> nat
    decreases cards.len(),
{
    if cards.len() == 0 {
        0
    } else {
        ace_count(cards.drop_last()) + if cards.last().rank == Rank::Ace { 1nat } else { 0nat }
    }
}

/// Value of a hand: one Ace counts 11 where that keeps the total at 21 or
/// below, every other Ace counts 1.
pub open spec fn hand_total(cards: Seq<Card>) -> int {
    let h = hard_total(cards);
    if ace_count(cards) > 0 && h + 10 <= 21 {
        h + 10
    } else {
        h
    }
}

/// Every card adds at least one point, an Ace exactly one.
pub proof fn lemma_hard_total_bounds(cards: Seq<Card>)
    ensures
        ace_count(cards) <= cards.len(),
        cards.len() <= hard_total(cards) <= 10 * cards.len(),
        hard_total(cards) >= ace_count(cards),
        hard_total(cards) + 9 * ace_count(cards) <= 10 * cards.len(),
    decreases cards.len(),
{
    if cards.len() > 0 {
        lemma_hard_total_bounds(cards.drop_last());
    }
}

/// Aces still counted 11 are demoted to 1 one at a time while the total exceeds 21.
pub open spec fn demote(total: int, aces: nat) -> int
    decreases aces,
{
    if aces > 0 && total > 21 {
        demote(total - 10, (aces - 1) as nat)
    } else {
        total
    }
}

/// Total of the cards when `k` of the Aces count 11 and the rest 1.
pub open spec fn high_aces_total(cards: Seq<Card>, k: int) -> int {
    hard_total(cards) + 10 * k
}

/// Hard total and Ace count of two hands laid end to end add up.
pub proof fn lemma_totals_append(a: Seq<Card>, b: Seq<Card>)
    ensures
        hard_total(a + b) == hard_total(a) + hard_total(b),
        ace_count(a + b) == ace_count(a) + ace_count(b),
    decreases b.len(),
{
    if b.len() == 0 {
        assert(a + b =~= a);
    } else {
        lemma_totals_append(a, b.drop_last());
        assert((a + b).drop_last() =~= a + b.drop_last());
        assert((a + b).last() == b.last());
    }
}

/// A hand without Aces is worth the plain sum of its cards: numerals at
/// face value and J, Q, K at 10.
pub proof fn lemma_total_without_aces(cards: Seq<Card>)
    requires
        ace_count(cards) == 0,
    ensures
        hand_total(cards) == hard_total(cards),
{
}

/// The value of a hand does not depend on the order of its cards: two
/// parts may be exchanged.
pub proof fn lemma_total_order_free(a: Seq<Card>, b: Seq<Card>)
    ensures
        hand_total(a + b) == hand_total(b + a),
{
    lemma_totals_append(a, b);
    lemma_totals_append(b, a);
}

/// The value of a hand does not depend on the order of its cards: two
/// neighbouring cards may be swapped.
pub proof fn lemma_total_swap(a: Seq<Card>, x: Card, y: Card, b: Seq<Card>)
    ensures
        hand_total(a + seq![x, y] + b) == hand_total(a + seq![y, x] + b),
{
    lemma_totals_append(seq![x], seq![y]);
    lemma_totals_append(seq![y], seq![x]);
    assert(seq![x] + seq![y] =~= seq![x, y]);
    assert(seq![y] + seq![x] =~= seq![y, x]);
    lemma_totals_append(a, seq![x, y]);
    lemma_totals_append(a, seq![y, x]);
    lemma_totals_append(a + seq![x, y], b);
    lemma_totals_append(a + seq![y, x], b);
}

/// The value of a hand depends on the ranks alone, not on suits or faces.
pub proof fn lemma_total_ignores_suits(s: Seq<Card>, t: Seq<Card>)
    requires
        s.len() == t.len(),
        forall|i: int| 0 <= i < s.len() ==> #[trigger] s[i].rank == t[i].rank,
    ensures
        hand_total(s) == hand_total(t),
        hard_total(s) == hard_total(t),
        ace_count(s) == ace_count(t),
    decreases s.len(),
{
    if s.len() > 0 {
        let (s0, t0) = (s.drop_last(), t.drop_last());
        assert forall|i: int| 0 <= i < s0.len() implies #[trigger] s0[i].rank == t0[i].rank by {
            assert(s[i].rank == t[i].rank);
        }
        lemma_total_ignores_suits(s0, t0);
        assert(s[s.len() - 1].rank == t[t.len() - 1].rank);
    }
}

/// With exactly one Ace, the Ace counts 11 unless that would take the
/// total past 21, in which case it counts 1.
pub proof fn lemma_total_one_ace(cards: Seq<Card>)
    requires
        ace_count(cards) == 1,
    ensures
        ({
            let rest = hard_total(cards) - 1;
            hand_total(cards) == if rest + 11 <= 21 { rest + 11 } else { rest + 1 }
        }),
{
}

/// Demoting `aces` Aces of 11 one at a time from `hard + 10 * aces` ends on
/// the soft total when one Ace of 11 fits, else on the hard total.
proof fn lemma_demote_soft(hard: int, aces: nat)
    requires
        hard >= aces,
    ensures
        demote(hard + 10 * aces, aces) == if aces > 0 && hard + 10 <= 21 {
            hard + 10
        } else {
            hard
        },
    decreases aces,
{
    if aces > 0 && hard + 10 * aces > 21 {
        lemma_demote_soft(hard, (aces - 1) as nat);
    }
}

/// With any number of Aces, counting every Ace as 11 and demoting them one
/// at a time while the total exceeds 21 gives the hand's value; that value
/// is the largest choice of Aces at 11 that stays within 21, and the all-1
/// total where none does.
pub proof fn lemma_total_many_aces(cards: Seq<Card>)
    ensures
        hand_total(cards) == demote(hard_total(cards) + 10 * ace_count(cards), ace_count(cards)),
        exists|k: int|
            0 <= k <= ace_count(cards) && hand_total(cards) == #[trigger] high_aces_total(cards, k),
        forall|k: int|
            0 <= k <= ace_count(cards) && #[trigger] high_aces_total(cards, k) <= 21
                ==> high_aces_total(cards, k) <= hand_total(cards),
        hand_total(cards) > 21 ==> hand_total(cards) == hard_total(cards),
{
    lemma_hard_total_bounds(cards);
    lemma_demote_soft(hard_total(cards), ace_count(cards));
    if ace_count(cards) > 0 && hard_total(cards) + 10 <= 21 {
        assert(hand_total(cards) == high_aces_total(cards, 1));
    } else {
        assert(hand_total(cards) == high_aces_total(cards, 0));
    }
}

impl Player {
    /// An empty hand for the given participant.
    pub fn new(role: Role) -> (r: Player)
        ensures
            r.role == role,
            r.cards@ == Seq::<Card>::empty(),
    {
        Player { role, cards: Vec::new() }
    }

    /// Appends a card to the hand.
    pub fn add_card(&mut self, card: Card)
        requires
            old(self).cards.len() < MAX_HAND_CARDS,
        ensures
            final(self).role == old(self).role,
            final(self).cards@ == old(self).cards@.push(card),
    {
        self.cards.push(card);
    }

    /// Turns the card at `index` face up; the hand is otherwise unchanged.
    pub fn reveal_at(&mut self, index: usize)
        requires
            index < old(self).cards.len(),
        ensures
            final(self).role == old(self).role,
            final(self).cards@ == old(self).cards@.update(
                index as int,
                Card { hidden: false, ..old(self).cards@[index as int] },
            ),
    {
        let mut c = self.cards[index];
        c.reveal_card();
        self.cards.set(index, c);
    }

    /// Deals two random cards; the dealer's second one face down.
    pub fn draw_starting_hand(&mut self)
        requires
            old(self).cards.len() + 2 <= MAX_HAND_CARDS,
        ensures
            final(self).role == old(self).role,
            final(self).cards.len() == old(self).cards.len() + 2,
            final(self).cards@.subrange(0, old(self).cards.len() as int) == old(self).cards@,
            final(self).cards@[old(self).cards.len() as int].hidden == false,
            final(self).cards@[old(self).cards.len() + 1].hidden == (old(self).role == Role::Dealer),
    {
        let first = draw_card(false);
        let second = draw_card(self.role == Role::Dealer);
        self.start_hand_with(first, second);
    }

    /// Deals the two given cards as a starting hand: the first face up, the
    /// second face down for the dealer and face up otherwise.
    pub fn start_hand_with(&mut self, first: Card, second: Card)
        requires
            old(self).cards.len() + 2 <= MAX_HAND_CARDS,
        ensures
            final(self).role == old(self).role,
            final(self).cards@ == old(self).cards@.push(Card { hidden: false, ..first }).push(
                Card { hidden: old(self).role == Role::Dealer, ..second },
            ),
    {
        let hidden = self.role == Role::Dealer;
        self.cards.push(Card { hidden: false, ..first });
        self.cards.push(Card { hidden, ..second });
    }

    /// Total value of the hand: every Ace starts at 11 and Aces are demoted
    /// to 1 one at a time while the total exceeds 21.
    pub fn get_total_value(&self) -> (r: i32)
        requires
            self.cards.len() <= MAX_HAND_CARDS,
        ensures
            r == hand_total(self.cards@),
    {
        let mut total: i32 = 0;
        let mut aces: i32 = 0;
        let mut i: usize = 0;
        while i < self.cards.len()
            invariant
                i <= self.cards.len() <= MAX_HAND_CARDS,
                aces == ace_count(self.cards@.subrange(0, i as int)),
                total == hard_total(self.cards@.subrange(0, i as int)) + 10 * aces,
            decreases self.cards.len() - i,
        {
            let ghost prefix = self.cards@.subrange(0, i as int);
            let ghost next = self.cards@.subrange(0, i + 1);
            assert(next.drop_last() =~= prefix);
            proof {
                lemma_hard_total_bounds(prefix);
            }
            match self.cards[i].rank {
                Rank::Ace => {
                    total = total + 11;
                    aces = aces + 1;
                },
                Rank::Two => total = total + 2,
                Rank::Three => total = total + 3,
                Rank::Four => total = total + 4,
                Rank::Five => total = total + 5,
                Rank::Six => total = total + 6,
                Rank::Seven => total = total + 7,
                Rank::Eight => total = total + 8,
                Rank::Nine => total = total + 9,
                _ => total = total + 10,
            }
            i = i + 1;
        }
        assert(self.cards@.subrange(0, self.cards.len() as int) =~= self.cards@);
        let ghost hard = hard_total(self.cards@);
        let ghost all_aces = ace_count(self.cards@);
        proof {
            lemma_hard_total_bounds(self.cards@);
        }
        while aces > 0 && total > BLACKJACK
            invariant
                0 <= aces <= all_aces,
                total == hard + 10 * aces,
                aces < all_aces ==> hard + 10 * (aces + 1) > 21,
                hard >= all_aces,
                hard <= 10 * MAX_HAND_CARDS,
            decreases aces,
        {
            total = total - 10;
            aces = aces - 1;
        }
        total
    }
}

} // verus!
