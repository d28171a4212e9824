use vstd::prelude::*;

verus! {

/// The thirteen ranks of a standard deck.
#[derive(Clone, Copy, Debug, PartialEq, Eq, Structural)]
pub enum Rank {
    Ace,
    Two,
    Three,
    Four,
    Five,
    Six,
    Seven,
    Eight,
    Nine,
    Ten,
    Jack,
    Queen,
    King,
}

/// The four suits; they never affect scoring.
#[derive(Clone, Copy, Debug, PartialEq, Eq, Structural)]
pub enum Suit {
    Clubs,
    Spades,
    Diamonds,
    Hearts,
}

/// One card; `hidden` marks a card whose face is not shown yet.
#[derive(Clone, Copy, Debug, PartialEq, Eq, Structural)]
pub struct Card {
    pub rank: Rank,
    pub suit: Suit,
    pub hidden: bool,
}

/// Number of distinct cards in a deck.
pub const DECK_SIZE: u32 = 52;

/// Rank of the card with rank index `i` (`0..13`): 1 is the Ace,
/// 11, 12 and 0 the Jack, Queen and King, the others their numeral.
pub open spec fn rank_of_index(i: int) -> Rank {
    if i == 1 {
        Rank::Ace
    } else if i == 2 {
        Rank::Two
    } else if i == 3 {
        Rank::Three
    } else if i == 4 {
        Rank::Four
    } else if i == 5 {
        Rank::Five
    } else if i == 6 {
        Rank::Six
    } else if i == 7 {
        Rank::Seven
    } else if i == 8 {
        Rank::Eight
    } else if i == 9 {
        Rank::Nine
    } else if i == 10 {
        Rank::Ten
    } else if i == 11 {
        Rank::Jack
    } else if i == 12 {
        Rank::Queen
    } else {
        Rank::King
    }
}

/// Suit of the card with suit index `i` (`0..4`).
pub open spec fn suit_of_index(i: int) -> Suit {
    if i == 0 {
        Suit::Spades
    } else if i == 1 {
        Suit::Clubs
    } else if i == 2 {
        Suit::Diamonds
    } else {
        Suit::Hearts
    }
}

/// The card at position `idx` of the virtual 52-card deck.
pub open spec fn card_at(idx: int, hidden: bool) -> Card {
    Card { rank: rank_of_index(idx % 13), suit: suit_of_index(idx / 13), hidden }
}

impl Rank {
    /// The rank with rank index `i`.
    pub fn from_index(i: u32) -> (r: Rank)
        requires
            i < 13,
        ensures
            r == rank_of_index(i as int),
    {
        match i {
            1 => Rank::Ace,
            2 => Rank::Two,
            3 => Rank::Three,
            4 => Rank::Four,
            5 => Rank::Five,
            6 => Rank::Six,
            7 => Rank::Seven,
            8 => Rank::Eight,
            9 => Rank::Nine,
            10 => Rank::Ten,
            11 => Rank::Jack,
            12 => Rank::Queen,
            _ => Rank::King,
        }
    }
}

impl Suit {
    /// The suit with suit index `i`.
    pub fn from_index(i: u32) -> (r: Suit)
        requires
            i < 4,
        ensures
            r == suit_of_index(i as int),
    {
        match i {
            0 => Suit::Spades,
            1 => Suit::Clubs,
            2 => Suit::Diamonds,
            _ => Suit::Hearts,
        }
    }
}

impl Card {
    /// A card of the given rank and suit.
    pub fn new(rank: Rank, suit: Suit, hidden: bool) -> (r: Card)
        ensures
            r == (Card { rank, suit, hidden }),
    {
        Card { rank, suit, hidden }
    }

    /// Turns the card face up.
    pub fn reveal_card(&mut self)
        ensures
            *final(self) == (Card { hidden: false, ..*old(self) }),
    {
        self.hidden = false;
    }
}

/// Maps a deck position to its card: rank by `idx % 13`, suit by `idx / 13`.
pub fn card_from_index(idx: u32, hidden: bool) -> (r: Card)
    requires
        idx < DECK_SIZE,
    ensures
        r == card_at(idx as int, hidden),
{
    Card { rank: Rank::from_index(idx % 13), suit: Suit::from_index(idx / 13), hidden }
}

/// Relies on rand's `thread_rng().gen_range(0..bound)`: a value in `0..bound`.
/// It panics on an empty range, hence `bound > 0`.
#[verifier::external_body]
fn random_below(bound: u32) -> (r: u32)
    requires
        bound > 0,
    ensures
        r < bound,
{
    rand::Rng::gen_range(&mut rand::thread_rng(), 0..bound)
}

/// Draws one card uniformly from the 52, with replacement.
pub fn draw_card(hidden: bool) -> (r: Card)
    ensures
        exists|idx: int| 0 <= idx < DECK_SIZE && r == card_at(idx, hidden),
        r.hidden == hidden,
{
    let idx = random_below(DECK_SIZE);
    card_from_index(idx, hidden)
}

} // verus!
