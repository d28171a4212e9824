use blackjack::card::{card_from_index, draw_card, Card, Rank, Suit, DECK_SIZE};
use blackjack::hand::{Player, Role};
use blackjack::round::{resolve, CardSource, RandomDeck, Round, RoundStatus, ScriptedDeck};
use blackjack::session::Session;

fn c(rank: Rank) -> Card {
    Card::new(rank, Suit::Spades, false)
}

fn hand(ranks: &[Rank]) -> Player {
    let mut p = Player::new(Role::Human);
    for r in ranks {
        p.add_card(c(*r));
    }
    p
}

fn deck(ranks: &[Rank]) -> ScriptedDeck {
    ScriptedDeck::new(ranks.iter().map(|r| c(*r)).collect(), c(Rank::Two))
}

#[test]
fn empty_hand_is_zero() {
    assert_eq!(hand(&[]).get_total_value(), 0);
}

#[test]
fn no_aces_sum_face_values() {
    assert_eq!(hand(&[Rank::King, Rank::Queen]).get_total_value(), 20);
    assert_eq!(hand(&[Rank::Two, Rank::Jack, Rank::Nine]).get_total_value(), 21);
    assert_eq!(hand(&[Rank::Nine, Rank::Jack, Rank::Two]).get_total_value(), 21);
    assert_eq!(hand(&[Rank::Ten, Rank::Eight, Rank::Seven]).get_total_value(), 25);
}

#[test]
fn total_ignores_suit_and_face() {
    let mut p = Player::new(Role::Human);
    p.add_card(Card::new(Rank::Seven, Suit::Hearts, true));
    p.add_card(Card::new(Rank::Queen, Suit::Diamonds, false));
    assert_eq!(p.get_total_value(), 17);
}

#[test]
fn one_ace_counts_eleven_or_one() {
    assert_eq!(hand(&[Rank::Ace, Rank::King]).get_total_value(), 21);
    assert_eq!(hand(&[Rank::Ace, Rank::Five, Rank::Eight]).get_total_value(), 14);
    assert_eq!(hand(&[Rank::Ace, Rank::Six]).get_total_value(), 17);
}

#[test]
fn many_aces_demoted_one_at_a_time() {
    assert_eq!(hand(&[Rank::Ace, Rank::Ace, Rank::Nine]).get_total_value(), 21);
    assert_eq!(hand(&[Rank::Ace, Rank::Ace, Rank::Ace, Rank::Eight]).get_total_value(), 21);
    assert_eq!(hand(&[Rank::Ace, Rank::Ace]).get_total_value(), 12);
    assert_eq!(hand(&[Rank::Ace, Rank::Ace, Rank::King, Rank::King]).get_total_value(), 22);
}

fn expected(p: i32, d: i32) -> RoundStatus {
    if p > 21 && d > 21 {
        RoundStatus::Draw
    } else if p > 21 {
        RoundStatus::Loss
    } else if d > 21 {
        RoundStatus::Win
    } else if p > d {
        RoundStatus::Win
    } else if p < d {
        RoundStatus::Loss
    } else {
        RoundStatus::Draw
    }
}

#[test]
fn resolution_table() {
    let totals = [17, 18, 19, 20, 21, 22, 25];
    for p in totals {
        for d in totals {
            assert_eq!(resolve(p, d), expected(p, d), "player {} dealer {}", p, d);
        }
    }
    assert_eq!(resolve(22, 25), RoundStatus::Draw);
    assert_eq!(resolve(22, 17), RoundStatus::Loss);
    assert_eq!(resolve(20, 25), RoundStatus::Win);
    assert_eq!(resolve(19, 19), RoundStatus::Draw);
    assert_eq!(resolve(21, 20), RoundStatus::Win);
    assert_eq!(resolve(18, 20), RoundStatus::Loss);
}

#[test]
fn deck_index_maps_to_rank_and_suit() {
    assert_eq!(card_from_index(1, false), Card::new(Rank::Ace, Suit::Spades, false));
    assert_eq!(card_from_index(0, false), Card::new(Rank::King, Suit::Spades, false));
    assert_eq!(card_from_index(10, true), Card::new(Rank::Ten, Suit::Spades, true));
    assert_eq!(card_from_index(13, false), Card::new(Rank::King, Suit::Clubs, false));
    assert_eq!(card_from_index(37, false), Card::new(Rank::Jack, Suit::Diamonds, false));
    assert_eq!(card_from_index(51, false), Card::new(Rank::Queen, Suit::Hearts, false));
    assert_eq!(DECK_SIZE, 52);
}

#[test]
fn random_draws_vary_and_keep_face() {
    let mut seen_other = false;
    let first = draw_card(true);
    assert!(first.hidden);
    for _ in 0..400 {
        let d = draw_card(false);
        assert!(!d.hidden);
        if d.rank != first.rank || d.suit != first.suit {
            seen_other = true;
        }
    }
    assert!(seen_other);
    let mut ranks_not_king = false;
    let mut rd = RandomDeck;
    for _ in 0..400 {
        let d = rd.draw(false);
        if d.rank != Rank::King || d.suit != Suit::Hearts {
            ranks_not_king = true;
        }
    }
    assert!(ranks_not_king);
}

#[test]
fn reveal_card_turns_face_up() {
    let mut card = Card::new(Rank::Four, Suit::Hearts, true);
    card.reveal_card();
    assert_eq!(card, Card::new(Rank::Four, Suit::Hearts, false));
}

#[test]
fn starting_hands_hide_dealer_second_card() {
    let mut d = Player::new(Role::Dealer);
    d.draw_starting_hand();
    assert_eq!(d.cards.len(), 2);
    assert!(!d.cards[0].hidden);
    assert!(d.cards[1].hidden);
    let mut h = Player::new(Role::Human);
    h.draw_starting_hand();
    assert_eq!(h.cards.len(), 2);
    assert!(!h.cards[0].hidden && !h.cards[1].hidden);
    d.reveal_at(1);
    assert!(!d.cards[1].hidden);
}

#[test]
fn start_hand_with_given_cards() {
    let mut d = Player::new(Role::Dealer);
    d.start_hand_with(c(Rank::Ace), c(Rank::Six));
    assert_eq!(d.cards, vec![c(Rank::Ace), Card::new(Rank::Six, Suit::Spades, true)]);
    assert_eq!(d.get_total_value(), 17);
}

#[test]
fn scripted_deck_cycles_and_falls_back() {
    let mut s = deck(&[Rank::Three, Rank::Jack]);
    assert_eq!(s.draw(false).rank, Rank::Three);
    assert_eq!(s.draw(true), Card::new(Rank::Jack, Suit::Spades, true));
    assert_eq!(s.draw(false).rank, Rank::Three);
    let mut e = deck(&[]);
    assert_eq!(e.draw(true), Card::new(Rank::Two, Suit::Spades, true));
}

#[test]
fn deal_order_and_faces() {
    let mut s = deck(&[Rank::Ten, Rank::Eight, Rank::Nine, Rank::Four]);
    let r = Round::deal(&mut s);
    assert_eq!(r.player_total(), 18);
    assert_eq!(r.dealer_total(), 13);
    assert!(r.dealer.cards[1].hidden);
    assert!(!r.human.cards[1].hidden);
}

#[test]
fn dealer_stands_at_exactly_fifteen() {
    let mut s = deck(&[Rank::Ten, Rank::Eight, Rank::Ten, Rank::Five, Rank::King]);
    let mut r = Round::deal(&mut s);
    r.dealer_turn(&mut s);
    assert_eq!(r.dealer.cards.len(), 2);
    assert!(!r.dealer.cards[1].hidden);
    assert_eq!(r.dealer_total(), 15);
}

#[test]
fn dealer_draws_again_at_fourteen() {
    let mut s = deck(&[Rank::Ten, Rank::Eight, Rank::Ten, Rank::Four, Rank::Two, Rank::King]);
    let mut r = Round::deal(&mut s);
    r.dealer_turn(&mut s);
    assert_eq!(r.dealer.cards.len(), 3);
    assert_eq!(r.dealer_total(), 16);
    assert!(r.dealer.cards.iter().all(|k| !k.hidden));
}

#[test]
fn dealer_soft_hand_drops_and_draws_on() {
    // Ace and three make 14; a nine gives a hard 13, so another card follows.
    let mut s = deck(&[
        Rank::Ten, Rank::Eight, Rank::Ace, Rank::Three, Rank::Nine, Rank::Five, Rank::King,
    ]);
    let mut r = Round::deal(&mut s);
    r.dealer_turn(&mut s);
    assert_eq!(r.dealer.cards.len(), 4);
    assert_eq!(r.dealer_total(), 18);
}

#[test]
fn player_hit_stops_at_twenty_one_or_bust() {
    let mut s = deck(&[Rank::Ten, Rank::Five, Rank::Ten, Rank::Seven, Rank::Two, Rank::Four, Rank::King]);
    let mut r = Round::deal(&mut s);
    assert!(!r.player_hit(&mut s));
    assert_eq!(r.player_total(), 17);
    assert!(r.player_hit(&mut s));
    assert_eq!(r.player_total(), 21);
    assert!(r.player_hit(&mut s));
    assert_eq!(r.player_total(), 31);
    assert_eq!(r.dealer.cards.len(), 2);
}

#[test]
fn session_balance_per_outcome() {
    let mut s = Session::new(100);
    s.play_bet(10, RoundStatus::Win);
    assert_eq!(s.chips, 110);
    let mut s = Session::new(100);
    s.play_bet(10, RoundStatus::Loss);
    assert_eq!(s.chips, 90);
    let mut s = Session::new(100);
    s.play_bet(10, RoundStatus::Draw);
    assert_eq!(s.chips, 100);
    let mut s = Session::new(50);
    s.place_bet(20);
    assert_eq!(s.chips, 30);
    s.settle(20, RoundStatus::Win);
    assert_eq!(s.chips, 70);
}

#[test]
fn session_ends_when_broke() {
    let mut s = Session::new(10);
    assert!(!s.is_broke());
    s.play_bet(10, RoundStatus::Loss);
    assert_eq!(s.chips, 0);
    assert!(s.is_broke());
    assert!(Session::new(-5).is_broke());
}

#[test]
fn stand_on_eighteen_against_twenty_loses() {
    let mut session = Session::new(100);
    session.place_bet(10);
    assert_eq!(session.chips, 90);
    let mut s = deck(&[Rank::Ten, Rank::Eight, Rank::Ten, Rank::Four, Rank::Six]);
    let mut r = Round::deal(&mut s);
    assert_eq!(r.player_total(), 18);
    r.dealer_turn(&mut s);
    assert_eq!(r.dealer_total(), 20);
    let outcome = r.outcome();
    assert_eq!(outcome, RoundStatus::Loss);
    session.settle(10, outcome);
    assert_eq!(session.chips, 90);
}

#[test]
fn blackjack_stands_and_dealer_busts() {
    let mut session = Session::new(100);
    session.place_bet(10);
    let mut s = deck(&[Rank::Ace, Rank::King, Rank::Ten, Rank::Two, Rank::Two, Rank::King]);
    let mut r = Round::deal(&mut s);
    assert_eq!(r.player_total(), 21);
    r.dealer_turn(&mut s);
    assert_eq!(r.dealer.cards.len(), 4);
    assert_eq!(r.dealer_total(), 24);
    let outcome = r.outcome();
    assert_eq!(outcome, RoundStatus::Win);
    session.settle(10, outcome);
    assert_eq!(session.chips, 110);
}

#[test]
fn deal_cards_sets_faces() {
    let hidden_ace = Card::new(Rank::Ace, Suit::Hearts, true);
    let r = Round::deal_cards(hidden_ace, c(Rank::Nine), c(Rank::Six), c(Rank::Seven));
    assert_eq!(r.human.cards, vec![Card::new(Rank::Ace, Suit::Hearts, false), c(Rank::Nine)]);
    assert_eq!(r.dealer.cards, vec![c(Rank::Six), Card::new(Rank::Seven, Suit::Spades, true)]);
    assert_eq!(r.player_total(), 20);
    assert_eq!(r.dealer_total(), 13);
    assert_eq!(r.outcome(), RoundStatus::Win);
}

#[test]
fn draw_next_follows_script() {
    let mut s = deck(&[Rank::Five, Rank::Ace]);
    assert_eq!(s.draw_next(false), c(Rank::Five));
    assert_eq!(s.next, 1);
    assert_eq!(s.draw_next(true), Card::new(Rank::Ace, Suit::Spades, true));
    assert_eq!(s.draw_next(false), c(Rank::Five));
    assert_eq!(s.next, 1);
}
