use uno::card::{Card, DrawEffect};
use uno::draw::{draw_cards, enough_cards};
use uno::game::{play_card_draw_effect, Player};

fn sorted_texts(cards: &Vec<Card>) -> Vec<String> {
    let mut texts: Vec<String> = cards.iter().map(|card| card.render()).collect();
    texts.sort();
    texts
}

#[test]
fn deals_cards_into_players_hand() {
    let mut hand: Vec<Card> = Vec::new();
    let mut deck = vec![Card::default(), Card::default(), Card::default()];
    let mut discard: Vec<Card> = Vec::new();
    draw_cards(&mut hand, 2, &mut deck, &mut discard);
    assert!(hand.len() == 2);
    assert!(deck.len() == 1);
}

// The top card of the discard pile is never recycled: of a discard pile of
// three cards two go into the deck, and both are drawn.
#[test]
fn moves_cards_from_discard_into_deck_if_deck_doesnt_have_enough() {
    let mut hand: Vec<Card> = Vec::new();
    let mut deck: Vec<Card> = Vec::new();
    let mut discard = vec![Card::default(), Card::default(), Card::default()];
    draw_cards(&mut hand, 2, &mut deck, &mut discard);
    assert!(hand.len() == 2);
    assert!(deck.len() == 0);
    assert!(discard.len() == 1);
}

#[test]
#[should_panic]
fn panics_if_there_arent_enough_cards_in_deck_and_discard_for_player_to_draw() {
    let mut hand: Vec<Card> = Vec::new();
    let mut deck = vec![Card::default()];
    let mut discard = vec![Card::default()];
    assert!(!enough_cards(3, &deck, &discard));
    draw_cards(&mut hand, 3, &mut deck, &mut discard);
}

// The wild card lies below the top of the discard pile, so that it can be
// recycled.
#[test]
fn resets_wild_card_color_when_cards_move_from_discard_to_deck() {
    let mut hand: Vec<Card> = Vec::new();
    let mut deck: Vec<Card> = Vec::new();
    let old_wild_card = Card::from("wild blue");
    let mut discard = vec![old_wild_card, Card::from("blue 3")];
    draw_cards(&mut hand, 1, &mut deck, &mut discard);
    let drawn_card = hand.get(0).unwrap();
    assert!(drawn_card.color.is_none());
    assert!(drawn_card.wild);
    assert_eq!(discard, vec![Card::from("blue 3")]);
}

#[test]
fn two_cards_move_from_the_deck_to_the_next_player_after_a_draw_2_card_is_played() {
    let mut deck: Vec<Card> = vec![Card::from("red 1"), Card::from("blue 2"), Card::from("green 3")];
    let mut discard: Vec<Card> = vec![];
    let mut next_player = Player::default();
    let draw_effect = DrawEffect::Draw(2);

    play_card_draw_effect(&draw_effect, &mut next_player, 1, &mut deck, &mut discard);

    assert_eq!(deck.len(), 1);
    assert_eq!(next_player.hand.len(), 2);
}

#[test]
fn draws_from_the_top_of_the_deck_top_card_first() {
    let mut hand: Vec<Card> = vec![Card::from("yellow 0")];
    let mut deck = vec![Card::from("red 1"), Card::from("blue 2"), Card::from("green 3")];
    let mut discard = vec![Card::from("wild red"), Card::from("red 9")];
    draw_cards(&mut hand, 2, &mut deck, &mut discard);
    assert_eq!(hand, vec![Card::from("yellow 0"), Card::from("green 3"), Card::from("blue 2")]);
    assert_eq!(deck, vec![Card::from("red 1")]);
    // The deck held enough: the discard pile is as it was, colors and all.
    assert_eq!(discard, vec![Card::from("wild red"), Card::from("red 9")]);
}

#[test]
fn drawing_nothing_changes_nothing() {
    for count in [0, -1, i32::MIN] {
        let mut hand: Vec<Card> = vec![Card::from("yellow 0")];
        let mut deck: Vec<Card> = Vec::new();
        let mut discard: Vec<Card> = Vec::new();
        assert!(enough_cards(count, &deck, &discard));
        draw_cards(&mut hand, count, &mut deck, &mut discard);
        assert_eq!(hand, vec![Card::from("yellow 0")]);
        assert!(deck.is_empty());
        assert!(discard.is_empty());
    }
}

#[test]
fn recycling_keeps_the_top_card_and_every_other_card() {
    let mut hand: Vec<Card> = Vec::new();
    let mut deck = vec![Card::from("red 1")];
    let mut discard = vec![
        Card::from("wild green draw4"),
        Card::from("blue 2"),
        Card::from("wild yellow"),
        Card::from("yellow 7"),
    ];
    draw_cards(&mut hand, 3, &mut deck, &mut discard);
    assert_eq!(hand.len(), 3);
    assert_eq!(deck.len(), 1);
    assert_eq!(discard, vec![Card::from("yellow 7")]);
    let mut circulating = hand.clone();
    circulating.extend(deck.iter().cloned());
    let expected = vec![
        Card::from("red 1"),
        Card::from("wild draw4"),
        Card::from("blue 2"),
        Card::from("wild"),
    ];
    assert_eq!(sorted_texts(&circulating), sorted_texts(&expected));
}

#[test]
fn enough_cards_leaves_out_the_top_of_the_discard_pile() {
    let deck = vec![Card::default(), Card::default()];
    let discard = vec![Card::default(), Card::default()];
    assert!(enough_cards(3, &deck, &discard));
    assert!(!enough_cards(4, &deck, &discard));
    let empty: Vec<Card> = Vec::new();
    // With an empty discard pile one card of the deck is held back.
    assert!(enough_cards(1, &deck, &empty));
    assert!(!enough_cards(2, &deck, &empty));
    assert!(!enough_cards(1, &empty, &empty));
    assert!(!enough_cards(1, &empty, &vec![Card::default()]));
    assert!(enough_cards(1, &empty, &discard));
    assert!(!enough_cards(i32::MAX, &deck, &discard));
}

#[test]
fn draw_effect_of_nothing_draws_nothing() {
    let mut deck: Vec<Card> = vec![Card::from("red 1")];
    let mut discard: Vec<Card> = vec![];
    let mut next_player = Player::default();
    next_player.ai = true;
    play_card_draw_effect(&DrawEffect::Draw(0), &mut next_player, 0, &mut deck, &mut discard);
    assert_eq!(deck.len(), 1);
    assert!(next_player.hand.is_empty());
    assert!(next_player.ai);
}
