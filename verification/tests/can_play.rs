use uno::card::{can_play_card, Card, Color, DrawEffect, TurnEffect};

#[test]
fn can_play_same_colors() {
    let mut prev_card = Card::default();
    prev_card.color = Some(Color::Blue);
    let mut next_card = Card::default();
    next_card.color = Some(Color::Blue);
    assert!(can_play_card(Some(&prev_card), &next_card));
}

#[test]
fn cant_play_different_colors() {
    let mut prev_card = Card::default();
    prev_card.color = Some(Color::Blue);
    let mut next_card = Card::default();
    next_card.color = Some(Color::Red);
    assert!(!can_play_card(Some(&prev_card), &next_card));
}

#[test]
fn can_play_same_numbers() {
    let mut prev_card = Card::default();
    prev_card.number = Some(5);
    let mut next_card = Card::default();
    next_card.number = Some(5);
    assert!(can_play_card(Some(&prev_card), &next_card));
}

#[test]
fn cant_play_different_numbers() {
    let mut prev_card = Card::default();
    prev_card.number = Some(5);
    let mut next_card = Card::default();
    next_card.number = Some(2);
    assert!(!can_play_card(Some(&prev_card), &next_card));
}

#[test]
fn can_play_same_turn_effects() {
    let mut prev_card = Card::default();
    prev_card.turn_effect = Some(TurnEffect::Skip);
    let mut next_card = Card::default();
    next_card.turn_effect = Some(TurnEffect::Skip);
    assert!(can_play_card(Some(&prev_card), &next_card));
}

#[test]
fn cant_play_different_turn_effects() {
    let mut prev_card = Card::default();
    prev_card.turn_effect = Some(TurnEffect::Skip);
    let mut next_card = Card::default();
    next_card.turn_effect = Some(TurnEffect::Reverse);
    assert!(!can_play_card(Some(&prev_card), &next_card));
}

#[test]
fn can_play_same_draw_effects() {
    let mut prev_card = Card::default();
    prev_card.draw_effect = Some(DrawEffect::Draw(2));
    let mut next_card = Card::default();
    next_card.draw_effect = Some(DrawEffect::Draw(2));
    assert!(can_play_card(Some(&prev_card), &next_card));
}

#[test]
fn can_play_wild_on_any_color() {
    let mut prev_card = Card::default();
    prev_card.color = Some(Color::Red);
    let mut next_card = Card::default();
    next_card.wild = true;
    assert!(can_play_card(Some(&prev_card), &next_card));
}

#[test]
fn can_play_wild_on_any_number() {
    let mut prev_card = Card::default();
    prev_card.number = Some(8);
    let mut next_card = Card::default();
    next_card.wild = true;
    assert!(can_play_card(Some(&prev_card), &next_card));
}

#[test]
fn any_card_can_open_the_game() {
    assert!(can_play_card(None, &Card::default()));
    assert!(can_play_card(None, &Card::from("red 5")));
    assert!(can_play_card(None, &Card::from("green skip")));
    assert!(can_play_card(None, &Card::from("wild draw4")));
}

#[test]
fn red_five_takes_blue_five_but_not_blue_two() {
    let red_five = Card::from("red 5");
    assert!(can_play_card(Some(&red_five), &Card::from("blue 5")));
    assert!(!can_play_card(Some(&red_five), &Card::from("blue 2")));
}

#[test]
fn can_play_different_draw_counts() {
    let draw_two = Card::from("red draw2");
    let mut draw_four = Card::default();
    draw_four.draw_effect = Some(DrawEffect::Draw(4));
    assert!(can_play_card(Some(&draw_two), &draw_four));
    assert!(can_play_card(Some(&draw_four), &Card::from("blue draw2")));
}

#[test]
fn missing_fields_on_both_cards_do_not_match() {
    // Neither card has a color, a number or an effect: nothing is shared.
    assert!(!can_play_card(Some(&Card::default()), &Card::default()));
    // A draw effect on one side only is not enough.
    assert!(!can_play_card(Some(&Card::from("red 1")), &Card::from("blue draw2")));
    assert!(!can_play_card(Some(&Card::from("red draw2")), &Card::from("blue 1")));
}

#[test]
fn a_wild_card_on_top_is_matched_by_its_color_only() {
    let wild_red = Card::from("wild red");
    assert!(can_play_card(Some(&wild_red), &Card::from("red 3")));
    assert!(!can_play_card(Some(&wild_red), &Card::from("blue 3")));
    // The legality is judged against the card on top, not the other way round.
    assert!(can_play_card(Some(&Card::from("blue 3")), &wild_red));
}
