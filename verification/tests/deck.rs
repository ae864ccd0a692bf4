use uno::card::{Card, Color};
use uno::deck::create_deck;

fn create_cards_from_strs(strs: Vec<&str>) -> Vec<Card> {
    strs.iter().map(|str| Card::from(*str)).collect()
}

fn remove_card_or_panic(card_to_remove: &Card, cards: &mut Vec<Card>) {
    let found_card_position = cards.iter().position(|card: &Card| card == card_to_remove);
    cards.remove(found_card_position.unwrap());
}

fn count_of(card: &Card, cards: &Vec<Card>) -> usize {
    cards.iter().filter(|other| *other == card).count()
}

#[test]
fn contains_all_standard_cards() {
    let standard_cards: Vec<Card> = create_cards_from_strs(vec![
        "blue 0",
        "blue 1",
        "blue 1",
        "blue 2",
        "blue 2",
        "blue 3",
        "blue 3",
        "blue 4",
        "blue 4",
        "blue 5",
        "blue 5",
        "blue 6",
        "blue 6",
        "blue 7",
        "blue 7",
        "blue 8",
        "blue 8",
        "blue 9",
        "blue 9",
        "red 1",
        "red 1",
        "red 2",
        "red 2",
        "red 3",
        "red 3",
        "red 4",
        "red 4",
        "red 5",
        "red 5",
        "red 6",
        "red 6",
        "red 7",
        "red 7",
        "red 8",
        "red 8",
        "red 9",
        "red 9",
        "green 0",
        "green 1",
        "green 1",
        "green 2",
        "green 2",
        "green 3",
        "green 3",
        "green 4",
        "green 4",
        "green 5",
        "green 5",
        "green 6",
        "green 6",
        "green 7",
        "green 7",
        "green 8",
        "green 8",
        "green 9",
        "green 9",
        "yellow 0",
        "yellow 1",
        "yellow 1",
        "yellow 2",
        "yellow 2",
        "yellow 3",
        "yellow 3",
        "yellow 4",
        "yellow 4",
        "yellow 5",
        "yellow 5",
        "yellow 6",
        "yellow 6",
        "yellow 7",
        "yellow 7",
        "yellow 8",
        "yellow 8",
        "yellow 9",
        "yellow 9",
        "blue skip",
        "blue skip",
        "red skip",
        "red skip",
        "green skip",
        "green skip",
        "yellow skip",
        "yellow skip",
        "blue reverse",
        "blue reverse",
        "red reverse",
        "red reverse",
        "green reverse",
        "green reverse",
        "yellow reverse",
        "yellow reverse",
        "blue draw2",
        "blue draw2",
        "red draw2",
        "red draw2",
        "green draw2",
        "green draw2",
        "yellow draw2",
        "yellow draw2",
        "wild",
        "wild",
        "wild",
        "wild",
        "wild draw4",
        "wild draw4",
        "wild draw4",
        "wild draw4",
    ]);

    let mut received_cards = create_deck();

    for card in standard_cards {
        remove_card_or_panic(&card, &mut received_cards);
    }
}

#[test]
fn deck_has_108_cards() {
    assert_eq!(create_deck().len(), 108);
}

#[test]
fn deck_has_the_standard_composition() {
    let deck = create_deck();
    let colors = ["red", "blue", "green", "yellow"];
    let mut counted = 0;
    for color in colors {
        assert_eq!(count_of(&Card::from(format!("{} 0", color).as_str()), &deck), 1);
        counted += 1;
        for number in 1..10 {
            let card = Card::from(format!("{} {}", color, number).as_str());
            assert_eq!(count_of(&card, &deck), 2);
            counted += 2;
        }
        for effect in ["skip", "reverse", "draw2"] {
            let card = Card::from(format!("{} {}", color, effect).as_str());
            assert_eq!(count_of(&card, &deck), 2);
            counted += 2;
        }
    }
    assert_eq!(count_of(&Card::from("wild"), &deck), 4);
    assert_eq!(count_of(&Card::from("wild draw4"), &deck), 4);
    counted += 8;
    // Nothing else is in the deck.
    assert_eq!(counted, 108);
    assert_eq!(deck.len(), 108);
}

#[test]
fn each_color_has_25_cards() {
    let deck = create_deck();
    for color in [Color::Red, Color::Blue, Color::Green, Color::Yellow] {
        let held = deck.iter().filter(|card| card.color == Some(color)).count();
        assert_eq!(held, 25);
    }
    let colorless = deck.iter().filter(|card| card.color.is_none()).count();
    assert_eq!(colorless, 8);
    assert!(deck.iter().all(|card| card.wild == card.color.is_none()));
}
