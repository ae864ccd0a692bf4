use uno::card::{Card, Color, DrawEffect, TurnEffect};
use uno::text::{chars_of, decimal_text, spells};

#[test]
fn colors_have_their_words() {
    assert_eq!(Color::Red.to_string(), "red");
    assert_eq!(Color::Blue.to_string(), "blue");
    assert_eq!(Color::Green.to_string(), "green");
    assert_eq!(Color::Yellow.to_string(), "yellow");
}

#[test]
fn effects_have_their_words() {
    assert_eq!(TurnEffect::Skip.to_string(), "skip");
    assert_eq!(TurnEffect::Reverse.to_string(), "reverse");
    assert_eq!(DrawEffect::Draw(2).to_string(), "draw 2");
    assert_eq!(DrawEffect::Draw(4).to_string(), "draw 4");
    assert_eq!(DrawEffect::Draw(-12).to_string(), "draw -12");
}

#[test]
fn renders_wild_red_draw_4() {
    let card = Card::from("wild red draw4");
    assert_eq!(card.render(), "wild red draw 4");
}

#[test]
fn renders_all_parts_in_order() {
    let card = Card {
        number: Some(7),
        color: Some(Color::Green),
        turn_effect: Some(TurnEffect::Reverse),
        draw_effect: Some(DrawEffect::Draw(2)),
        wild: true,
    };
    assert_eq!(card.render(), "wild green 7 reverse draw 2");
}

#[test]
fn renders_single_parts_without_spaces() {
    assert_eq!(Card::default().render(), "");
    assert_eq!(Card::from("wild").render(), "wild");
    assert_eq!(Card::from("yellow").render(), "yellow");
    assert_eq!(Card::from("0").render(), "0");
    assert_eq!(Card::from("skip").render(), "skip");
    assert_eq!(Card::from("blue 9").render(), "blue 9");
    assert_eq!(Card::from("red skip").render(), "red skip");
}

#[test]
fn decimal_text_agrees_with_std() {
    let numbers = [0, 1, 9, 10, 11, 99, 100, 101, 12345, -1, -10, -2048, i32::MAX, i32::MIN];
    for number in numbers {
        assert_eq!(decimal_text(number), number.to_string());
    }
    assert_eq!(decimal_text(i32::MIN), "-2147483648");
    assert_eq!(decimal_text(i32::MAX), "2147483647");
}

#[test]
fn chars_of_lists_the_characters() {
    assert_eq!(chars_of(""), Vec::<char>::new());
    assert_eq!(chars_of("a b"), vec!['a', ' ', 'b']);
    assert_eq!(chars_of("é7"), vec!['é', '7']);
}

#[test]
fn spells_compares_a_part_of_the_text() {
    let text = chars_of("red blue");
    assert!(spells(&text, 0, 3, "red"));
    assert!(spells(&text, 4, 8, "blue"));
    assert!(!spells(&text, 0, 3, "rad"));
    assert!(!spells(&text, 0, 4, "red"));
    assert!(!spells(&text, 0, 2, "red"));
    assert!(spells(&text, 3, 3, ""));
}
