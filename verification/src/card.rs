//! The card model: what a card is, when two cards are equal, and which card
//! may follow which.

use vstd::prelude::*;
use vstd::std_specs::cmp::PartialEqSpecImpl;
use vstd::std_specs::convert::FromSpecImpl;
use vstd::string::StringExecFns;
use crate::text::{chars_of, decimal, decimal_text, first_space, joined, lemma_first_space, spells};

verus! {

/// The four suit colors.
#[derive(Copy, Clone, PartialEq, Eq, Debug, Structural)]
pub enum Color {
    Red,
    Blue,
    Green,
    Yellow,
}

impl Color {
    /// The word for the color.
    pub open spec fn word(self) -> Seq<char> {
        match self {
            Color::Red => "red"@,
            Color::Blue => "blue"@,
            Color::Green => "green"@,
            Color::Yellow => "yellow"@,
        }
    }

    /// Names the color.
    pub fn to_string(&self) -> (text: String)
        ensures
            text@ == self.word(),
    {
        match self {
            Color::Red => "red".to_string(),
            Color::Blue => "blue".to_string(),
            Color::Green => "green".to_string(),
            Color::Yellow => "yellow".to_string(),
        }
    }
}

/// What a card does to the order of play.
#[derive(Copy, Clone, PartialEq, Eq, Debug, Structural)]
pub enum TurnEffect {
    Skip,
    Reverse,
}

impl TurnEffect {
    /// The word for the effect.
    pub open spec fn word(self) -> Seq<char> {
        match self {
            TurnEffect::Skip => "skip"@,
            TurnEffect::Reverse => "reverse"@,
        }
    }

    /// Names the effect.
    pub fn to_string(&self) -> (text: String)
        ensures
            text@ == self.word(),
    {
        match self {
            TurnEffect::Skip => "skip".to_string(),
            TurnEffect::Reverse => "reverse".to_string(),
        }
    }
}

/// What a card makes the next seat draw.
#[derive(Copy, Clone, PartialEq, Eq, Debug, Structural)]
pub enum DrawEffect {
    Draw(i32),
}

impl DrawEffect {
    /// The words for the effect: `draw` and the count.
    pub open spec fn word(self) -> Seq<char> {
        match self {
            DrawEffect::Draw(num_cards) => "draw "@ + decimal(num_cards as int),
        }
    }

    /// Names the effect.
    pub fn to_string(&self) -> (text: String)
        ensures
            text@ == self.word(),
    {
        match self {
            DrawEffect::Draw(num_cards) => {
                let mut text = "draw ".to_string();
                text.append(decimal_text(*num_cards).as_str());
                text
            },
        }
    }
}

/// A card: any combination of a number, a color, a turn effect, a draw
/// effect and the wild flag.
#[derive(Copy, Clone, Debug)]
pub struct Card {
    pub number: Option<i32>,
    pub color: Option<Color>,
    pub turn_effect: Option<TurnEffect>,
    pub draw_effect: Option<DrawEffect>,
    pub wild: bool,
}

impl Default for Card {
    /// The blank card: no number, color or effect, not wild.
    fn default() -> (card: Card)
        ensures
            card == Card::blank(),
    {
        Card { number: None, color: None, turn_effect: None, draw_effect: None, wild: false }
    }
}

impl PartialEq for Card {
    /// Two cards are equal when all five fields are.
    fn eq(&self, other: &Card) -> (equal: bool) {
        // check color
        if self.color.is_some() != other.color.is_some() {
            return false;
        }
        if let (Some(self_color), Some(other_color)) = (self.color, other.color) {
            if self_color != other_color {
                return false;
            }
        }
        // check number
        if self.number.is_some() != other.number.is_some() {
            return false;
        }
        if let (Some(self_number), Some(other_number)) = (self.number, other.number) {
            if self_number != other_number {
                return false;
            }
        }
        // check turn effect
        if self.turn_effect.is_some() != other.turn_effect.is_some() {
            return false;
        }
        if let (Some(self_turn_effect), Some(other_turn_effect)) = (
            self.turn_effect,
            other.turn_effect,
        ) {
            if self_turn_effect != other_turn_effect {
                return false;
            }
        }
        // check draw effect
        if self.draw_effect.is_some() != other.draw_effect.is_some() {
            return false;
        }
        if let (Some(self_draw_effect), Some(other_draw_effect)) = (
            self.draw_effect,
            other.draw_effect,
        ) {
            if self_draw_effect != other_draw_effect {
                return false;
            }
        }
        // check wild
        if self.wild != other.wild {
            return false;
        }
        return true;
    }
}

impl Eq for Card {

}

impl PartialEqSpecImpl for Card {
    open spec fn obeys_eq_spec() -> bool {
        true
    }

    open spec fn eq_spec(&self, other: &Card) -> bool {
        *self == *other
    }
}

impl Card {
    /// The card with no number, color or effect that is not wild.
    pub open spec fn blank() -> Card {
        Card { number: None, color: None, turn_effect: None, draw_effect: None, wild: false }
    }

    /// The words that describe the card, in this order: `wild`, the color,
    /// the number, the turn effect, the draw effect.
    pub open spec fn words(self) -> Seq<Seq<char>> {
        (if self.wild {
            seq!["wild"@]
        } else {
            Seq::empty()
        }) + (match self.color {
            Some(color) => seq![color.word()],
            None => Seq::empty(),
        }) + (match self.number {
            Some(number) => seq![decimal(number as int)],
            None => Seq::empty(),
        }) + (match self.turn_effect {
            Some(turn_effect) => seq![turn_effect.word()],
            None => Seq::empty(),
        }) + (match self.draw_effect {
            Some(draw_effect) => seq![draw_effect.word()],
            None => Seq::empty(),
        })
    }

    /// The card in words, such as `wild red draw 4`.
    pub open spec fn rendered(self) -> Seq<char> {
        joined(self.words())
    }

    /// Describes the card in words.
    pub fn render(&self) -> (text: String)
        ensures
            text@ == self.rendered(),
    {
        let mut text = String::new();
        let ghost mut words: Seq<Seq<char>> = Seq::empty();
        let mut started = false;
        if self.wild {
            started = add_word(&mut text, started, "wild", Ghost(words));
            proof {
                words = words.push("wild"@);
            }
        }
        if let Some(color) = self.color {
            let word = color.to_string();
            started = add_word(&mut text, started, word.as_str(), Ghost(words));
            proof {
                words = words.push(color.word());
            }
        }
        if let Some(number) = self.number {
            let word = decimal_text(number);
            started = add_word(&mut text, started, word.as_str(), Ghost(words));
            proof {
                words = words.push(decimal(number as int));
            }
        }
        if let Some(turn_effect) = self.turn_effect {
            let word = turn_effect.to_string();
            started = add_word(&mut text, started, word.as_str(), Ghost(words));
            proof {
                words = words.push(turn_effect.word());
            }
        }
        if let Some(draw_effect) = self.draw_effect {
            let word = draw_effect.to_string();
            started = add_word(&mut text, started, word.as_str(), Ghost(words));
            proof {
                words = words.push(draw_effect.word());
            }
        }
        assert(words == self.words());
        text
    }

    /// The card that `self` becomes when `word` is added to its
    /// description: a color, a number from 0 to 9, `skip`, `reverse`,
    /// `draw2`, `draw4` or `wild` sets what it names, any other word
    /// nothing.
    pub open spec fn with_word(self, word: Seq<char>) -> Card {
        if word == "red"@ {
            Card { color: Some(Color::Red), ..self }
        } else if word == "blue"@ {
            Card { color: Some(Color::Blue), ..self }
        } else if word == "yellow"@ {
            Card { color: Some(Color::Yellow), ..self }
        } else if word == "green"@ {
            Card { color: Some(Color::Green), ..self }
        } else if word == "0"@ {
            Card { number: Some(0), ..self }
        } else if word == "1"@ {
            Card { number: Some(1), ..self }
        } else if word == "2"@ {
            Card { number: Some(2), ..self }
        } else if word == "3"@ {
            Card { number: Some(3), ..self }
        } else if word == "4"@ {
            Card { number: Some(4), ..self }
        } else if word == "5"@ {
            Card { number: Some(5), ..self }
        } else if word == "6"@ {
            Card { number: Some(6), ..self }
        } else if word == "7"@ {
            Card { number: Some(7), ..self }
        } else if word == "8"@ {
            Card { number: Some(8), ..self }
        } else if word == "9"@ {
            Card { number: Some(9), ..self }
        } else if word == "skip"@ {
            Card { turn_effect: Some(TurnEffect::Skip), ..self }
        } else if word == "reverse"@ {
            Card { turn_effect: Some(TurnEffect::Reverse), ..self }
        } else if word == "draw2"@ {
            Card { draw_effect: Some(DrawEffect::Draw(2)), ..self }
        } else if word == "draw4"@ {
            Card { draw_effect: Some(DrawEffect::Draw(4)), ..self }
        } else if word == "wild"@ {
            Card { wild: true, ..self }
        } else {
            self
        }
    }

    /// The card that `self` becomes when the words of `text`, which single
    /// spaces part, are added to its description one after the other.
    pub open spec fn described(self, text: Seq<char>) -> Card
        decreases text.len(),
    {
        let end = first_space(text);
        let next = self.with_word(text.take(end));
        if 0 <= end < text.len() {
            next.described(text.skip(end + 1))
        } else {
            next
        }
    }

    /// Adds the word that `text` holds from `from` up to `to` to the
    /// card's description.
    fn add_descriptor(&mut self, text: &Vec<char>, from: usize, to: usize)
        requires
            from <= to <= text@.len(),
        ensures
            *final(self) == old(self).with_word(text@.subrange(from as int, to as int)),
    {
        if spells(text, from, to, "red") {
            self.color = Some(Color::Red);
        } else if spells(text, from, to, "blue") {
            self.color = Some(Color::Blue);
        } else if spells(text, from, to, "yellow") {
            self.color = Some(Color::Yellow);
        } else if spells(text, from, to, "green") {
            self.color = Some(Color::Green);
        } else if spells(text, from, to, "0") {
            self.number = Some(0);
        } else if spells(text, from, to, "1") {
            self.number = Some(1);
        } else if spells(text, from, to, "2") {
            self.number = Some(2);
        } else if spells(text, from, to, "3") {
            self.number = Some(3);
        } else if spells(text, from, to, "4") {
            self.number = Some(4);
        } else if spells(text, from, to, "5") {
            self.number = Some(5);
        } else if spells(text, from, to, "6") {
            self.number = Some(6);
        } else if spells(text, from, to, "7") {
            self.number = Some(7);
        } else if spells(text, from, to, "8") {
            self.number = Some(8);
        } else if spells(text, from, to, "9") {
            self.number = Some(9);
        } else if spells(text, from, to, "skip") {
            self.turn_effect = Some(TurnEffect::Skip);
        } else if spells(text, from, to, "reverse") {
            self.turn_effect = Some(TurnEffect::Reverse);
        } else if spells(text, from, to, "draw2") {
            self.draw_effect = Some(DrawEffect::Draw(2));
        } else if spells(text, from, to, "draw4") {
            self.draw_effect = Some(DrawEffect::Draw(4));
        } else if spells(text, from, to, "wild") {
            self.wild = true;
        }
    }

    /// The card as it lies in the deck: a wild card without the color that
    /// was chosen when it was played, any other card as it is.
    pub open spec fn unassigned(self) -> Card {
        if self.wild {
            Card { color: None, ..self }
        } else {
            self
        }
    }
}

/// Adds `word` to `text`, after a space unless it is the first word.
fn add_word(
    text: &mut String,
    started: bool,
    word: &str,
    Ghost(words): Ghost<Seq<Seq<char>>>,
) -> (now: bool)
    requires
        started == (words.len() > 0),
        old(text)@ == joined(words),
    ensures
        now,
        final(text)@ == joined(words.push(word@)),
{
    proof {
        reveal_strlit(" ");
        assert(words.push(word@).drop_last() == words);
    }
    if started {
        text.append(" ");
    }
    text.append(word);
    true
}

/// Makes lots of cards with not a lot of typing: `"red 5"` gives a red 5,
/// `"green reverse"` a green reverse card. A draw effect is written
/// `draw2` or `draw4`.
impl From<&str> for Card {
    fn from(card_string: &str) -> (card: Card) {
        let text = chars_of(card_string);
        let mut card = Card::default();
        let mut start: usize = 0;
        let mut place: usize = 0;
        assert(text@.skip(0) == text@);
        while place < text.len()
            invariant
                start <= place <= text@.len(),
                text@ == card_string@,
                forall|i: int| start <= i < place ==> text@[i] != ' ',
                Card::blank().described(text@) == card.described(text@.skip(start as int)),
            decreases text.len() - place,
        {
            if text[place] == ' ' {
                let ghost rest = text@.skip(start as int);
                proof {
                    lemma_first_space(rest, place - start);
                    assert(rest.take(place - start) == text@.subrange(start as int, place as int));
                    assert(rest.skip(place - start + 1) == text@.skip(place + 1));
                }
                card.add_descriptor(&text, start, place);
                start = place + 1;
            }
            place += 1;
        }
        proof {
            let rest = text@.skip(start as int);
            lemma_first_space(rest, place - start);
            assert(rest.take(place - start) == text@.subrange(start as int, place as int));
        }
        card.add_descriptor(&text, start, place);
        card
    }
}

impl FromSpecImpl<&str> for Card {
    open spec fn obeys_from_spec() -> bool {
        true
    }

    open spec fn from_spec(card_string: &str) -> Card {
        Card::blank().described(card_string@)
    }
}

/// Whether `next` may be placed on `previous`, the card on top of the
/// discard pile (`None` before the first play).
///
/// Anything may open the game and a wild card may follow anything. Otherwise
/// the two cards must share a color, a number or a turn effect that both
/// have, or each must carry a draw effect, whatever its count.
pub open spec fn can_follow(previous: Option<Card>, next: Card) -> bool {
    match previous {
        None => true,
        Some(previous) => {
            ||| next.wild
            ||| (next.color is Some && next.color == previous.color)
            ||| (next.number is Some && next.number == previous.number)
            ||| (next.turn_effect is Some && next.turn_effect == previous.turn_effect)
            ||| (next.draw_effect is Some && previous.draw_effect is Some)
        },
    }
}

/// The card behind an optional reference.
pub open spec fn card_of(card: Option<&Card>) -> Option<Card> {
    match card {
        Some(card) => Some(*card),
        None => None,
    }
}

/// Decides whether `next_card` may be played on `prev_card`.
pub fn can_play_card(prev_card: Option<&Card>, next_card: &Card) -> (legal: bool)
    ensures
        legal == can_follow(card_of(prev_card), *next_card),
{
    if prev_card.is_none() {
        return true;
    }
    let prev_card = prev_card.unwrap();
    if next_card.wild {
        return true;
    }
    // If same color
    if let (Some(next_card_color), Some(prev_card_color)) = (next_card.color, prev_card.color) {
        if next_card_color == prev_card_color {
            return true;
        }
    }
    // If same number
    if let (Some(next_card_number), Some(prev_card_number)) = (
        next_card.number,
        prev_card.number,
    ) {
        if next_card_number == prev_card_number {
            return true;
        }
    }
    // If same turn effect
    if let (Some(next_card_turn_effect), Some(prev_card_turn_effect)) = (
        next_card.turn_effect,
        prev_card.turn_effect,
    ) {
        if next_card_turn_effect == prev_card_turn_effect {
            return true;
        }
    }
    // If both cause drawing cards
    if next_card.draw_effect.is_some() && prev_card.draw_effect.is_some() {
        return true;
    }
    return false;
}

/// Any card may be played when nothing has been played yet.
pub proof fn lemma_any_card_opens(next: Card)
    ensures
        can_follow(None, next),
{
}

/// A wild card may be played on any card, whatever that card's color or
/// number.
pub proof fn lemma_wild_follows_any(previous: Option<Card>, next: Card)
    requires
        next.wild,
    ensures
        can_follow(previous, next),
{
}

} // verus!
