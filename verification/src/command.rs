//! From what a player typed to what the engine is asked to do.

use vstd::prelude::*;
use crate::card::Color;
use crate::text::chars_of;
use crate::user_input::{Input, InputView};

verus! {

/// What a player asks the engine to do.
#[derive(Copy, Clone, PartialEq, Eq, Debug, Structural)]
pub enum Command {
    /// Play the card at this place of the hand, counted from 1.
    PickCardToPlay(i32),
    /// Draw one card.
    DrawCard,
    /// Give the wild card that was picked this color.
    PickWildCardColor(Color),
}

/// The lower-case form of `text`, as `str::to_lowercase` gives it.
pub uninterp spec fn lowercase_of(text: Seq<char>) -> Seq<char>;

/// Calls `str::to_lowercase` of std. The contract gives the result its name,
/// `lowercase_of`, and claims nothing else of it: it is a function of the
/// text alone.
#[verifier::external_body]
fn lowercase(text: &str) -> (lowered: String)
    ensures
        lowered@ == lowercase_of(text@),
{
    text.to_lowercase()
}

/// The command that the lower-case text `lowered` stands for: `d` asks for
/// a card; while a wild card waits for its color, `r`, `b`, `g` and `y`
/// name that color. Any other text stands for nothing.
pub open spec fn command_of_lowered(lowered: Seq<char>, awaiting_color: bool) -> Option<Command> {
    if lowered == seq!['d'] {
        Some(Command::DrawCard)
    } else if !awaiting_color {
        None
    } else if lowered == seq!['r'] {
        Some(Command::PickWildCardColor(Color::Red))
    } else if lowered == seq!['b'] {
        Some(Command::PickWildCardColor(Color::Blue))
    } else if lowered == seq!['g'] {
        Some(Command::PickWildCardColor(Color::Green))
    } else if lowered == seq!['y'] {
        Some(Command::PickWildCardColor(Color::Yellow))
    } else {
        None
    }
}

/// The command that `input` stands for: a number picks a card, text is read
/// without regard to case.
pub open spec fn command_of(input: InputView, awaiting_color: bool) -> Option<Command> {
    match input {
        InputView::Number(card_index) => Some(Command::PickCardToPlay(card_index)),
        InputView::Text(text) => command_of_lowered(lowercase_of(text), awaiting_color),
    }
}

/// Reads the command that the lower-case text `lowered` stands for.
pub fn command_from_lowered(lowered: &str, awaiting_color: bool) -> (command: Option<Command>)
    ensures
        command == command_of_lowered(lowered@, awaiting_color),
{
    let letters = chars_of(lowered);
    if letters.len() != 1 {
        return None;
    }
    let letter = letters[0];
    assert(lowered@ == seq![letter]);
    if letter == 'd' {
        Some(Command::DrawCard)
    } else if !awaiting_color {
        None
    } else if letter == 'r' {
        Some(Command::PickWildCardColor(Color::Red))
    } else if letter == 'b' {
        Some(Command::PickWildCardColor(Color::Blue))
    } else if letter == 'g' {
        Some(Command::PickWildCardColor(Color::Green))
    } else if letter == 'y' {
        Some(Command::PickWildCardColor(Color::Yellow))
    } else {
        None
    }
}

/// Reads the command that `input` stands for.
pub fn command_from_input(input: &Input, awaiting_color: bool) -> (command: Option<Command>)
    ensures
        command == command_of(input@, awaiting_color),
{
    match input {
        Input::Number(card_index) => Some(Command::PickCardToPlay(*card_index)),
        Input::Text(input_text) => {
            let lowered = lowercase(input_text.as_str());
            command_from_lowered(lowered.as_str(), awaiting_color)
        },
    }
}

} // verus!
