//! The snapshot of a game that an observer renders.

use vstd::prelude::*;
use vstd::string::StringExecFns;
use crate::card::Card;
use crate::text::{decimal, decimal_text, digits, digits_text};

verus! {

/// A summary of one turn: who played, which card, and how many cards that
/// seat drew first. Seats are counted from 1.
#[derive(Copy, Clone, Debug)]
pub struct TurnRecap {
    pub player: i32,
    pub card: Card,
    pub drawn_cards: i32,
}

/// What the player at the table is asked to do next.
#[derive(Copy, Clone, PartialEq, Eq, Debug, Structural)]
pub enum PlayerInstruction {
    PickCard,
    PickWildColor,
}

/// The hand that is on display, with the seat it belongs to, counted from 1.
#[derive(Debug)]
pub struct DisplayedHand {
    pub player: i32,
    pub cards: Vec<Card>,
}

/// What an observer sees of the game.
#[derive(Debug)]
pub struct UI {
    pub last_turn_recap: Option<TurnRecap>,
    pub player_instruction: Option<PlayerInstruction>,
    pub uno_declarations: Vec<i32>,
    pub error: Option<String>,
    pub winning_player: Option<i32>,
    pub displayed_hand: Option<DisplayedHand>,
}

/// A displayed hand as plain values.
pub struct HandView {
    pub player: i32,
    pub cards: Seq<Card>,
}

/// A snapshot as plain values.
pub struct UIView {
    pub last_turn_recap: Option<TurnRecap>,
    pub player_instruction: Option<PlayerInstruction>,
    pub uno_declarations: Seq<i32>,
    pub error: Option<Seq<char>>,
    pub winning_player: Option<i32>,
    pub displayed_hand: Option<HandView>,
}

impl View for DisplayedHand {
    type V = HandView;

    open spec fn view(&self) -> HandView {
        HandView { player: self.player, cards: self.cards@ }
    }
}

impl View for UI {
    type V = UIView;

    open spec fn view(&self) -> UIView {
        UIView {
            last_turn_recap: self.last_turn_recap,
            player_instruction: self.player_instruction,
            uno_declarations: self.uno_declarations@,
            error: match self.error {
                Some(message) => Some(message@),
                None => None,
            },
            winning_player: self.winning_player,
            displayed_hand: match self.displayed_hand {
                Some(hand) => Some(hand@),
                None => None,
            },
        }
    }
}

/// The texts of `lines`.
pub open spec fn texts(lines: Seq<String>) -> Seq<Seq<char>> {
    lines.map_values(|line: String| line@)
}

/// The line that names the winner.
pub open spec fn won_line(player: i32) -> Seq<char> {
    "Player "@ + decimal(player as int) + " won!"@
}

/// The line that says how many cards a seat drew.
pub open spec fn drew_line(recap: TurnRecap) -> Seq<char> {
    "Player "@ + decimal(recap.player as int) + " drew "@ + decimal(recap.drawn_cards as int)
        + " cards!"@
}

/// The line that says which card a seat played.
pub open spec fn played_line(recap: TurnRecap) -> Seq<char> {
    "Player "@ + decimal(recap.player as int) + " played a "@ + recap.card.rendered() + "!"@
}

/// The line that says that a seat holds one card.
pub open spec fn uno_line(player: i32) -> Seq<char> {
    "Player "@ + decimal(player as int) + " has uno!"@
}

/// The line above a hand.
pub open spec fn hand_title(player: i32) -> Seq<char> {
    "Player "@ + decimal(player as int) + "'s cards:"@
}

/// The line for the card at `place` of a hand, counted from 0: its number,
/// counted from 1, and the card in words.
pub open spec fn card_line(place: int, card: Card) -> Seq<char> {
    digits((place + 1) as nat) + ") "@ + card.rendered()
}

/// The line that asks for a card.
pub open spec fn pick_card_line() -> Seq<char> {
    "Type a number to play a card, or \"d\" to draw a card: "@
}

/// The first of the two lines that ask for a color.
pub open spec fn pick_color_question() -> Seq<char> {
    "What color do you want your wild card to be?"@
}

/// The second of the two lines that ask for a color.
pub open spec fn pick_color_line() -> Seq<char> {
    "Enter one of \"R\", \"B\", \"G\", or \"Y\" to pick a color: "@
}

impl UIView {
    /// The lines of the recap: how many cards the seat drew, if any, and
    /// which card it played, with an empty line below.
    pub open spec fn recap_lines(self) -> Seq<Seq<char>> {
        match self.last_turn_recap {
            Some(recap) => (if recap.drawn_cards > 0 {
                seq![drew_line(recap)]
            } else {
                Seq::empty()
            }) + seq![played_line(recap), Seq::empty()],
            None => Seq::empty(),
        }
    }

    /// The lines for the seats that hold one card, with an empty line
    /// below, if there are such seats.
    pub open spec fn uno_lines(self) -> Seq<Seq<char>> {
        if self.uno_declarations.len() > 0 {
            self.uno_declarations.map_values(|player: i32| uno_line(player)) + seq![
                Seq::empty(),
            ]
        } else {
            Seq::empty()
        }
    }

    /// The lines of the hand on display: its title and its cards, with an
    /// empty line below.
    pub open spec fn hand_lines(self) -> Seq<Seq<char>> {
        match self.displayed_hand {
            Some(hand) => seq![hand_title(hand.player)] + Seq::new(
                hand.cards.len(),
                |place: int| card_line(place, hand.cards[place]),
            ) + seq![Seq::empty()],
            None => Seq::empty(),
        }
    }

    /// The lines that tell the player what to do.
    pub open spec fn instruction_lines(self) -> Seq<Seq<char>> {
        match self.player_instruction {
            Some(PlayerInstruction::PickCard) => seq![pick_card_line()],
            Some(PlayerInstruction::PickWildColor) => seq![
                pick_color_question(),
                pick_color_line(),
            ],
            None => Seq::empty(),
        }
    }

    /// The lines of the rejection: an empty line and the message.
    pub open spec fn error_lines(self) -> Seq<Seq<char>> {
        match self.error {
            Some(message) => seq![Seq::empty(), message],
            None => Seq::empty(),
        }
    }

    /// The lines that the snapshot is shown as: the winner alone once there
    /// is one; otherwise the recap, the seats that hold one card, the hand
    /// on display, the instruction and the rejection.
    pub open spec fn lines(self) -> Seq<Seq<char>> {
        match self.winning_player {
            Some(player) => seq![won_line(player)],
            None => self.recap_lines() + self.uno_lines() + self.hand_lines()
                + self.instruction_lines() + self.error_lines(),
        }
    }

    /// The snapshot before anything has happened.
    pub open spec fn empty() -> UIView {
        UIView {
            last_turn_recap: None,
            player_instruction: None,
            uno_declarations: Seq::empty(),
            error: None,
            winning_player: None,
            displayed_hand: None,
        }
    }
}

impl Default for UI {
    /// The snapshot before anything has happened.
    fn default() -> (ui: UI)
        ensures
            ui@ == UIView::empty(),
    {
        UI {
            last_turn_recap: None,
            player_instruction: None,
            uno_declarations: Vec::new(),
            error: None,
            winning_player: None,
            displayed_hand: None,
        }
    }
}

/// Puts `line` below `lines`.
fn put(lines: &mut Vec<String>, line: String)
    ensures
        texts(final(lines)@) == texts(old(lines)@).push(line@),
{
    lines.push(line);
}

/// Writes `before`, the number `number` and `after` in one line.
fn numbered(before: &str, number: i32, after: &str) -> (line: String)
    ensures
        line@ == before@ + decimal(number as int) + after@,
{
    let mut line = String::from_str(before);
    line.append(decimal_text(number).as_str());
    line.append(after);
    line
}

impl UI {
    /// Writes the snapshot as the lines that an observer is shown.
    pub fn render(&self) -> (lines: Vec<String>)
        ensures
            texts(lines@) == self@.lines(),
    {
        let mut lines: Vec<String> = Vec::new();
        if let Some(winning_player) = self.winning_player {
            put(&mut lines, numbered("Player ", winning_player, " won!"));
            return lines;
        }
        self.put_recap(&mut lines);
        self.put_uno_declarations(&mut lines);
        self.put_hand(&mut lines);
        self.put_instruction(&mut lines);
        self.put_error(&mut lines);
        lines
    }

    fn put_recap(&self, lines: &mut Vec<String>)
        ensures
            texts(final(lines)@) == texts(old(lines)@) + self@.recap_lines(),
    {
        if let Some(last_turn_recap) = &self.last_turn_recap {
            if last_turn_recap.drawn_cards > 0 {
                let mut line = numbered("Player ", last_turn_recap.player, " drew ");
                line.append(decimal_text(last_turn_recap.drawn_cards).as_str());
                line.append(" cards!");
                put(lines, line);
            }
            let mut line = numbered("Player ", last_turn_recap.player, " played a ");
            line.append(last_turn_recap.card.render().as_str());
            line.append("!");
            put(lines, line);
            put(lines, String::new());
        }
    }

    fn put_uno_declarations(&self, lines: &mut Vec<String>)
        ensures
            texts(final(lines)@) == texts(old(lines)@) + self@.uno_lines(),
    {
        if self.uno_declarations.len() > 0 {
            let mut index: usize = 0;
            while index < self.uno_declarations.len()
                invariant
                    index <= self.uno_declarations.len(),
                    texts(lines@) == texts(old(lines)@) + self.uno_declarations@.take(
                        index as int,
                    ).map_values(|player: i32| uno_line(player)),
                decreases self.uno_declarations.len() - index,
            {
                put(lines, numbered("Player ", self.uno_declarations[index], " has uno!"));
                index += 1;
            }
            put(lines, String::new());
        }
    }

    fn put_hand(&self, lines: &mut Vec<String>)
        ensures
            texts(final(lines)@) == texts(old(lines)@) + self@.hand_lines(),
    {
        if let Some(displayed_hand) = &self.displayed_hand {
            put(lines, numbered("Player ", displayed_hand.player, "'s cards:"));
            let mut place: usize = 0;
            while place < displayed_hand.cards.len()
                invariant
                    place <= displayed_hand.cards.len(),
                    texts(lines@) == texts(old(lines)@) + seq![
                        hand_title(displayed_hand.player),
                    ] + Seq::new(
                        place as nat,
                        |shown: int| card_line(shown, displayed_hand.cards@[shown]),
                    ),
                decreases displayed_hand.cards.len() - place,
            {
                let mut line = digits_text(place as u64 + 1);
                line.append(") ");
                line.append(displayed_hand.cards[place].render().as_str());
                put(lines, line);
                place += 1;
            }
            put(lines, String::new());
        }
    }

    fn put_instruction(&self, lines: &mut Vec<String>)
        ensures
            texts(final(lines)@) == texts(old(lines)@) + self@.instruction_lines(),
    {
        if let Some(player_instruction) = &self.player_instruction {
            match player_instruction {
                PlayerInstruction::PickCard => {
                    put(
                        lines,
                        String::from_str(
                            "Type a number to play a card, or \"d\" to draw a card: ",
                        ),
                    );
                },
                PlayerInstruction::PickWildColor => {
                    put(lines, String::from_str("What color do you want your wild card to be?"));
                    put(
                        lines,
                        String::from_str(
                            "Enter one of \"R\", \"B\", \"G\", or \"Y\" to pick a color: ",
                        ),
                    );
                },
            }
        }
    }

    fn put_error(&self, lines: &mut Vec<String>)
        ensures
            texts(final(lines)@) == texts(old(lines)@) + self@.error_lines(),
    {
        if let Some(error) = &self.error {
            put(lines, String::new());
            put(lines, error.clone());
        }
    }

    /// Puts the hand `cards` of seat `player` on display.
    pub fn display_hand(&mut self, player: i32, cards: &Vec<Card>)
        ensures
            final(self)@ == (UIView {
                displayed_hand: Some(HandView { player, cards: cards@ }),
                ..old(self)@
            }),
    {
        self.displayed_hand = Some(DisplayedHand { player, cards: cards.clone() })
    }
}

} // verus!
