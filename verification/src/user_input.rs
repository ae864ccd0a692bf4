//! What a player can hand to the engine, and how a line of text is read as
//! such.

use vstd::prelude::*;
use crate::text::chars_of;

verus! {

/// One line from a player: a number, or any other text.
#[derive(Debug)]
pub enum Input {
    Text(String),
    Number(i32),
}

/// A line from a player as plain values.
pub enum InputView {
    Text(Seq<char>),
    Number(i32),
}

impl View for Input {
    type V = InputView;

    open spec fn view(&self) -> InputView {
        match self {
            Input::Text(text) => InputView::Text(text@),
            Input::Number(number) => InputView::Number(*number),
        }
    }
}

/// The text `text` without the white space at its end, as `str::trim_end`
/// gives it.
pub uninterp spec fn trimmed_end_of(text: Seq<char>) -> Seq<char>;

/// Calls `str::trim_end` of std. The contract gives the result its name,
/// `trimmed_end_of`, and claims nothing else of it: it is a function of the
/// text alone.
#[verifier::external_body]
fn trim_end<'a>(line: &'a str) -> (trimmed: &'a str)
    ensures
        trimmed@ == trimmed_end_of(line@),
{
    line.trim_end()
}

/// The digit that `letter` stands for, if it is one of `0` to `9`.
pub open spec fn digit_of(letter: char) -> Option<int> {
    if letter == '0' {
        Some(0)
    } else if letter == '1' {
        Some(1)
    } else if letter == '2' {
        Some(2)
    } else if letter == '3' {
        Some(3)
    } else if letter == '4' {
        Some(4)
    } else if letter == '5' {
        Some(5)
    } else if letter == '6' {
        Some(6)
    } else if letter == '7' {
        Some(7)
    } else if letter == '8' {
        Some(8)
    } else if letter == '9' {
        Some(9)
    } else {
        None
    }
}

/// The natural number that `text` is in decimal, if it consists of digits
/// and has at least one.
pub open spec fn natural_of(text: Seq<char>) -> Option<nat>
    decreases text.len(),
{
    if text.len() == 0 {
        None
    } else if text.len() == 1 {
        match digit_of(text[0]) {
            Some(digit) => Some(digit as nat),
            None => None,
        }
    } else {
        match (natural_of(text.drop_last()), digit_of(text.last())) {
            (Some(front), Some(digit)) => Some((10 * front + digit) as nat),
            _ => None,
        }
    }
}

/// The number that `text` is: digits, after a `+` or a `-` or without a
/// sign, that give a number within `i32`. Any other text is no number.
pub open spec fn number_of(text: Seq<char>) -> Option<i32> {
    let negative = text.len() > 0 && text[0] == '-';
    let signed = text.len() > 0 && (text[0] == '-' || text[0] == '+');
    let size = natural_of(
        if signed {
            text.drop_first()
        } else {
            text
        },
    );
    match size {
        Some(size) => if negative && size <= 0x8000_0000 {
            Some((-size) as i32)
        } else if !negative && size <= 0x7fff_ffff {
            Some(size as i32)
        } else {
            None
        },
        None => None,
    }
}

/// What the text `text` is read as: a number if it is one, text otherwise.
pub open spec fn input_of(text: Seq<char>) -> InputView {
    match number_of(text) {
        Some(number) => InputView::Number(number),
        None => InputView::Text(text),
    }
}

/// A text of digits with a digit put behind is worth at least as much.
proof fn lemma_natural_grows(text: Seq<char>, upto: int)
    requires
        1 <= upto <= text.len(),
        natural_of(text) is Some,
    ensures
        natural_of(text.take(upto)) is Some,
        natural_of(text.take(upto))->0 <= natural_of(text)->0,
    decreases text.len(),
{
    if upto == text.len() {
        assert(text.take(upto) == text);
    } else {
        assert(text.drop_last().take(upto) == text.take(upto));
        lemma_natural_grows(text.drop_last(), upto);
    }
}

/// A text with a letter that is no digit is no number.
proof fn lemma_not_natural(text: Seq<char>, place: int)
    requires
        0 <= place < text.len(),
        digit_of(text[place]) is None,
    ensures
        natural_of(text) is None,
    decreases text.len(),
{
    if place < text.len() - 1 {
        lemma_not_natural(text.drop_last(), place);
    }
}

fn digit_from(letter: char) -> (digit: Option<u64>)
    ensures
        match digit {
            Some(digit) => digit_of(letter) == Some(digit as int),
            None => digit_of(letter) is None,
        },
{
    if letter == '0' {
        Some(0)
    } else if letter == '1' {
        Some(1)
    } else if letter == '2' {
        Some(2)
    } else if letter == '3' {
        Some(3)
    } else if letter == '4' {
        Some(4)
    } else if letter == '5' {
        Some(5)
    } else if letter == '6' {
        Some(6)
    } else if letter == '7' {
        Some(7)
    } else if letter == '8' {
        Some(8)
    } else if letter == '9' {
        Some(9)
    } else {
        None
    }
}

/// Reads `text` as a number.
pub fn parse_number(text: &str) -> (number: Option<i32>)
    ensures
        number == number_of(text@),
{
    let letters = chars_of(text);
    if letters.len() == 0 {
        return None;
    }
    let negative = letters[0] == '-';
    let signed = negative || letters[0] == '+';
    let start: usize = if signed {
        1
    } else {
        0
    };
    let ghost figures = if signed {
        letters@.drop_first()
    } else {
        letters@
    };
    if start == letters.len() {
        return None;
    }
    let mut size: u64 = 0;
    let mut place: usize = start;
    while place < letters.len()
        invariant
            start <= place <= letters@.len(),
            start < letters@.len(),
            letters@ == text@,
            negative == (letters@[0] == '-'),
            signed == (letters@[0] == '-' || letters@[0] == '+'),
            figures == if signed {
                letters@.drop_first()
            } else {
                letters@
            },
            figures == letters@.skip(start as int),
            size <= 0x8000_0000,
            place > start ==> natural_of(figures.take(place - start)) == Some(size as nat),
            place == start ==> size == 0,
        decreases letters.len() - place,
    {
        let ghost seen = figures.take(place - start);
        let ghost longer = figures.take(place - start + 1);
        proof {
            assert(longer.drop_last() == seen);
        }
        match digit_from(letters[place]) {
            None => {
                proof {
                    lemma_not_natural(figures, place - start);
                }
                return None;
            },
            Some(digit) => {
                size = 10 * size + digit;
                if size > 0x8000_0000 {
                    proof {
                        if natural_of(figures) is Some {
                            lemma_natural_grows(figures, place - start + 1);
                        }
                    }
                    return None;
                }
            },
        }
        place += 1;
    }
    assert(figures.take(place - start) == figures);
    if negative {
        Some((0 - size as i64) as i32)
    } else if size <= 0x7fff_ffff {
        Some(size as i32)
    } else {
        None
    }
}

impl Input {
    /// Reads `text` as it stands: as a number if it is one, as text
    /// otherwise.
    pub fn from_trimmed(text: &str) -> (input: Input)
        ensures
            input@ == input_of(text@),
    {
        match parse_number(text) {
            Some(number) => Input::Number(number),
            None => Input::Text(text.to_string()),
        }
    }

    /// Reads a line as a player typed it: without the white space at its
    /// end, as a number if it is one, as text otherwise.
    pub fn from_line(line: &str) -> (input: Input)
        ensures
            input@ == input_of(trimmed_end_of(line@)),
    {
        Input::from_trimmed(trim_end(line))
    }
}

} // verus!
