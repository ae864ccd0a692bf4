//! Small helpers on text.

use vstd::prelude::*;
use vstd::std_specs::iter::IteratorSpec;
use vstd::string::StringExecFns;

verus! {

/// The characters of `text`, in order.
pub fn chars_of(text: &str) -> (chars: Vec<char>)
    ensures
        chars@ == text@,
{
    let mut chars: Vec<char> = Vec::new();
    let mut rest = text.chars();
    loop
        invariant
            rest.obeys_prophetic_iter_laws(),
            chars@ + rest.remaining() == text@,
            rest.decrease() is Some,
        ensures
            chars@ == text@,
        decreases rest.decrease()->0,
    {
        match rest.next() {
            Some(c) => {
                chars.push(c);
            },
            None => {
                break;
            },
        }
    }
    chars
}

/// The character that stands for the digit `digit`.
pub open spec fn digit_char(digit: int) -> char {
    if digit == 0 {
        '0'
    } else if digit == 1 {
        '1'
    } else if digit == 2 {
        '2'
    } else if digit == 3 {
        '3'
    } else if digit == 4 {
        '4'
    } else if digit == 5 {
        '5'
    } else if digit == 6 {
        '6'
    } else if digit == 7 {
        '7'
    } else if digit == 8 {
        '8'
    } else {
        '9'
    }
}

/// The decimal digits of `number`, the most significant first.
pub open spec fn digits(number: nat) -> Seq<char>
    decreases number,
{
    if number < 10 {
        seq![digit_char(number as int)]
    } else {
        digits(number / 10).push(digit_char((number % 10) as int))
    }
}

/// `number` written in decimal, with a minus sign if it is negative.
pub open spec fn decimal(number: int) -> Seq<char> {
    if number < 0 {
        seq!['-'] + digits((-number) as nat)
    } else {
        digits(number as nat)
    }
}

/// `words` joined by single spaces.
pub open spec fn joined(words: Seq<Seq<char>>) -> Seq<char>
    decreases words.len(),
{
    if words.len() == 0 {
        Seq::empty()
    } else if words.len() == 1 {
        words[0]
    } else {
        joined(words.drop_last()) + seq![' '] + words.last()
    }
}

/// The place of the first space in `text`, or its length if it has none.
pub open spec fn first_space(text: Seq<char>) -> int
    decreases text.len(),
{
    if text.len() == 0 || text[0] == ' ' {
        0
    } else {
        1 + first_space(text.drop_first())
    }
}

/// The first space of a text is where no space comes before.
pub proof fn lemma_first_space(text: Seq<char>, place: int)
    requires
        0 <= place <= text.len(),
        forall|i: int| 0 <= i < place ==> text[i] != ' ',
        place == text.len() || text[place] == ' ',
    ensures
        first_space(text) == place,
    decreases text.len(),
{
    if place > 0 {
        lemma_first_space(text.drop_first(), place - 1);
    }
}

fn digit_word(digit: u64) -> (word: &'static str)
    requires
        0 <= digit <= 9,
    ensures
        word@ == seq![digit_char(digit as int)],
{
    proof {
        reveal_strlit("0");
        reveal_strlit("1");
        reveal_strlit("2");
        reveal_strlit("3");
        reveal_strlit("4");
        reveal_strlit("5");
        reveal_strlit("6");
        reveal_strlit("7");
        reveal_strlit("8");
        reveal_strlit("9");
    }
    let word = if digit == 0 {
        "0"
    } else if digit == 1 {
        "1"
    } else if digit == 2 {
        "2"
    } else if digit == 3 {
        "3"
    } else if digit == 4 {
        "4"
    } else if digit == 5 {
        "5"
    } else if digit == 6 {
        "6"
    } else if digit == 7 {
        "7"
    } else if digit == 8 {
        "8"
    } else {
        "9"
    };
    word
}

/// Writes the natural number `number` in decimal.
pub fn digits_text(number: u64) -> (text: String)
    ensures
        text@ == digits(number as nat),
{
    let mut text = String::from_str(digit_word(number % 10));
    let mut rest: u64 = number / 10;
    while rest > 0
        invariant
            rest <= number,
            digits(number as nat) == if rest > 0 {
                digits(rest as nat) + text@
            } else {
                text@
            },
        decreases rest,
    {
        let mut longer = String::from_str(digit_word(rest % 10));
        longer.append(text.as_str());
        text = longer;
        rest = rest / 10;
    }
    text
}

/// Writes `number` in decimal.
pub fn decimal_text(number: i32) -> (text: String)
    ensures
        text@ == decimal(number as int),
{
    let wide = number as i64;
    if wide < 0 {
        proof {
            reveal_strlit("-");
        }
        let mut signed = String::from_str("-");
        signed.append(digits_text((-wide) as u64).as_str());
        signed
    } else {
        digits_text(wide as u64)
    }
}

/// Tells whether the characters of `text` from `from` up to `to` spell
/// `word`.
pub fn spells(text: &Vec<char>, from: usize, to: usize, word: &str) -> (same: bool)
    requires
        from <= to <= text@.len(),
    ensures
        same == (text@.subrange(from as int, to as int) == word@),
{
    let letters = chars_of(word);
    if letters.len() != to - from {
        return false;
    }
    let mut offset: usize = 0;
    while offset < letters.len()
        invariant
            from <= to <= text@.len(),
            letters@ == word@,
            letters@.len() == to - from,
            offset <= letters@.len(),
            text@.subrange(from as int, from + offset) == letters@.take(offset as int),
        decreases letters.len() - offset,
    {
        if text[from + offset] != letters[offset] {
            return false;
        }
        offset += 1;
    }
    assert(letters@.take(offset as int) == letters@);
    true
}

} // verus!
