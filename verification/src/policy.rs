//! The computer player's policy: which card it plays, and which color it
//! gives a wild card.

use vstd::prelude::*;
use crate::card::{can_follow, can_play_card, card_of, Card, Color};

verus! {

/// Whether no card of `hand` may be played on `top`.
pub open spec fn none_playable(hand: Seq<Card>, top: Option<Card>) -> bool {
    forall|i: int| 0 <= i < hand.len() ==> !can_follow(top, #[trigger] hand[i])
}

/// Whether the card at `index` is the first of `hand` that may be played on
/// `top`.
pub open spec fn first_playable(hand: Seq<Card>, top: Option<Card>, index: int) -> bool {
    &&& 0 <= index < hand.len()
    &&& can_follow(top, hand[index])
    &&& none_playable(hand.take(index), top)
}

/// How many cards of `hand` have the color `color`.
pub open spec fn held(hand: Seq<Card>, color: Color) -> nat
    decreases hand.len(),
{
    if hand.len() == 0 {
        0
    } else {
        held(hand.drop_last(), color) + if hand.last().color == Some(color) {
            1nat
        } else {
            0nat
        }
    }
}

/// The color that `hand` holds the most of. Of several colors with the most
/// cards, the first in the order red, blue, yellow, green.
pub open spec fn favorite_color(hand: Seq<Card>) -> Color {
    let red = held(hand, Color::Red);
    let blue = held(hand, Color::Blue);
    let yellow = held(hand, Color::Yellow);
    let green = held(hand, Color::Green);
    if red >= blue && red >= yellow && red >= green {
        Color::Red
    } else if blue >= yellow && blue >= green {
        Color::Blue
    } else if yellow >= green {
        Color::Yellow
    } else {
        Color::Green
    }
}

/// Finds the first card of `hand` that may be played on `top`.
pub fn find_playable(hand: &Vec<Card>, top: Option<&Card>) -> (found: Option<usize>)
    ensures
        match found {
            Some(index) => first_playable(hand@, card_of(top), index as int),
            None => none_playable(hand@, card_of(top)),
        },
{
    let mut index: usize = 0;
    while index < hand.len()
        invariant
            index <= hand.len(),
            none_playable(hand@.take(index as int), card_of(top)),
        decreases hand.len() - index,
    {
        if can_play_card(top, &hand[index]) {
            return Some(index);
        }
        index += 1;
    }
    assert(hand@.take(index as int) == hand@);
    None
}

/// Counts the cards of `hand` that have the color `color`.
pub fn count_color(hand: &Vec<Card>, color: Color) -> (count: usize)
    ensures
        count == held(hand@, color),
{
    let mut count: usize = 0;
    let mut index: usize = 0;
    while index < hand.len()
        invariant
            index <= hand.len(),
            count == held(hand@.take(index as int), color),
            count <= index,
        decreases hand.len() - index,
    {
        proof {
            assert(hand@.take(index + 1).drop_last() == hand@.take(index as int));
        }
        if hand[index].color == Some(color) {
            count += 1;
        }
        index += 1;
    }
    assert(hand@.take(index as int) == hand@);
    count
}

/// Picks the color for a wild card played from a hand that then holds
/// `hand`: the color that the hand holds the most of.
pub fn most_held_color(hand: &Vec<Card>) -> (color: Color)
    ensures
        color == favorite_color(hand@),
{
    let red = count_color(hand, Color::Red);
    let blue = count_color(hand, Color::Blue);
    let yellow = count_color(hand, Color::Yellow);
    let green = count_color(hand, Color::Green);
    if red >= blue && red >= yellow && red >= green {
        Color::Red
    } else if blue >= yellow && blue >= green {
        Color::Blue
    } else if yellow >= green {
        Color::Yellow
    } else {
        Color::Green
    }
}

} // verus!
