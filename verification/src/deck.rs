//! The deck factory: the 108 cards of a standard deck.

use vstd::prelude::*;
use vstd::multiset::Multiset;
use crate::card::{Card, Color, DrawEffect, TurnEffect};

verus! {

/// How often `card` occurs in a standard deck.
///
/// Each color has one 0 and two each of 1 to 9, two skips, two reverses and
/// two draw-2 cards. Four wild cards and four wild draw-4 cards carry no
/// color. Nothing else occurs.
pub open spec fn standard_count(card: Card) -> nat {
    match (card.wild, card.color, card.number, card.turn_effect, card.draw_effect) {
        (false, Some(_), Some(number), None, None) => if number == 0 {
            1
        } else if 1 <= number <= 9 {
            2
        } else {
            0
        },
        (false, Some(_), None, Some(_), None) => 2,
        (false, Some(_), None, None, Some(DrawEffect::Draw(count))) => if count == 2 {
            2
        } else {
            0
        },
        (true, None, None, None, None) => 4,
        (true, None, None, None, Some(DrawEffect::Draw(count))) => if count == 4 {
            4
        } else {
            0
        },
        _ => 0,
    }
}

/// Whether `cards` holds exactly the cards of a standard deck.
pub open spec fn is_standard(cards: Multiset<Card>) -> bool {
    forall|card: Card| #[trigger] cards.count(card) == standard_count(card)
}

/// The color of the `group`-th block of equal-colored cards.
spec fn block_color(group: int) -> Color {
    if group < 1 {
        Color::Blue
    } else if group < 2 {
        Color::Red
    } else if group < 3 {
        Color::Yellow
    } else {
        Color::Green
    }
}

/// The card that the factory puts at position `i`.
spec fn listed(i: int) -> Card {
    if i < 76 {
        Card {
            number: Some((((i % 19) + 1) / 2) as i32),
            color: Some(block_color(i / 19)),
            ..Card::blank()
        }
    } else if i < 84 {
        Card {
            turn_effect: Some(TurnEffect::Skip),
            color: Some(block_color((i - 76) / 2)),
            ..Card::blank()
        }
    } else if i < 92 {
        Card {
            turn_effect: Some(TurnEffect::Reverse),
            color: Some(block_color((i - 84) / 2)),
            ..Card::blank()
        }
    } else if i < 100 {
        Card {
            draw_effect: Some(DrawEffect::Draw(2)),
            color: Some(block_color((i - 92) / 2)),
            ..Card::blank()
        }
    } else if i < 104 {
        Card { wild: true, ..Card::blank() }
    } else {
        Card { wild: true, draw_effect: Some(DrawEffect::Draw(4)), ..Card::blank() }
    }
}

/// How often `card` occurs among the first `n` listed cards.
spec fn tally(n: nat, card: Card) -> nat
    decreases n,
{
    if n == 0 {
        0
    } else {
        tally((n - 1) as nat, card) + if listed(n - 1) == card {
            1nat
        } else {
            0nat
        }
    }
}

fn color_of_block(group: usize) -> (color: Color)
    ensures
        color == block_color(group as int),
{
    if group < 1 {
        Color::Blue
    } else if group < 2 {
        Color::Red
    } else if group < 3 {
        Color::Yellow
    } else {
        Color::Green
    }
}

/// Builds the standard deck of 108 cards.
pub fn create_deck() -> (deck: Vec<Card>)
    ensures
        deck@.len() == 108,
        is_standard(deck@.to_multiset()),
{
    broadcast use vstd::seq_lib::group_to_multiset_ensures, vstd::multiset::group_multiset_axioms;

    let mut deck: Vec<Card> = Vec::new();
    // There are 108 cards in a standard deck.
    let mut i: usize = 0;
    while i < 108
        invariant
            i <= 108,
            deck@.len() == i,
            forall|card: Card| deck@.to_multiset().count(card) == tally(i as nat, card),
        decreases 108 - i,
    {
        let mut new_card = Card::default();
        if i < 76 {
            // 76 colored and numbered cards, 19 of each color:
            // one 0 and two of each of 1 to 9.
            new_card.number = Some((((i % 19) + 1) / 2) as i32);
            new_card.color = Some(color_of_block(i / 19));
        } else if i < 84 {
            // 8 colored skip cards
            new_card.turn_effect = Some(TurnEffect::Skip);
            new_card.color = Some(color_of_block((i - 76) / 2));
        } else if i < 92 {
            // 8 colored reverse cards
            new_card.turn_effect = Some(TurnEffect::Reverse);
            new_card.color = Some(color_of_block((i - 84) / 2));
        } else if i < 100 {
            // 8 colored draw 2 cards
            new_card.draw_effect = Some(DrawEffect::Draw(2));
            new_card.color = Some(color_of_block((i - 92) / 2));
        } else if i < 104 {
            // 4 wild cards
            new_card.wild = true;
        } else {
            // 4 wild draw 4 cards
            new_card.wild = true;
            new_card.draw_effect = Some(DrawEffect::Draw(4));
        }
        let ghost before = deck@;
        deck.push(new_card);
        i += 1;
        proof {
            vstd::seq_lib::to_multiset_build(before, new_card);
            assert forall|card: Card| deck@.to_multiset().count(card) == tally(i as nat, card) by {
                assert(before.to_multiset().count(card) == tally((i - 1) as nat, card));
            }
        }
    }
    proof {
        assert forall|card: Card| deck@.to_multiset().count(card) == standard_count(card) by {
            lemma_tally_complete(card);
        }
    }
    return deck;
}

/// The first position of the block of listed cards that `card` belongs to,
/// or 108 for a card that is not listed.
spec fn block_start(card: Card) -> nat {
    match (card.wild, card.color, card.number, card.turn_effect, card.draw_effect) {
        (false, Some(color), Some(_), None, None) => match color {
            Color::Blue => 0,
            Color::Red => 19,
            Color::Yellow => 38,
            Color::Green => 57,
        },
        (false, Some(_), None, Some(TurnEffect::Skip), None) => 76,
        (false, Some(_), None, Some(TurnEffect::Reverse), None) => 84,
        (false, Some(_), None, None, Some(_)) => 92,
        (true, None, None, None, None) => 100,
        (true, None, None, None, Some(_)) => 104,
        _ => 108,
    }
}

/// What the block of listed cards from `start` to `end` adds to the tally
/// of `card`.
spec fn block_share(start: nat, end: nat, card: Card) -> nat {
    if start <= block_start(card) < end {
        standard_count(card)
    } else {
        0
    }
}

proof fn lemma_tally_block_0(card: Card)
    ensures
        tally(19, card) == tally(0, card) + block_share(0, 19, card),
{
    reveal_with_fuel(tally, 20);
}

proof fn lemma_tally_block_19(card: Card)
    ensures
        tally(38, card) == tally(19, card) + block_share(19, 38, card),
{
    reveal_with_fuel(tally, 20);
}

proof fn lemma_tally_block_38(card: Card)
    ensures
        tally(57, card) == tally(38, card) + block_share(38, 57, card),
{
    reveal_with_fuel(tally, 20);
}

proof fn lemma_tally_block_57(card: Card)
    ensures
        tally(76, card) == tally(57, card) + block_share(57, 76, card),
{
    reveal_with_fuel(tally, 20);
}

proof fn lemma_tally_block_76(card: Card)
    ensures
        tally(84, card) == tally(76, card) + block_share(76, 84, card),
{
    reveal_with_fuel(tally, 9);
}

proof fn lemma_tally_block_84(card: Card)
    ensures
        tally(92, card) == tally(84, card) + block_share(84, 92, card),
{
    reveal_with_fuel(tally, 9);
}

proof fn lemma_tally_block_92(card: Card)
    ensures
        tally(100, card) == tally(92, card) + block_share(92, 100, card),
{
    reveal_with_fuel(tally, 9);
}

proof fn lemma_tally_block_100(card: Card)
    ensures
        tally(104, card) == tally(100, card) + block_share(100, 104, card),
{
    reveal_with_fuel(tally, 5);
}

proof fn lemma_tally_block_104(card: Card)
    ensures
        tally(108, card) == tally(104, card) + block_share(104, 108, card),
{
    reveal_with_fuel(tally, 5);
}

proof fn lemma_tally_complete(card: Card)
    ensures
        tally(108, card) == standard_count(card),
{
    lemma_tally_block_0(card);
    lemma_tally_block_19(card);
    lemma_tally_block_38(card);
    lemma_tally_block_57(card);
    lemma_tally_block_76(card);
    lemma_tally_block_84(card);
    lemma_tally_block_92(card);
    lemma_tally_block_100(card);
    lemma_tally_block_104(card);
}

proof fn lemma_listing_tally(n: nat, card: Card)
    ensures
        Seq::new(n, |i: int| listed(i)).to_multiset().count(card) == tally(n, card),
    decreases n,
{
    let listing = Seq::new(n, |i: int| listed(i));
    if n == 0 {
        assert(listing.to_multiset() =~= Multiset::empty()) by {
            listing.to_multiset_ensures();
        }
    } else {
        let shorter = Seq::new((n - 1) as nat, |i: int| listed(i));
        lemma_listing_tally((n - 1) as nat, card);
        assert(listing == shorter.push(listed(n - 1)));
        vstd::seq_lib::to_multiset_build(shorter, listed(n - 1));
    }
}

/// A standard deck has 108 cards.
pub proof fn lemma_standard_size(cards: Multiset<Card>)
    requires
        is_standard(cards),
    ensures
        cards.len() == 108,
{
    let listing = Seq::new(108, |i: int| listed(i));
    assert forall|card: Card| listing.to_multiset().count(card) == cards.count(card) by {
        lemma_listing_tally(108, card);
        lemma_tally_complete(card);
    }
    assert(listing.to_multiset() =~= cards);
    listing.to_multiset_ensures();
}

} // verus!
