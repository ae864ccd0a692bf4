//! Drawing cards: from the deck into a hand, with the discard pile shuffled
//! back into the deck when the deck runs out.

use vstd::prelude::*;
use vstd::multiset::Multiset;
use vstd::seq_lib::lemma_multiset_commutative;
use rand::rngs::ThreadRng;
use rand::seq::SliceRandom;
use crate::card::Card;

verus! {

/// The cards of `pile`, each taken as it lies in the deck, without regard to
/// their order.
pub open spec fn blanks(pile: Seq<Card>) -> Multiset<Card> {
    pile.map_values(|card: Card| card.unassigned()).to_multiset()
}

/// The card on top of `pile`, if there is one.
pub open spec fn top_of(pile: Seq<Card>) -> Option<Card> {
    if pile.len() > 0 {
        Some(pile.last())
    } else {
        None
    }
}

/// Whether `count` cards can be drawn: the deck and the discard pile, less
/// the discard pile's top card, hold at least that many.
pub open spec fn enough_to_draw(count: int, deck: Seq<Card>, discard: Seq<Card>) -> bool {
    count <= 0 || deck.len() + discard.len() - 1 >= count
}

/// The cards that leave the discard pile when it is recycled: all but its
/// top card, wild cards without their color, the card below the top first.
pub open spec fn recycled(discard: Seq<Card>) -> Seq<Card> {
    discard.drop_last().reverse().map_values(|card: Card| card.unassigned())
}

/// What drawing `count` cards does to a hand, the deck and the discard pile.
///
/// Nothing changes for a count of zero or less. Otherwise the hand grows at
/// its end by `count` cards. While the deck holds enough, they are its top
/// cards, the topmost first, and the discard pile stays. If it does not, the
/// discard pile keeps only its top card and the cards are dealt from some
/// rearrangement of the deck and the recycled cards.
pub open spec fn drew(
    count: int,
    hand_before: Seq<Card>,
    deck_before: Seq<Card>,
    discard_before: Seq<Card>,
    hand_after: Seq<Card>,
    deck_after: Seq<Card>,
    discard_after: Seq<Card>,
) -> bool {
    if count <= 0 {
        hand_after == hand_before && deck_after == deck_before && discard_after == discard_before
    } else {
        let drawn = hand_after.skip(hand_before.len() as int);
        &&& hand_after.len() == hand_before.len() + count
        &&& hand_after.take(hand_before.len() as int) == hand_before
        &&& if deck_before.len() >= count {
            &&& discard_after == discard_before
            &&& deck_after + drawn.reverse() == deck_before
        } else {
            &&& discard_after == seq![discard_before.last()]
            &&& (deck_after + drawn.reverse()).to_multiset() == (deck_before + recycled(
                discard_before,
            )).to_multiset()
        }
    }
}

/// The handle to the generator of random numbers that rand keeps for each
/// thread. Nothing inside it is visible here.
#[verifier::external_type_specification]
#[verifier::external_body]
pub struct ExThreadRng(ThreadRng);

/// `rand::thread_rng` hands out the handle to the thread's generator, which
/// it seeds from the system when a thread first asks for it. Nothing is
/// claimed of the handle. The call fails only where the system gives no
/// seed.
pub assume_specification[ rand::thread_rng ]() -> (rng: ThreadRng)
;

/// Rearranges `cards` at random with `SliceRandom::shuffle` of rand, which
/// only swaps elements of the slice. The contract claims what holds of
/// every outcome: the cards afterwards are the cards before, in some order.
#[verifier::external_body]
pub(crate) fn shuffle(cards: &mut Vec<Card>, rng: &mut ThreadRng)
    ensures
        final(cards)@.to_multiset() == old(cards)@.to_multiset(),
{
    cards.shuffle(rng);
}

/// Tells whether `num_to_draw` cards can be drawn from `deck` and `discard`.
pub fn enough_cards(num_to_draw: i32, deck: &Vec<Card>, discard: &Vec<Card>) -> (enough: bool)
    ensures
        enough == enough_to_draw(num_to_draw as int, deck@, discard@),
{
    if num_to_draw <= 0 {
        return true;
    }
    // One less than there are: the top card stays on the discard pile.
    let needed = num_to_draw as usize;
    if deck.len() > needed {
        true
    } else {
        discard.len() >= 1 && discard.len() - 1 >= needed - deck.len()
    }
}

/// Moves all cards but the top one from `discard` into `deck`. A wild card
/// loses the color it was played with.
fn recycle(deck: &mut Vec<Card>, discard: &mut Vec<Card>)
    requires
        old(discard)@.len() >= 1,
    ensures
        final(deck)@ == old(deck)@ + recycled(old(discard)@),
        final(discard)@ == seq![old(discard)@.last()],
{
    let top = discard.pop().unwrap();
    let ghost below = discard@;
    while discard.len() > 0
        invariant
            discard@.len() <= below.len(),
            discard@ == below.take(discard@.len() as int),
            deck@ == old(deck)@ + below.skip(discard@.len() as int).reverse().map_values(
                |card: Card| card.unassigned(),
            ),
        decreases discard@.len(),
    {
        let mut card = discard.pop().unwrap();
        if card.wild && card.color.is_some() {
            card.color = None;
        }
        deck.push(card);
    }
    discard.push(top);
}

/// Draws `num_to_draw` cards from the top of `deck` into `player_hand`.
///
/// When the deck holds too few, the discard pile, less its top card, is
/// first shuffled into the deck.
pub fn draw_cards(
    player_hand: &mut Vec<Card>,
    num_to_draw: i32,
    deck: &mut Vec<Card>,
    discard: &mut Vec<Card>,
)
    requires
        enough_to_draw(num_to_draw as int, old(deck)@, old(discard)@),
    ensures
        drew(
            num_to_draw as int,
            old(player_hand)@,
            old(deck)@,
            old(discard)@,
            final(player_hand)@,
            final(deck)@,
            final(discard)@,
        ),
{
    if num_to_draw <= 0 {
        return;
    }
    let count = num_to_draw as usize;
    if deck.len() < count {
        recycle(deck, discard);
        let ghost gathered = deck@;
        let mut rng = rand::thread_rng();
        shuffle(deck, &mut rng);
        proof {
            gathered.to_multiset_ensures();
            deck@.to_multiset_ensures();
        }
    }
    let ghost pile = deck@;
    let ghost held = player_hand@.len() as int;
    let mut dealt: usize = 0;
    while dealt < count
        invariant
            dealt <= count <= pile.len(),
            held == old(player_hand)@.len(),
            player_hand@.len() == held + dealt,
            player_hand@.take(held) == old(player_hand)@,
            deck@.len() == pile.len() - dealt,
            deck@ + player_hand@.skip(held).reverse() == pile,
        decreases count - dealt,
    {
        let card = deck.pop().unwrap();
        player_hand.push(card);
        dealt += 1;
    }
}

/// The cards of two piles laid end to end are the cards of both.
pub proof fn lemma_blanks_concat(first: Seq<Card>, second: Seq<Card>)
    ensures
        blanks(first + second) == blanks(first).add(blanks(second)),
{
    let f = |card: Card| card.unassigned();
    assert((first + second).map_values(f) == first.map_values(f) + second.map_values(f));
    lemma_multiset_commutative(first.map_values(f), second.map_values(f));
}

/// An empty pile holds no cards.
pub proof fn lemma_blanks_empty()
    ensures
        blanks(Seq::<Card>::empty()) == Multiset::<Card>::empty(),
{
    let none = Seq::<Card>::empty().map_values(|card: Card| card.unassigned());
    none.to_multiset_ensures();
}

/// A card put on a pile is added to the pile's cards.
pub proof fn lemma_blanks_push(pile: Seq<Card>, card: Card)
    ensures
        blanks(pile.push(card)) == blanks(pile).insert(card.unassigned()),
{
    let f = |card: Card| card.unassigned();
    assert(pile.push(card).map_values(f) == pile.map_values(f).push(card.unassigned()));
    vstd::seq_lib::to_multiset_build(pile.map_values(f), card.unassigned());
}

/// A card taken out of a pile is taken from the pile's cards.
pub proof fn lemma_blanks_remove(pile: Seq<Card>, i: int)
    requires
        0 <= i < pile.len(),
    ensures
        blanks(pile) == blanks(pile.remove(i)).insert(pile[i].unassigned()),
{
    let f = |card: Card| card.unassigned();
    assert(pile.remove(i).map_values(f) == pile.map_values(f).remove(i));
    pile.map_values(f).to_multiset_ensures();
}

/// A pile turned upside down holds the same cards.
pub proof fn lemma_blanks_reverse(pile: Seq<Card>)
    ensures
        blanks(pile.reverse()) == blanks(pile),
{
    let f = |card: Card| card.unassigned();
    assert(pile.reverse().map_values(f) == pile.map_values(f).reverse());
    pile.map_values(f).lemma_reverse_to_multiset();
}

/// Taking the color from the wild cards of a pile a second time changes
/// nothing.
pub proof fn lemma_blanks_unassigned(pile: Seq<Card>)
    ensures
        blanks(pile.map_values(|card: Card| card.unassigned())) == blanks(pile),
{
    let f = |card: Card| card.unassigned();
    assert(pile.map_values(f).map_values(f) == pile.map_values(f));
}

/// Two piles that hold the same cards in another order still hold the same
/// cards once the wild cards have lost their color.
pub proof fn lemma_blanks_rearranged(first: Seq<Card>, second: Seq<Card>)
    requires
        first.to_multiset() == second.to_multiset(),
    ensures
        blanks(first) == blanks(second),
    decreases first.len(),
{
    first.to_multiset_ensures();
    second.to_multiset_ensures();
    if first.len() == 0 {
        assert(first == second);
    } else {
        let card = first.last();
        assert(first == first.drop_last().push(card));
        assert(second.to_multiset().count(card) > 0);
        let i = choose|i: int| 0 <= i < second.len() && second[i] == card;
        assert(first.drop_last().to_multiset() =~= second.remove(i).to_multiset()) by {
            vstd::seq_lib::to_multiset_build(first.drop_last(), card);
        }
        lemma_blanks_rearranged(first.drop_last(), second.remove(i));
        lemma_blanks_push(first.drop_last(), card);
        lemma_blanks_remove(second, i);
    }
}

/// Drawing neither makes nor loses a card, leaves the top of the discard
/// pile in place, and takes each drawn card from the deck or the discard
/// pile.
pub proof fn lemma_drew_conserves(
    count: int,
    hand_before: Seq<Card>,
    deck_before: Seq<Card>,
    discard_before: Seq<Card>,
    hand_after: Seq<Card>,
    deck_after: Seq<Card>,
    discard_after: Seq<Card>,
)
    requires
        enough_to_draw(count, deck_before, discard_before),
        drew(
            count,
            hand_before,
            deck_before,
            discard_before,
            hand_after,
            deck_after,
            discard_after,
        ),
    ensures
        blanks(hand_after).add(blanks(deck_after)).add(blanks(discard_after)) == blanks(
            hand_before,
        ).add(blanks(deck_before)).add(blanks(discard_before)),
        top_of(discard_after) == top_of(discard_before),
        count > 0 ==> deck_after.len() + discard_after.len() == deck_before.len()
            + discard_before.len() - count,
{
    if count > 0 {
        let drawn = hand_after.skip(hand_before.len() as int);
        assert(hand_after == hand_before + drawn);
        lemma_blanks_concat(hand_before, drawn);
        lemma_blanks_concat(deck_after, drawn.reverse());
        lemma_blanks_reverse(drawn);
        if deck_before.len() < count {
            let below = discard_before.drop_last();
            lemma_blanks_rearranged(
                deck_after + drawn.reverse(),
                deck_before + recycled(discard_before),
            );
            lemma_blanks_concat(deck_before, recycled(discard_before));
            lemma_blanks_unassigned(below.reverse());
            lemma_blanks_reverse(below);
            assert(discard_before == below.push(discard_before.last()));
            lemma_blanks_push(below, discard_before.last());
            lemma_blanks_push(Seq::<Card>::empty(), discard_before.last());
            lemma_blanks_empty();
            (deck_after + drawn.reverse()).to_multiset_ensures();
            (deck_before + recycled(discard_before)).to_multiset_ensures();
            let dealt_from = blanks(deck_after).add(blanks(drawn));
            let gathered = blanks(deck_before).add(blanks(below));
            assert forall|card: Card|
                blanks(hand_after).add(blanks(deck_after)).add(blanks(discard_after)).count(card)
                    == blanks(hand_before).add(blanks(deck_before)).add(
                    blanks(discard_before),
                ).count(card) by {
                assert(dealt_from.count(card) == gathered.count(card));
            }
        }
    }
}

} // verus!
