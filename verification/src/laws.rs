//! What holds of every game that the engine can reach.

use vstd::prelude::*;
use crate::card::Card;
use crate::command::Command;
use crate::deck::{is_standard, lemma_standard_size};
use crate::draw::{enough_to_draw, recycled};
use crate::game::{
    hands_size, PlayerView, lemma_card_taken, lemma_cards_size, lemma_played_conserves,
    lemma_seat_drew_conserves, Fault, GameView,
};
use crate::policy::{first_playable, none_playable};
use crate::setup::set_up;

verus! {

/// Whether the engine can bring a game to the state `game` with `steps`
/// commands: by setting it up, and then answering one command after the
/// other.
pub open spec fn reachable(game: GameView, steps: nat) -> bool
    decreases steps,
{
    if steps == 0 {
        exists|player_count: int, ai_count: int| #[trigger] set_up(game, player_count, ai_count)
    } else {
        exists|before: GameView, command: Command, result: Result<(), Fault>|
            reachable(before, (steps - 1) as nat) && #[trigger] before.answered(
                command,
                result,
                game,
            )
    }
}

/// A card that is recycled from the discard pile into the deck has lost the
/// color that it was given as a wild card.
pub proof fn lemma_recycled_wild_has_no_color(discard: Seq<Card>, place: int)
    requires
        0 <= place < recycled(discard).len(),
    ensures
        recycled(discard)[place].wild ==> recycled(discard)[place].color is None,
{
}

/// While a seat draws because it cannot play, the game keeps its cards, the
/// top of the discard pile, its seats and the turn; each card drawn leaves
/// the deck or the discard pile.
pub proof fn lemma_searched_conserves(before: GameView, drawn: nat, after: GameView)
    requires
        0 <= before.current < before.players.len(),
        before.searched(drawn, after),
    ensures
        after.cards() == before.cards(),
        after.top() == before.top(),
        after.current == before.current,
        after.players.len() == before.players.len(),
        after.pending == before.pending,
        after.deck.len() + after.discard.len() + drawn == before.deck.len()
            + before.discard.len(),
    decreases drawn,
{
    if drawn > 0 {
        let mid = choose|mid: GameView|
            {
                &&& before.searched((drawn - 1) as nat, mid)
                &&& none_playable(mid.hand(), mid.top())
                &&& enough_to_draw(1, mid.deck, mid.discard)
                &&& #[trigger] mid.seat_drew(mid.current, 1, after)
            };
        lemma_searched_conserves(before, (drawn - 1) as nat, mid);
        lemma_seat_drew_conserves(mid, mid.current, 1, after);
    }
}

/// A card that leaves the hand of the seat whose turn it is and is then
/// played stays in the game.
pub proof fn lemma_staged_play_conserves(
    before: GameView,
    index: int,
    card: Card,
    drawn: i32,
    after: GameView,
)
    requires
        0 <= before.current < before.players.len(),
        0 <= index < before.hand().len(),
        card.unassigned() == before.hand()[index].unassigned(),
        before.can_serve(card),
        before.staged(index, card, drawn).played(card, after),
    ensures
        after.cards() == before.cards(),
        0 <= after.current < after.players.len(),
        after.players.len() == before.players.len(),
        after.pending == before.pending,
{
    let staged = before.staged(index, card, drawn);
    lemma_card_taken(before, staged, index);
    lemma_played_conserves(staged, card, after);
}

/// A turn of the computer keeps the cards of the game and leaves the turn
/// with a seat.
pub proof fn lemma_automated_conserves(before: GameView, after: GameView)
    requires
        0 <= before.current < before.players.len(),
        before.automated(after),
    ensures
        after.cards() == before.cards(),
        0 <= after.current < after.players.len(),
        after.players.len() == before.players.len(),
        after.pending == before.pending,
{
    let (drawn, index, found) = choose|drawn: nat, index: int, found: GameView|
        {
            &&& #[trigger] before.searched(drawn, found)
            &&& #[trigger] first_playable(found.hand(), found.top(), index)
            &&& found.can_serve(found.policy_card(index))
            &&& found.staged(index, found.policy_card(index), drawn as i32).played(
                found.policy_card(index),
                after,
            )
        };
    lemma_searched_conserves(before, drawn, found);
    lemma_staged_play_conserves(found, index, found.policy_card(index), drawn as i32, after);
}

/// A turn of the computer that cannot be finished keeps the cards of the
/// game and the turn.
pub proof fn lemma_stalled_conserves(before: GameView, after: GameView)
    requires
        0 <= before.current < before.players.len(),
        before.stalled(after),
    ensures
        after.cards() == before.cards(),
        after.current == before.current,
        after.players.len() == before.players.len(),
        after.pending == before.pending,
{
    let drawn = choose|drawn: nat| #[trigger] before.searched(drawn, after) && after.policy_stuck();
    lemma_searched_conserves(before, drawn, after);
}

/// The turns that the computer plays in a row keep the cards of the game
/// and leave the turn with a seat.
pub proof fn lemma_cascaded_conserves(before: GameView, turns: nat, after: GameView)
    requires
        0 <= before.current < before.players.len(),
        before.cascaded(turns, after),
    ensures
        after.cards() == before.cards(),
        0 <= after.current < after.players.len(),
        after.players.len() == before.players.len(),
        after.pending == before.pending,
    decreases turns,
{
    if turns > 0 {
        let mid = choose|mid: GameView|
            {
                &&& before.cascaded((turns - 1) as nat, mid)
                &&& mid.computer_to_move()
                &&& #[trigger] mid.automated(after)
            };
        lemma_cascaded_conserves(before, (turns - 1) as nat, mid);
        lemma_automated_conserves(mid, after);
    }
}

/// What follows a command keeps the cards of the game and leaves the turn
/// with a seat.
pub proof fn lemma_concluded_conserves(
    before: GameView,
    result: Result<(), Fault>,
    after: GameView,
)
    requires
        0 <= before.current < before.players.len(),
        before.concluded(result, after),
    ensures
        after.cards() == before.cards(),
        0 <= after.current < after.players.len(),
        after.players.len() == before.players.len(),
        after.pending == before.pending,
{
    if !before.is_over() {
        let (turns, last) = choose|turns: nat, last: GameView|
            #[trigger] before.cascaded(turns, last) && last.settled(turns, result, after);
        lemma_cascaded_conserves(before, turns, last);
        match result {
            Ok(_) => {},
            Err(Fault::OutOfCards) => {
                lemma_stalled_conserves(last, after);
            },
            Err(Fault::TurnLimit) => {},
        }
    }
}

/// Whatever the engine does with a command, a well-formed game stays well
/// formed and keeps its cards: none is made, lost or doubled.
pub proof fn lemma_answered_conserves(
    before: GameView,
    command: Command,
    result: Result<(), Fault>,
    after: GameView,
)
    requires
        before.wf(),
        before.answered(command, result, after),
    ensures
        after.wf(),
        after.cards() == before.cards(),
{
    if before.is_over() {
    } else if before.refusal(command) is Some {
    } else if !before.can_step(command) {
    } else if before.picks_wild(command) {
    } else {
        let mid = choose|mid: GameView|
            #[trigger] before.stepped(command, mid) && mid.concluded(result, after);
        lemma_answered_step_conserves(before, command, mid);
        lemma_concluded_conserves(mid, result, after);
    }
}

/// Every game that the engine can reach is well formed and holds the cards
/// of a standard deck: the deck, the discard pile and the hands hold 108
/// cards together.
pub proof fn lemma_reachable_holds_108(game: GameView, steps: nat)
    requires
        reachable(game, steps),
    ensures
        game.wf(),
        is_standard(game.cards()),
        game.deck.len() + game.discard.len() + hands_size(game.players) == 108,
    decreases steps,
{
    if steps > 0 {
        let (before, command, result) = choose|
            before: GameView,
            command: Command,
            result: Result<(), Fault>,
        |
            reachable(before, (steps - 1) as nat) && #[trigger] before.answered(
                command,
                result,
                game,
            );
        lemma_reachable_holds_108(before, (steps - 1) as nat);
        lemma_answered_conserves(before, command, result, game);
    }
    lemma_standard_size(game.cards());
    lemma_cards_size(game);
}

/// Whether no seat of `players` but `seat` has an empty hand.
pub open spec fn only_empty(players: Seq<PlayerView>, seat: int) -> bool {
    forall|other: int|
        0 <= other < players.len() && other != seat ==> (#[trigger] players[other]).hand.len() > 0
}

/// Whether at most one seat of `players` has an empty hand.
pub open spec fn at_most_one_empty(players: Seq<PlayerView>) -> bool {
    forall|one: int, other: int|
        0 <= one < players.len() && 0 <= other < players.len()
            && (#[trigger] players[one]).hand.len() == 0
            && (#[trigger] players[other]).hand.len() == 0 ==> one == other
}

/// While a seat draws because it cannot play, no hand gets smaller: in a
/// game that goes on, every seat still holds a card.
pub proof fn lemma_searched_keeps_hands(before: GameView, drawn: nat, after: GameView)
    requires
        0 <= before.current < before.players.len(),
        !before.is_over(),
        before.searched(drawn, after),
    ensures
        !after.is_over(),
    decreases drawn,
{
    if drawn > 0 {
        let mid = choose|mid: GameView|
            {
                &&& before.searched((drawn - 1) as nat, mid)
                &&& none_playable(mid.hand(), mid.top())
                &&& enough_to_draw(1, mid.deck, mid.discard)
                &&& #[trigger] mid.seat_drew(mid.current, 1, after)
            };
        lemma_searched_keeps_hands(before, (drawn - 1) as nat, mid);
        lemma_searched_conserves(before, (drawn - 1) as nat, mid);
        if after.is_over() {
            let seat = choose|seat: int|
                0 <= seat < after.players.len() && (#[trigger] after.players[seat]).hand.len()
                    == 0;
            assert(mid.players[seat].hand.len() == 0);
        }
    }
}

/// When a card leaves the hand of the seat whose turn it is and is played
/// in a game that goes on, no hand but that seat's can be empty afterwards.
pub proof fn lemma_staged_play_empties_one(
    before: GameView,
    index: int,
    card: Card,
    drawn: i32,
    after: GameView,
)
    requires
        0 <= before.current < before.players.len(),
        0 <= index < before.hand().len(),
        !before.is_over(),
        before.staged(index, card, drawn).played(card, after),
    ensures
        only_empty(after.players, before.current),
        after.players.len() == before.players.len(),
{
    let staged = before.staged(index, card, drawn);
    assert forall|other: int|
        0 <= other < after.players.len() && other != before.current implies (
    #[trigger] after.players[other]).hand.len() > 0 by {
        assert(before.players[other].hand.len() != 0);
        assert(staged.players[other] == before.players[other]);
    }
}

/// A turn of the computer in a game that goes on leaves no hand empty but,
/// at most, that of the seat that played.
pub proof fn lemma_automated_empties_one(before: GameView, after: GameView)
    requires
        0 <= before.current < before.players.len(),
        !before.is_over(),
        before.automated(after),
    ensures
        only_empty(after.players, before.current),
        after.players.len() == before.players.len(),
{
    let (drawn, index, found) = choose|drawn: nat, index: int, found: GameView|
        {
            &&& #[trigger] before.searched(drawn, found)
            &&& #[trigger] first_playable(found.hand(), found.top(), index)
            &&& found.can_serve(found.policy_card(index))
            &&& found.staged(index, found.policy_card(index), drawn as i32).played(
                found.policy_card(index),
                after,
            )
        };
    lemma_searched_keeps_hands(before, drawn, found);
    lemma_searched_conserves(before, drawn, found);
    lemma_staged_play_empties_one(found, index, found.policy_card(index), drawn as i32, after);
}

/// The turns that the computer plays in a row leave at most one hand empty.
pub proof fn lemma_cascaded_empties_one(before: GameView, turns: nat, after: GameView)
    requires
        0 <= before.current < before.players.len(),
        at_most_one_empty(before.players),
        before.cascaded(turns, after),
    ensures
        at_most_one_empty(after.players),
    decreases turns,
{
    if turns > 0 {
        let mid = choose|mid: GameView|
            {
                &&& before.cascaded((turns - 1) as nat, mid)
                &&& mid.computer_to_move()
                &&& #[trigger] mid.automated(after)
            };
        lemma_cascaded_conserves(before, (turns - 1) as nat, mid);
        lemma_automated_empties_one(mid, after);
    }
}

/// Whatever the engine does with a command, at most one hand is empty
/// afterwards if at most one was before.
pub proof fn lemma_answered_empties_one(
    before: GameView,
    command: Command,
    result: Result<(), Fault>,
    after: GameView,
)
    requires
        before.wf(),
        at_most_one_empty(before.players),
        before.answered(command, result, after),
    ensures
        at_most_one_empty(after.players),
{
    if !before.is_over() && before.refusal(command) is None && before.can_step(command)
        && !before.picks_wild(command) {
        let mid = choose|mid: GameView|
            #[trigger] before.stepped(command, mid) && mid.concluded(result, after);
        lemma_answered_step_empties_one(before, command, mid);
        lemma_answered_step_conserves(before, command, mid);
        if !mid.is_over() {
            let (turns, last) = choose|turns: nat, last: GameView|
                #[trigger] mid.cascaded(turns, last) && last.settled(turns, result, after);
            lemma_cascaded_empties_one(mid, turns, last);
            lemma_cascaded_conserves(mid, turns, last);
            match result {
                Ok(_) => {},
                Err(Fault::OutOfCards) => {
                    let drawn = choose|drawn: nat|
                        #[trigger] last.searched(drawn, after) && after.policy_stuck();
                    lemma_searched_keeps_hands(last, drawn, after);
                },
                Err(Fault::TurnLimit) => {},
            }
        }
    }
}

/// A command that takes effect in a game that goes on leaves no hand empty
/// but, at most, that of the seat that played.
pub proof fn lemma_answered_step_empties_one(before: GameView, command: Command, mid: GameView)
    requires
        before.wf(),
        !before.is_over(),
        before.refusal(command) is None,
        before.can_step(command),
        !before.picks_wild(command),
        before.stepped(command, mid),
    ensures
        at_most_one_empty(mid.players),
{
    match command {
        Command::DrawCard => {
            assert forall|seat: int| 0 <= seat < mid.players.len() implies (
            #[trigger] mid.players[seat]).hand.len() > 0 by {
                assert(before.players[seat].hand.len() != 0);
            }
        },
        Command::PickCardToPlay(_) => {
            lemma_staged_play_empties_one(
                before.with_error(None),
                before.played_index(command),
                before.played_card(command),
                0,
                mid,
            );
        },
        Command::PickWildCardColor(_) => {
            let picked = GameView {
                pending: None,
                ui: crate::ui::UIView { player_instruction: None, error: None, ..before.ui },
                ..before
            };
            lemma_staged_play_empties_one(
                picked,
                before.played_index(command),
                before.played_card(command),
                0,
                mid,
            );
        },
    }
}

/// A command that takes effect keeps the cards of the game and leaves the
/// turn with a seat.
pub proof fn lemma_answered_step_conserves(before: GameView, command: Command, mid: GameView)
    requires
        before.wf(),
        before.refusal(command) is None,
        before.can_step(command),
        !before.picks_wild(command),
        before.stepped(command, mid),
    ensures
        mid.cards() == before.cards(),
        0 <= mid.current < mid.players.len(),
        mid.players.len() == before.players.len(),
        mid.pending is None,
{
    match command {
        Command::DrawCard => {
            lemma_seat_drew_conserves(before.with_error(None), before.current, 1, mid);
        },
        Command::PickCardToPlay(_) => {
            lemma_staged_play_conserves(
                before.with_error(None),
                before.played_index(command),
                before.played_card(command),
                0,
                mid,
            );
        },
        Command::PickWildCardColor(_) => {
            let picked = GameView {
                pending: None,
                ui: crate::ui::UIView { player_instruction: None, error: None, ..before.ui },
                ..before
            };
            lemma_staged_play_conserves(
                picked,
                before.played_index(command),
                before.played_card(command),
                0,
                mid,
            );
        },
    }
}

/// In every game that the engine can reach at most one hand is empty: the
/// game ends with the first hand that is played out.
pub proof fn lemma_reachable_has_one_winner(game: GameView, steps: nat)
    requires
        reachable(game, steps),
    ensures
        at_most_one_empty(game.players),
    decreases steps,
{
    if steps > 0 {
        let (before, command, result) = choose|
            before: GameView,
            command: Command,
            result: Result<(), Fault>,
        |
            reachable(before, (steps - 1) as nat) && #[trigger] before.answered(
                command,
                result,
                game,
            );
        lemma_reachable_has_one_winner(before, (steps - 1) as nat);
        lemma_reachable_holds_108(before, (steps - 1) as nat);
        lemma_answered_empties_one(before, command, result, game);
    }
}

/// When the engine has carried out a command and reports no fault, the
/// computer has nothing left to play: the game is over, or the turn is with
/// a human seat. Where the turn was with a human seat before, this holds of
/// a command that was rejected or has only picked a wild card too.
pub proof fn lemma_turn_returns_to_a_human(
    before: GameView,
    command: Command,
    result: Result<(), Fault>,
    after: GameView,
)
    requires
        before.wf(),
        before.answered(command, result, after),
        result is Ok,
        before.refusal(command) is Some || before.picks_wild(command)
            ==> !before.computer_to_move(),
    ensures
        !after.computer_to_move(),
{
    if !before.is_over() && before.refusal(command) is None && before.can_step(command)
        && !before.picks_wild(command) {
        let mid = choose|mid: GameView|
            #[trigger] before.stepped(command, mid) && mid.concluded(result, after);
        if !mid.is_over() {
            let (turns, last) = choose|turns: nat, last: GameView|
                #[trigger] mid.cascaded(turns, last) && last.settled(turns, result, after);
        }
    }
}

/// A card that empties a hand ends the game at once: the turn does not pass
/// on.
pub proof fn lemma_turn_stays_when_over(before: GameView, card: Card, after: GameView)
    requires
        before.played(card, after),
        after.is_over(),
    ensures
        after.current == before.current,
{
}

/// Once a hand is empty no command moves anything: the engine only names
/// the winner.
pub proof fn lemma_over_is_final(
    before: GameView,
    command: Command,
    result: Result<(), Fault>,
    after: GameView,
)
    requires
        before.is_over(),
        before.answered(command, result, after),
    ensures
        result is Ok,
        after.players == before.players,
        after.deck == before.deck,
        after.discard == before.discard,
        after.current == before.current,
        after.order == before.order,
        after.pending == before.pending,
        after.is_over(),
{
}

/// A command that ends the game is not followed by a turn of the computer:
/// the seats and the piles stay as the command left them.
pub proof fn lemma_no_turn_after_the_end(
    before: GameView,
    result: Result<(), Fault>,
    after: GameView,
)
    requires
        before.is_over(),
        before.concluded(result, after),
    ensures
        result is Ok,
        after.players == before.players,
        after.deck == before.deck,
        after.discard == before.discard,
        after.current == before.current,
        after.order == before.order,
{
}

} // verus!
