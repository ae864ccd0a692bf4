//! The turn engine: the state of a game and the rules that change it.

use vstd::prelude::*;
use vstd::multiset::Multiset;
use crate::card::{can_follow, can_play_card, card_of, Card, DrawEffect, TurnEffect};
use crate::draw::{blanks, draw_cards, drew, enough_cards, enough_to_draw, top_of};
use crate::policy::{find_playable, first_playable, favorite_color, most_held_color, none_playable};
use crate::ui::{TurnRecap, UIView, UI};

verus! {

/// The direction in which the turn passes from seat to seat.
#[derive(Copy, Clone, PartialEq, Eq, Debug, Structural)]
pub enum TurnOrder {
    Forward,
    Backward,
}

/// Why the engine cannot go on.
#[derive(Copy, Clone, PartialEq, Eq, Debug, Structural)]
pub enum Fault {
    /// A seat has to draw more cards than the deck and the discard pile,
    /// less its top card, hold.
    OutOfCards,
    /// The computer-controlled seats have played as many turns in a row as
    /// the engine lets them.
    TurnLimit,
}

/// Whether a card picked by its place in a hand may be played.
#[derive(Debug)]
pub enum CardFromIndexValidationResult {
    Valid,
    /// The card may not be played, for this reason.
    Invalid(String),
}

/// A seat at the table: its hand, and whether the engine plays for it.
#[derive(Debug)]
pub struct Player {
    pub hand: Vec<Card>,
    pub ai: bool,
}

/// A seat as plain values.
pub struct PlayerView {
    pub hand: Seq<Card>,
    pub ai: bool,
}

impl View for Player {
    type V = PlayerView;

    open spec fn view(&self) -> PlayerView {
        PlayerView { hand: self.hand@, ai: self.ai }
    }
}

impl Default for Player {
    /// A human seat with an empty hand.
    fn default() -> (player: Player)
        ensures
            player@ == (PlayerView { hand: Seq::empty(), ai: false }),
    {
        Player { hand: Vec::new(), ai: false }
    }
}

/// The seats `players` as plain values.
pub open spec fn seats(players: Seq<Player>) -> Seq<PlayerView> {
    players.map_values(|player: Player| player@)
}

/// A game: the seats in turn order, the deck and the discard pile (the top
/// of each is its last card), whose turn it is, and what the observer sees.
#[derive(Debug)]
pub struct Uno {
    pub players: Vec<Player>,
    pub current_player_index: i32,
    pub deck: Vec<Card>,
    pub discard: Vec<Card>,
    pub wild_card_index_to_pick_color_for: Option<i32>,
    pub turn_order: TurnOrder,
    pub ui: UI,
}

/// A game as plain values.
pub struct GameView {
    pub players: Seq<PlayerView>,
    pub current: int,
    pub deck: Seq<Card>,
    pub discard: Seq<Card>,
    pub pending: Option<i32>,
    pub order: TurnOrder,
    pub ui: UIView,
}

impl View for Uno {
    type V = GameView;

    open spec fn view(&self) -> GameView {
        GameView {
            players: seats(self.players@),
            current: self.current_player_index as int,
            deck: self.deck@,
            discard: self.discard@,
            pending: self.wild_card_index_to_pick_color_for,
            order: self.turn_order,
            ui: self.ui@,
        }
    }
}

/// The cards in the hands of `players`, each taken as it lies in the deck.
pub open spec fn hands_blanks(players: Seq<PlayerView>) -> Multiset<Card>
    decreases players.len(),
{
    if players.len() == 0 {
        Multiset::empty()
    } else {
        hands_blanks(players.drop_last()).add(blanks(players.last().hand))
    }
}

/// The number of cards in the hands of `players`.
pub open spec fn hands_size(players: Seq<PlayerView>) -> nat
    decreases players.len(),
{
    if players.len() == 0 {
        0
    } else {
        hands_size(players.drop_last()) + players.last().hand.len()
    }
}

/// Whether one of `players` has no card left.
pub open spec fn some_hand_empty(players: Seq<PlayerView>) -> bool {
    exists|seat: int| 0 <= seat < players.len() && #[trigger] players[seat].hand.len() == 0
}

/// The seat that follows `current` among `num_players` seats.
pub open spec fn next_seat(current: int, num_players: int, order: TurnOrder) -> int {
    match order {
        TurnOrder::Forward => if current + 1 == num_players {
            0
        } else {
            current + 1
        },
        TurnOrder::Backward => if current == 0 {
            num_players - 1
        } else {
            current - 1
        },
    }
}

/// The direction of play once `card` has been played: a reverse card turns
/// it round.
pub open spec fn order_after(card: Card, order: TurnOrder) -> TurnOrder {
    if card.turn_effect == Some(TurnEffect::Reverse) {
        match order {
            TurnOrder::Forward => TurnOrder::Backward,
            TurnOrder::Backward => TurnOrder::Forward,
        }
    } else {
        order
    }
}

/// The seat whose turn is next once `card` has been played from seat
/// `current` and the direction is `order`: the next seat, or after a skip
/// card the seat after that.
pub open spec fn seat_after(card: Card, current: int, num_players: int, order: TurnOrder) -> int {
    let next = next_seat(current, num_players, order);
    if card.turn_effect == Some(TurnEffect::Skip) {
        next_seat(next, num_players, order)
    } else {
        next
    }
}

/// How many cards `effect` makes a seat draw.
pub open spec fn effect_count(effect: DrawEffect) -> int {
    match effect {
        DrawEffect::Draw(count) => count as int,
    }
}

/// How many cards `card` makes the next seat draw.
pub open spec fn draw_count(card: Card) -> int {
    match card.draw_effect {
        Some(effect) => effect_count(effect),
        None => 0,
    }
}

impl GameView {
    /// All cards of the game, each taken as it lies in the deck.
    pub open spec fn cards(self) -> Multiset<Card> {
        blanks(self.deck).add(blanks(self.discard)).add(hands_blanks(self.players))
    }

    /// The card on top of the discard pile.
    pub open spec fn top(self) -> Option<Card> {
        top_of(self.discard)
    }

    /// The hand of the seat whose turn it is.
    pub open spec fn hand(self) -> Seq<Card> {
        self.players[self.current].hand
    }

    /// Whether the turn is with one of the seats, which can be counted in
    /// `i32`.
    pub open spec fn turn_in_range(self) -> bool {
        0 <= self.current < self.players.len() <= i32::MAX
    }

    /// Whether the seats and the turn are in order: the turn is with one of
    /// the seats, and seats and cards can be counted in `i32`.
    pub open spec fn seated(self) -> bool {
        &&& self.turn_in_range()
        &&& self.cards().len() <= i32::MAX
    }

    /// Whether the game is well formed: it is seated, and a pending index
    /// points at a wild card in the hand of the seat whose turn it is,
    /// counted from 1.
    pub open spec fn wf(self) -> bool {
        &&& self.seated()
        &&& match self.pending {
            Some(index) => 1 <= index <= self.hand().len() && self.hand()[index - 1].wild,
            None => true,
        }
    }

    /// Whether the game has ended: some hand is empty.
    pub open spec fn is_over(self) -> bool {
        some_hand_empty(self.players)
    }

    /// Whether `card` can be played now: the seat that would draw for it
    /// can be served.
    pub open spec fn can_serve(self, card: Card) -> bool {
        enough_to_draw(draw_count(card), self.deck, self.discard)
    }

    /// What it does to the game `self`, giving `after`, that seat `seat`
    /// draws `count` cards: nothing but that seat's hand, the deck and the
    /// discard pile changes.
    pub open spec fn seat_drew(self, seat: int, count: int, after: GameView) -> bool {
        &&& after.players.len() == self.players.len()
        &&& forall|other: int|
            0 <= other < self.players.len() && other != seat ==> after.players[other]
                == self.players[other]
        &&& after.players[seat].ai == self.players[seat].ai
        &&& drew(
            count,
            self.players[seat].hand,
            self.deck,
            self.discard,
            after.players[seat].hand,
            after.deck,
            after.discard,
        )
        &&& after.current == self.current
        &&& after.order == self.order
        &&& after.pending == self.pending
        &&& after.ui == self.ui
    }

    /// What it does to the game `self`, giving `after`, that the seat whose
    /// turn it is draws `drawn` cards one by one because none of its cards
    /// can be played.
    pub open spec fn searched(self, drawn: nat, after: GameView) -> bool
        decreases drawn,
    {
        if drawn == 0 {
            after == self
        } else {
            exists|mid: GameView|
                {
                    &&& self.searched((drawn - 1) as nat, mid)
                    &&& none_playable(mid.hand(), mid.top())
                    &&& enough_to_draw(1, mid.deck, mid.discard)
                    &&& #[trigger] mid.seat_drew(mid.current, 1, after)
                }
        }
    }

    /// The card that the computer plays when it picks the card at `index`
    /// of its hand: a wild card gets the color that the rest of the hand
    /// holds the most of.
    pub open spec fn policy_card(self, index: int) -> Card {
        let card = self.hand()[index];
        if card.wild {
            Card { color: Some(favorite_color(self.hand().remove(index))), ..card }
        } else {
            card
        }
    }

    /// The game once the seat whose turn it is has taken the card at
    /// `index` from its hand, and the recap says that it plays `card` after
    /// drawing `drawn` cards.
    pub open spec fn staged(self, index: int, card: Card, drawn: i32) -> GameView {
        GameView {
            players: self.players.update(
                self.current,
                PlayerView { hand: self.hand().remove(index), ..self.players[self.current] },
            ),
            ui: UIView {
                last_turn_recap: Some(
                    TurnRecap { player: (self.current + 1) as i32, card, drawn_cards: drawn },
                ),
                ..self.ui
            },
            ..self
        }
    }

    /// Whether the computer cannot move in the game `self`: it has no card
    /// to play and none to draw, or the seat that would draw for the card
    /// it plays cannot be served.
    pub open spec fn policy_stuck(self) -> bool {
        ||| none_playable(self.hand(), self.top()) && !enough_to_draw(1, self.deck, self.discard)
        ||| exists|index: int|
            #[trigger] first_playable(self.hand(), self.top(), index) && !self.can_serve(
                self.policy_card(index),
            )
    }

    /// What one turn of the computer does to the game `self`, giving
    /// `after`: the seat draws until it holds a card that can be played,
    /// then plays the first such card of its hand.
    pub open spec fn automated(self, after: GameView) -> bool {
        exists|drawn: nat, index: int, found: GameView|
            {
                &&& #[trigger] self.searched(drawn, found)
                &&& #[trigger] first_playable(found.hand(), found.top(), index)
                &&& found.can_serve(found.policy_card(index))
                &&& found.staged(index, found.policy_card(index), drawn as i32).played(
                    found.policy_card(index),
                    after,
                )
            }
    }

    /// What a turn of the computer that cannot be finished does to the game
    /// `self`, giving `after`: the seat has drawn cards, and is stuck.
    pub open spec fn stalled(self, after: GameView) -> bool {
        exists|drawn: nat| #[trigger] self.searched(drawn, after) && after.policy_stuck()
    }

    /// What playing `card` does to the game `self`, giving `after`.
    ///
    /// A reverse card turns the direction round. The seat that is next in
    /// the new direction, or the one after it for a skip card, draws what
    /// the card's draw effect asks for. Then the card lies on the discard
    /// pile, and unless the game has ended the turn passes to that seat.
    pub open spec fn played(self, card: Card, after: GameView) -> bool {
        let order = order_after(card, self.order);
        let next = seat_after(card, self.current, self.players.len() as int, order);
        &&& after.order == order
        &&& after.players.len() == self.players.len()
        &&& forall|seat: int|
            0 <= seat < self.players.len() && seat != next ==> after.players[seat]
                == self.players[seat]
        &&& after.players[next].ai == self.players[next].ai
        &&& after.discard.len() > 0
        &&& after.discard.last() == card
        &&& drew(
            draw_count(card),
            self.players[next].hand,
            self.deck,
            self.discard,
            after.players[next].hand,
            after.deck,
            after.discard.drop_last(),
        )
        &&& after.current == if after.is_over() {
            self.current
        } else {
            next
        }
        &&& after.pending == self.pending
        &&& after.ui == self.ui
    }
}

/// What a player is told who picks a card that the hand does not hold.
pub open spec fn no_such_card_text() -> Seq<char> {
    "You do not have that card, please pick another."@
}

/// What a player is told who picks a card that may not be played.
pub open spec fn illegal_play_text() -> Seq<char> {
    "Can't play that card :( , pick another."@
}

/// Whether `card_index`, counted from 1, is a place in `hand`.
pub open spec fn index_in_hand(card_index: int, hand: Seq<Card>) -> bool {
    1 <= card_index <= hand.len()
}

/// Why the card at `card_index` of `hand`, counted from 1, may not be
/// played on `top`, if it may not: the hand has no such card, or the card
/// cannot follow `top`.
pub open spec fn pick_refusal(card_index: int, hand: Seq<Card>, top: Option<Card>) -> Option<
    Seq<char>,
> {
    if !index_in_hand(card_index, hand) {
        Some(no_such_card_text())
    } else if !can_follow(top, hand[card_index - 1]) {
        Some(illegal_play_text())
    } else {
        None
    }
}

/// Checks the card at `card_index` of `player_hand`, counted from 1,
/// against the card that was played last.
pub fn validate_card_from_index(
    card_index: i32,
    player_hand: &Vec<Card>,
    last_played_card: Option<&Card>,
) -> (result: CardFromIndexValidationResult)
    ensures
        match result {
            CardFromIndexValidationResult::Valid => pick_refusal(
                card_index as int,
                player_hand@,
                card_of(last_played_card),
            ) is None,
            CardFromIndexValidationResult::Invalid(reason) => pick_refusal(
                card_index as int,
                player_hand@,
                card_of(last_played_card),
            ) == Some(reason@),
        },
{
    if card_index < 1 || (card_index - 1) as usize >= player_hand.len() {
        return CardFromIndexValidationResult::Invalid(
            "You do not have that card, please pick another.".to_string(),
        );
    }
    let card_to_play = &player_hand[(card_index - 1) as usize];

    if !can_play_card(last_played_card, card_to_play) {
        return CardFromIndexValidationResult::Invalid(
            "Can't play that card :( , pick another.".to_string(),
        );
    }
    return CardFromIndexValidationResult::Valid
}

/// Steps from seat `current_player_index` to the next of `num_players`
/// seats, round the table in either direction.
pub fn get_next_player_index(
    current_player_index: i32,
    num_players: i32,
    turn_order: TurnOrder,
) -> (next: i32)
    requires
        0 <= current_player_index < num_players,
    ensures
        next == next_seat(current_player_index as int, num_players as int, turn_order),
        0 <= next < num_players,
{
    let change_direction: i32 = match turn_order {
        TurnOrder::Forward => 1,
        TurnOrder::Backward => -1,
    };
    let mut next_player_index: i32 = current_player_index + change_direction;
    if next_player_index == num_players {
        next_player_index = 0;
    } else if next_player_index < 0 {
        next_player_index = num_players - 1;
    }
    next_player_index
}

/// Makes `next_player`, the seat `next_player_index`, draw what
/// `draw_effect` asks for.
pub fn play_card_draw_effect(
    draw_effect: &DrawEffect,
    next_player: &mut Player,
    next_player_index: i32,
    deck: &mut Vec<Card>,
    discard: &mut Vec<Card>,
)
    requires
        enough_to_draw(
            effect_count(*draw_effect),
            old(deck)@,
            old(discard)@,
        ),
    ensures
        final(next_player).ai == old(next_player).ai,
        drew(
            effect_count(*draw_effect),
            old(next_player).hand@,
            old(deck)@,
            old(discard)@,
            final(next_player).hand@,
            final(deck)@,
            final(discard)@,
        ),
{
    let DrawEffect::Draw(num_cards_to_draw) = draw_effect;
    draw_cards(&mut next_player.hand, *num_cards_to_draw, deck, discard);
}

/// The cards in all hands are those of one seat and those of the others.
pub proof fn lemma_hands_split(players: Seq<PlayerView>, seat: int)
    requires
        0 <= seat < players.len(),
    ensures
        hands_blanks(players) == hands_blanks(players.remove(seat)).add(
            blanks(players[seat].hand),
        ),
    decreases players.len(),
{
    if seat < players.len() - 1 {
        lemma_hands_split(players.drop_last(), seat);
        assert(players.remove(seat).drop_last() == players.drop_last().remove(seat));
    }
}

/// A seat that draws takes its cards from the deck and the discard pile:
/// the game's cards stay the same, and so does the top of the discard pile.
pub proof fn lemma_seat_drew_conserves(before: GameView, seat: int, count: int, after: GameView)
    requires
        0 <= seat < before.players.len(),
        enough_to_draw(count, before.deck, before.discard),
        before.seat_drew(seat, count, after),
    ensures
        after.cards() == before.cards(),
        after.top() == before.top(),
        count > 0 ==> after.deck.len() + after.discard.len() == before.deck.len()
            + before.discard.len() - count,
{
    lemma_hands_split(before.players, seat);
    lemma_hands_split(after.players, seat);
    assert(after.players.remove(seat) == before.players.remove(seat));
    crate::draw::lemma_drew_conserves(
        count,
        before.players[seat].hand,
        before.deck,
        before.discard,
        after.players[seat].hand,
        after.deck,
        after.discard,
    );
    let drawn_from = blanks(before.players[seat].hand).add(blanks(before.deck)).add(
        blanks(before.discard),
    );
    let drawn_to = blanks(after.players[seat].hand).add(blanks(after.deck)).add(
        blanks(after.discard),
    );
    assert forall|card: Card| after.cards().count(card) == before.cards().count(card) by {
        assert(drawn_from.count(card) == drawn_to.count(card));
    }
}

/// A card that is played is added to the game's cards and lies on top of
/// the discard pile; the turn stays with a seat.
pub proof fn lemma_played_conserves(before: GameView, card: Card, after: GameView)
    requires
        0 <= before.current < before.players.len(),
        before.can_serve(card),
        before.played(card, after),
    ensures
        after.cards() == before.cards().insert(card.unassigned()),
        after.top() == Some(card),
        0 <= after.current < after.players.len(),
{
    let order = order_after(card, before.order);
    let next = seat_after(card, before.current, before.players.len() as int, order);
    let served = GameView {
        discard: after.discard.drop_last(),
        current: before.current,
        order: before.order,
        ..after
    };
    lemma_seat_drew_conserves(before, next, draw_count(card), served);
    assert(after.discard == served.discard.push(card));
    crate::draw::lemma_blanks_push(served.discard, card);
}

proof fn lemma_blanks_size(pile: Seq<Card>)
    ensures
        blanks(pile).len() == pile.len(),
{
    pile.map_values(|card: Card| card.unassigned()).to_multiset_ensures();
}

proof fn lemma_hands_size(players: Seq<PlayerView>)
    ensures
        hands_blanks(players).len() == hands_size(players),
    decreases players.len(),
{
    if players.len() > 0 {
        lemma_hands_size(players.drop_last());
        lemma_blanks_size(players.last().hand);
    }
}

proof fn lemma_hands_size_of_some(players: Seq<PlayerView>, some: int)
    requires
        0 <= some <= players.len(),
    ensures
        hands_size(players.take(some)) <= hands_size(players),
    decreases players.len(),
{
    if some == players.len() {
        assert(players.take(some) == players);
    } else {
        lemma_hands_size_of_some(players.drop_last(), some);
        assert(players.drop_last().take(some) == players.take(some));
    }
}

/// The cards of a game are as many as the deck, the discard pile and the
/// hands hold together.
pub proof fn lemma_cards_size(game: GameView)
    ensures
        game.cards().len() == game.deck.len() + game.discard.len() + hands_size(game.players),
{
    lemma_blanks_size(game.deck);
    lemma_blanks_size(game.discard);
    lemma_hands_size(game.players);
}

/// Where two games differ only in one seat's hand and in what the observer
/// sees, their cards differ as those two hands do.
pub proof fn lemma_cards_but_hand(before: GameView, after: GameView, seat: int)
    requires
        0 <= seat < before.players.len(),
        after.players.len() == before.players.len(),
        forall|other: int|
            0 <= other < before.players.len() && other != seat ==> after.players[other]
                == before.players[other],
        after.deck == before.deck,
        after.discard == before.discard,
    ensures
        before.cards().add(blanks(after.players[seat].hand)) == after.cards().add(
            blanks(before.players[seat].hand),
        ),
{
    lemma_hands_split(before.players, seat);
    lemma_hands_split(after.players, seat);
    assert(after.players.remove(seat) == before.players.remove(seat));
}

/// A card taken from the hand of the seat whose turn it is leaves the game:
/// put back, whatever color it has got, the cards are what they were.
pub proof fn lemma_card_taken(before: GameView, after: GameView, index: int)
    requires
        0 <= before.current < before.players.len(),
        0 <= index < before.hand().len(),
        after.players == before.players.update(
            before.current,
            PlayerView { hand: before.hand().remove(index), ..before.players[before.current] },
        ),
        after.deck == before.deck,
        after.discard == before.discard,
    ensures
        after.cards().insert(before.hand()[index].unassigned()) == before.cards(),
        after.cards().len() + 1 == before.cards().len(),
{
    let card = before.hand()[index];
    lemma_cards_but_hand(before, after, before.current);
    crate::draw::lemma_blanks_remove(before.hand(), index);
    assert(after.cards().insert(card.unassigned()) =~= before.cards()) by {
        assert forall|other: Card|
            after.cards().insert(card.unassigned()).count(other) == before.cards().count(
                other,
            ) by {
            assert(before.cards().add(blanks(after.players[before.current].hand)).count(other)
                == after.cards().add(blanks(before.hand())).count(other));
        }
    }
}

impl Uno {
    /// Plays one turn for the seat whose turn it is, as the computer does:
    /// the seat draws single cards until it holds one that can be played,
    /// then plays the first such card of its hand, a wild card in the color
    /// that the hand holds the most of.
    ///
    /// The turn fails, and the cards drawn so far stay in the hand, when
    /// the seat would have to draw and no card is left for it, or when the
    /// card it has found makes the next seat draw more than is left.
    pub fn automate_current_player_turn(&mut self) -> (result: Result<(), Fault>)
        requires
            old(self)@.wf(),
            old(self)@.pending is None,
        ensures
            final(self)@.wf(),
            final(self)@.pending is None,
            final(self)@.cards() == old(self)@.cards(),
            match result {
                Ok(()) => old(self)@.automated(final(self)@),
                Err(fault) => fault == Fault::OutOfCards && old(self)@.stalled(final(self)@),
            },
    {
        let seat = self.current_player_index as usize;
        let mut num_drawn_cards: i32 = 0;
        let mut card_index_to_play: Option<usize> = None;
        proof {
            lemma_cards_size(self@);
        }
        while card_index_to_play.is_none()
            invariant
                self@.wf(),
                self@.pending is None,
                self@.current == seat,
                self@.cards() == old(self)@.cards(),
                old(self)@.searched(num_drawn_cards as nat, self@),
                0 <= num_drawn_cards,
                num_drawn_cards + self@.deck.len() + self@.discard.len() <= i32::MAX,
                match card_index_to_play {
                    Some(index) => first_playable(self@.hand(), self@.top(), index as int),
                    None => true,
                },
            decreases
                self@.deck.len() + self@.discard.len() + if card_index_to_play is None {
                    1int
                } else {
                    0int
                },
        {
            let last_played_card: Option<&Card> = self.discard.last();
            match find_playable(&self.players[seat].hand, last_played_card) {
                Some(card_index) => {
                    card_index_to_play = Some(card_index);
                },
                None => {
                    if !enough_cards(1, &self.deck, &self.discard) {
                        return Err(Fault::OutOfCards);
                    }
                    let ghost before = self@;
                    num_drawn_cards += 1;
                    draw_cards(&mut self.players[seat].hand, 1, &mut self.deck, &mut self.discard);
                    proof {
                        lemma_seat_drew_conserves(before, seat as int, 1, self@);
                    }
                },
            }
        }
        let card_index = card_index_to_play.unwrap();
        let ghost found = self@;
        let held_card = self.players[seat].hand.remove(card_index);
        let mut card_to_play = held_card;
        if card_to_play.wild {
            card_to_play.color = Some(most_held_color(&self.players[seat].hand));
        }
        let enough = match card_to_play.draw_effect {
            Some(DrawEffect::Draw(count)) => enough_cards(count, &self.deck, &self.discard),
            None => true,
        };
        if !enough {
            self.players[seat].hand.insert(card_index, held_card);
            proof {
                assert(self@.players[seat as int].hand =~= found.hand());
                assert(self@.players =~= found.players);
            }
            return Err(Fault::OutOfCards);
        }
        self.ui.last_turn_recap = Some(
            TurnRecap {
                player: self.current_player_index + 1,
                card: card_to_play,
                drawn_cards: num_drawn_cards,
            },
        );
        proof {
            let staged = found.staged(card_index as int, card_to_play, num_drawn_cards);
            assert(self@.players =~= staged.players);
            lemma_card_taken(found, staged, card_index as int);
        }
        self.play_card(card_to_play);
        Ok(())
    }

    /// Plays `card`: applies its effects, puts it on the discard pile and
    /// passes the turn on.
    ///
    /// The card is taken as given: whether it may be played is for the
    /// caller to decide.
    pub fn play_card(&mut self, card: Card)
        requires
            old(self)@.turn_in_range(),
            old(self)@.can_serve(card),
        ensures
            old(self)@.played(card, final(self)@),
            final(self)@.turn_in_range(),
            final(self)@.cards() == old(self)@.cards().insert(card.unassigned()),
    {
        if card.turn_effect == Some(TurnEffect::Reverse) {
            match self.turn_order {
                TurnOrder::Forward => self.turn_order = TurnOrder::Backward,
                TurnOrder::Backward => self.turn_order = TurnOrder::Forward,
            }
        }
        let next_player_index = {
            let mut next_player_index = get_next_player_index(
                self.current_player_index,
                self.players.len() as i32,
                self.turn_order,
            );

            if card.turn_effect == Some(TurnEffect::Skip) {
                next_player_index = get_next_player_index(
                    next_player_index,
                    self.players.len() as i32,
                    self.turn_order,
                );
            }
            next_player_index
        };

        if let Some(draw_effect) = card.draw_effect {
            play_card_draw_effect(
                &draw_effect,
                &mut self.players[next_player_index as usize],
                next_player_index,
                &mut self.deck,
                &mut self.discard,
            );
        }
        let ghost served = self.discard@;
        self.discard.push(card);

        // Set next player for next turn
        if !self.game_over() {
            self.current_player_index = next_player_index;
        }
        proof {
            assert(self@.discard.drop_last() == served);
            lemma_played_conserves(old(self)@, card, self@);
        }
    }

    /// Tells whether the game is well formed, as every function that
    /// changes it asks.
    pub fn is_well_formed(&self) -> (ok: bool)
        ensures
            ok == self@.wf(),
    {
        let limit: usize = 0x7fff_ffff;
        if self.players.len() > limit || self.current_player_index < 0
            || self.current_player_index as usize >= self.players.len() {
            return false;
        }
        proof {
            lemma_cards_size(self@);
        }
        if self.deck.len() > limit || self.discard.len() > limit - self.deck.len() {
            return false;
        }
        let mut total: usize = self.deck.len() + self.discard.len();
        let mut seat: usize = 0;
        while seat < self.players.len()
            invariant
                seat <= self.players.len(),
                total <= limit == 0x7fff_ffff,
                0 <= self@.current < self@.players.len() <= limit,
                self@.cards().len() == self@.deck.len() + self@.discard.len() + hands_size(
                    self@.players,
                ),
                total == self@.deck.len() + self@.discard.len() + hands_size(
                    self@.players.take(seat as int),
                ),
            decreases self.players.len() - seat,
        {
            proof {
                assert(self@.players.take(seat + 1).drop_last() == self@.players.take(
                    seat as int,
                ));
                lemma_hands_size_of_some(self@.players, seat + 1);
            }
            if self.players[seat].hand.len() > limit - total {
                return false;
            }
            total += self.players[seat].hand.len();
            seat += 1;
        }
        assert(self@.players.take(seat as int) == self@.players);
        let hand = &self.players[self.current_player_index as usize].hand;
        match self.wild_card_index_to_pick_color_for {
            Some(index) => {
                index >= 1 && index as usize <= hand.len() && hand[(index - 1) as usize].wild
            },
            None => true,
        }
    }

    /// Writes what the observer sees of the game, line by line.
    pub fn render(&self) -> (lines: Vec<String>)
        ensures
            crate::ui::texts(lines@) == self@.ui.lines(),
    {
        self.ui.render()
    }

    /// Tells whether the game has ended: whether some hand is empty.
    pub fn game_over(&self) -> (over: bool)
        ensures
            over == self@.is_over(),
    {
        let mut seat: usize = 0;
        while seat < self.players.len()
            invariant
                seat <= self.players.len(),
                forall|earlier: int| 0 <= earlier < seat ==> self@.players[earlier].hand.len() != 0,
            decreases self.players.len() - seat,
        {
            if self.players[seat].hand.len() == 0 {
                assert(self@.players[seat as int].hand.len() == 0);
                return true;
            }
            seat += 1;
        }
        false
    }
}

} // verus!
