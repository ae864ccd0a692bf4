//! Setting up a game: a shuffled standard deck, and seven cards for each
//! seat.

use vstd::prelude::*;
use crate::card::Card;
use crate::deck::{create_deck, is_standard};
use crate::draw::{blanks, draw_cards, lemma_drew_conserves, shuffle};
use crate::game::{hands_blanks, seats, GameView, Player, PlayerView, TurnOrder, Uno};
use crate::ui::{HandView, PlayerInstruction, UIView, UI};

verus! {

/// Whether seat `seat` is played by the computer in a game set up for
/// `player_count` human and `ai_count` computer-controlled seats: the two
/// kinds alternate, a human first, for as long as both last, and the seats
/// that are left of one kind follow.
pub open spec fn computer_seat(seat: int, player_count: int, ai_count: int) -> bool {
    if seat < 2 * player_count && seat < 2 * ai_count {
        seat % 2 == 1
    } else {
        ai_count > player_count
    }
}

/// Whether every seat of `players` holds `size` cards.
pub open spec fn all_hold(players: Seq<PlayerView>, size: nat) -> bool {
    forall|seat: int| 0 <= seat < players.len() ==> (#[trigger] players[seat]).hand.len() == size
}

/// Whether `game` is a game as it is set up for `player_count` human and
/// `ai_count` computer-controlled seats.
///
/// The cards of a standard deck are in the game: seven in each hand, the
/// others in the deck, none on the discard pile. The seats are human or
/// computer-controlled as `computer_seat` says. The first seat has the
/// turn, play goes forward, no wild card waits for a color, and the
/// observer sees the first seat's hand and the request to pick a card.
pub open spec fn set_up(game: GameView, player_count: int, ai_count: int) -> bool {
    &&& game.wf()
    &&& is_standard(game.cards())
    &&& game.players.len() == player_count + ai_count
    &&& all_hold(game.players, 7)
    &&& forall|seat: int|
        0 <= seat < game.players.len() ==> (#[trigger] game.players[seat]).ai == computer_seat(
            seat,
            player_count,
            ai_count,
        )
    &&& game.deck.len() == 108 - 7 * (player_count + ai_count)
    &&& game.discard.len() == 0
    &&& game.current == 0
    &&& game.order == TurnOrder::Forward
    &&& game.pending is None
    &&& game.ui == (UIView {
        displayed_hand: Some(HandView { player: 1, cards: game.players[0].hand }),
        player_instruction: Some(PlayerInstruction::PickCard),
        ..UIView::empty()
    })
}

proof fn lemma_standard_blanks(pile: Seq<Card>)
    requires
        is_standard(pile.to_multiset()),
    ensures
        blanks(pile) == pile.to_multiset(),
{
    pile.to_multiset_ensures();
    assert forall|i: int| 0 <= i < pile.len() implies (#[trigger] pile[i]).unassigned()
        == pile[i] by {
        assert(pile.to_multiset().count(pile[i]) > 0);
    }
    assert(pile.map_values(|card: Card| card.unassigned()) == pile);
}

proof fn lemma_seated(players: Seq<Player>, player: Player)
    ensures
        seats(players.push(player)) == seats(players).push(player@),
        hands_blanks(seats(players.push(player))) == hands_blanks(seats(players)).add(
            blanks(player.hand@),
        ),
{
    assert(seats(players).push(player@).drop_last() == seats(players));
}

proof fn lemma_unseated(players: Seq<Player>)
    requires
        players.len() > 0,
    ensures
        seats(players.drop_last()) == seats(players).drop_last(),
        hands_blanks(seats(players)) == hands_blanks(seats(players.drop_last())).add(
            blanks(players.last().hand@),
        ),
{
    assert(seats(players.drop_last()) == seats(players).drop_last());
}

/// Deals seven cards from `deck` to each of `count` new seats.
fn deal_seats(count: i32, ai: bool, deck: &mut Vec<Card>) -> (dealt: Vec<Player>)
    requires
        0 <= count,
        old(deck)@.len() >= 7 * count + 1,
    ensures
        dealt@.len() == count,
        final(deck)@.len() == old(deck)@.len() - 7 * count,
        all_hold(seats(dealt@), 7),
        forall|seat: int| 0 <= seat < count ==> (#[trigger] dealt@[seat]).ai == ai,
        blanks(final(deck)@).add(hands_blanks(seats(dealt@))) == blanks(old(deck)@),
{
    let mut players: Vec<Player> = Vec::new();
    let mut discard: Vec<Card> = Vec::new();
    let mut seat: i32 = 0;
    while seat < count
        invariant
            0 <= seat <= count,
            players@.len() == seat,
            discard@.len() == 0,
            old(deck)@.len() >= 7 * count + 1,
            deck@.len() == old(deck)@.len() - 7 * seat,
            all_hold(seats(players@), 7),
            forall|earlier: int| 0 <= earlier < seat ==> (#[trigger] players@[earlier]).ai == ai,
            blanks(deck@).add(hands_blanks(seats(players@))) == blanks(old(deck)@),
        decreases count - seat,
    {
        let mut player = Player::default();
        player.ai = ai;
        let ghost deck_before = deck@;
        let ghost hand_before = player.hand@;
        let ghost discard_before = discard@;
        draw_cards(&mut player.hand, 7, deck, &mut discard);
        proof {
            lemma_drew_conserves(
                7,
                hand_before,
                deck_before,
                discard_before,
                player.hand@,
                deck@,
                discard@,
            );
            crate::draw::lemma_blanks_empty();
            lemma_seated(players@, player);
            let after = blanks(player.hand@).add(blanks(deck@)).add(blanks(discard@));
            let before = blanks(hand_before).add(blanks(deck_before)).add(
                blanks(discard_before),
            );
            assert forall|card: Card|
                blanks(deck@).add(blanks(player.hand@)).count(card) == blanks(
                    deck_before,
                ).count(card) by {
                assert(after.count(card) == before.count(card));
            }
        }
        players.push(player);
        seat += 1;
    }
    players
}

impl Uno {
    /// Sets up a game for `player_count` human and `ai_count`
    /// computer-controlled seats: shuffles a standard deck and deals seven
    /// cards to each seat. Human and computer-controlled seats alternate,
    /// and a human has the first turn.
    pub fn new(player_count: i32, ai_count: i32) -> (game: Uno)
        requires
            1 <= player_count,
            0 <= ai_count,
            player_count + ai_count <= 15,
        ensures
            set_up(game@, player_count as int, ai_count as int),
    {
        let mut deck = create_deck();
        let mut rng = rand::thread_rng();
        shuffle(&mut deck, &mut rng);
        let ghost shuffled = deck@;
        proof {
            shuffled.to_multiset_ensures();
            lemma_standard_blanks(shuffled);
            crate::deck::lemma_standard_size(shuffled.to_multiset());
        }
        let mut human_players = deal_seats(player_count, false, &mut deck);
        let mut ai_players = deal_seats(ai_count, true, &mut deck);

        // Alternate order of players and ai so players play against ai.
        let mut players: Vec<Player> = Vec::new();
        let mut round: i32 = 0;
        while round < player_count + ai_count
            invariant
                1 <= player_count,
                0 <= ai_count,
                player_count + ai_count <= 15,
                0 <= round <= player_count + ai_count,
                human_players@.len() == if round < player_count {
                    player_count - round
                } else {
                    0
                },
                ai_players@.len() == if round < ai_count {
                    ai_count - round
                } else {
                    0
                },
                players@.len() + human_players@.len() + ai_players@.len() == player_count
                    + ai_count,
                all_hold(seats(human_players@), 7),
                all_hold(seats(ai_players@), 7),
                all_hold(seats(players@), 7),
                forall|seat: int|
                    0 <= seat < human_players@.len() ==> !(#[trigger] human_players@[seat]).ai,
                forall|seat: int|
                    0 <= seat < ai_players@.len() ==> (#[trigger] ai_players@[seat]).ai,
                forall|seat: int|
                    0 <= seat < players@.len() ==> (#[trigger] seats(players@)[seat]).ai
                        == computer_seat(seat, player_count as int, ai_count as int),
                blanks(deck@).add(hands_blanks(seats(human_players@))).add(
                    hands_blanks(seats(ai_players@)),
                ).add(hands_blanks(seats(players@))) == blanks(shuffled),
            decreases player_count + ai_count - round,
        {
            let ghost humans_before = human_players@;
            let ghost ais_before = ai_players@;
            let human: Option<Player> = human_players.pop();
            let ai: Option<Player> = ai_players.pop();
            if let Some(human) = human {
                proof {
                    lemma_unseated(humans_before);
                    lemma_seated(players@, human);
                }
                players.push(human);
            }
            if let Some(ai) = ai {
                proof {
                    lemma_unseated(ais_before);
                    lemma_seated(players@, ai);
                }
                players.push(ai);
            }
            round += 1;
        }
        let mut ui = UI::default();
        ui.display_hand(1, &players[0].hand);
        ui.player_instruction = Some(PlayerInstruction::PickCard);
        let game = Uno {
            players,
            current_player_index: 0,
            deck,
            discard: Vec::new(),
            wild_card_index_to_pick_color_for: None,
            turn_order: TurnOrder::Forward,
            ui,
        };
        proof {
            crate::draw::lemma_blanks_empty();
            assert(game@.cards() =~= blanks(shuffled));
        }
        game
    }
}

impl Default for Uno {
    /// A game of one human against one computer-controlled seat.
    fn default() -> (game: Uno)
        ensures
            set_up(game@, 1, 1),
    {
        Uno::new(1, 1)
    }
}

} // verus!
