//! Command processing: what the engine does with one command, the turns
//! that the computer-controlled seats play after it, and what the observer
//! is shown.

use vstd::prelude::*;
use crate::card::{Card, DrawEffect};
use crate::command::{command_from_input, command_of, Command};
use crate::draw::{draw_cards, enough_cards, enough_to_draw};
use crate::game::{
    lemma_card_taken, lemma_seat_drew_conserves, pick_refusal,
    validate_card_from_index, CardFromIndexValidationResult, Fault, GameView, PlayerView, Uno,
};
use crate::ui::{HandView, PlayerInstruction, TurnRecap, UIView};
use crate::user_input::Input;

verus! {

/// How many turns in a row the computer-controlled seats may play before
/// the engine gives up.
pub const COMPUTER_TURN_LIMIT: u32 = 100_000;

/// The two states of the engine: it takes any command, or it waits for the
/// color of the wild card that was picked at this place of the hand,
/// counted from 1.
#[derive(Copy, Clone, PartialEq, Eq, Debug, Structural)]
pub enum EngineState {
    Normal,
    AwaitingWildColor(i32),
}

/// What a player is told who does anything but pick a color while a wild
/// card waits for one.
pub open spec fn color_first_text() -> Seq<char> {
    "Pick a color for your wild card first."@
}

/// What a player is told who picks a color while no wild card waits for
/// one.
pub open spec fn no_wild_card_text() -> Seq<char> {
    "There is no wild card to pick a color for."@
}

/// Whether `seat` is the first of `players` with an empty hand.
pub open spec fn first_empty(players: Seq<PlayerView>, seat: int) -> bool {
    &&& 0 <= seat < players.len()
    &&& players[seat].hand.len() == 0
    &&& forall|earlier: int| 0 <= earlier < seat ==> (#[trigger] players[earlier]).hand.len() != 0
}

/// The seats of `players` that hold exactly one card, counted from 1, in
/// seat order.
pub open spec fn uno_seats(players: Seq<PlayerView>) -> Seq<i32>
    decreases players.len(),
{
    if players.len() == 0 {
        Seq::empty()
    } else if players.last().hand.len() == 1 {
        uno_seats(players.drop_last()).push(players.len() as i32)
    } else {
        uno_seats(players.drop_last())
    }
}

impl GameView {
    /// The state that the engine is in.
    pub open spec fn state(self) -> EngineState {
        match self.pending {
            Some(index) => EngineState::AwaitingWildColor(index),
            None => EngineState::Normal,
        }
    }

    /// Whether the computer has to play: the game goes on, and the turn is
    /// with a seat that the engine plays for.
    pub open spec fn computer_to_move(self) -> bool {
        !self.is_over() && self.players[self.current].ai
    }

    /// The game with `message` as what the last command was rejected for.
    pub open spec fn with_error(self, message: Option<Seq<char>>) -> GameView {
        GameView { ui: UIView { error: message, ..self.ui }, ..self }
    }

    /// Why `command` is rejected, if it is: while a wild card waits for its
    /// color only a color may be picked, and a color only then; a card that
    /// is picked must be in the hand and must be able to follow the top of
    /// the discard pile.
    pub open spec fn refusal(self, command: Command) -> Option<Seq<char>> {
        match (self.state(), command) {
            (EngineState::Normal, Command::PickCardToPlay(card_index)) => pick_refusal(
                card_index as int,
                self.hand(),
                self.top(),
            ),
            (EngineState::Normal, Command::DrawCard) => None,
            (EngineState::Normal, Command::PickWildCardColor(_)) => Some(no_wild_card_text()),
            (EngineState::AwaitingWildColor(_), Command::PickWildCardColor(_)) => None,
            (EngineState::AwaitingWildColor(_), _) => Some(color_first_text()),
        }
    }

    /// Whether `command`, which is not rejected, only picks a wild card,
    /// which then waits for its color.
    pub open spec fn picks_wild(self, command: Command) -> bool {
        match command {
            Command::PickCardToPlay(card_index) => self.hand()[card_index - 1].wild,
            _ => false,
        }
    }

    /// The place in the hand, counted from 0, of the card that `command`
    /// plays.
    pub open spec fn played_index(self, command: Command) -> int {
        match command {
            Command::PickCardToPlay(card_index) => card_index - 1,
            Command::PickWildCardColor(_) => self.pending->0 - 1,
            Command::DrawCard => 0,
        }
    }

    /// The card that `command` plays: the card picked, a wild card in the
    /// color picked.
    pub open spec fn played_card(self, command: Command) -> Card {
        let card = self.hand()[self.played_index(command)];
        match command {
            Command::PickWildCardColor(color) => Card { color: Some(color), ..card },
            _ => card,
        }
    }

    /// Whether the cards suffice for `command`, which is not rejected: for
    /// the card that is asked for, or for what the card that is played
    /// makes the next seat draw.
    pub open spec fn can_step(self, command: Command) -> bool {
        match command {
            Command::DrawCard => enough_to_draw(1, self.deck, self.discard),
            _ => self.picks_wild(command) || self.can_serve(self.played_card(command)),
        }
    }

    /// What `command`, which is not rejected, does to the game `self`,
    /// giving `after`, before the computer plays.
    ///
    /// The seat draws one card; or the wild card that it picked waits for
    /// its color; or the card leaves the hand, the recap names it, and it is
    /// played. In each case no rejection is on display any more.
    pub open spec fn stepped(self, command: Command, after: GameView) -> bool {
        match command {
            Command::DrawCard => self.with_error(None).seat_drew(self.current, 1, after),
            Command::PickCardToPlay(card_index) => if self.picks_wild(command) {
                after == (GameView {
                    pending: Some(card_index),
                    ui: UIView {
                        player_instruction: Some(PlayerInstruction::PickWildColor),
                        error: None,
                        ..self.ui
                    },
                    ..self
                })
            } else {
                self.with_error(None).staged(
                    self.played_index(command),
                    self.played_card(command),
                    0,
                ).played(self.played_card(command), after)
            },
            Command::PickWildCardColor(_) => {
                let picked = GameView {
                    pending: None,
                    ui: UIView { player_instruction: None, error: None, ..self.ui },
                    ..self
                };
                picked.staged(self.played_index(command), self.played_card(command), 0).played(
                    self.played_card(command),
                    after,
                )
            },
        }
    }

    /// What `turns` turns of the computer in a row do to the game `self`,
    /// giving `after`.
    pub open spec fn cascaded(self, turns: nat, after: GameView) -> bool
        decreases turns,
    {
        if turns == 0 {
            after == self
        } else {
            exists|mid: GameView|
                {
                    &&& self.cascaded((turns - 1) as nat, mid)
                    &&& mid.computer_to_move()
                    &&& #[trigger] mid.automated(after)
                }
        }
    }

    /// The game `after` is the game `self` with its winner on display: the
    /// first seat with an empty hand, counted from 1.
    pub open spec fn announced(self, after: GameView) -> bool {
        exists|seat: int|
            {
                &&& #[trigger] first_empty(self.players, seat)
                &&& after == (GameView {
                    ui: UIView { winning_player: Some((seat + 1) as i32), ..self.ui },
                    ..self
                })
            }
    }

    /// The game with the display brought up to date: the hand of the seat
    /// whose turn it is, the seats that hold one card, and, if the computer
    /// has played, the request to pick a card.
    pub open spec fn shown(self, automated: bool) -> GameView {
        GameView {
            ui: UIView {
                player_instruction: if automated {
                    Some(PlayerInstruction::PickCard)
                } else {
                    self.ui.player_instruction
                },
                displayed_hand: Some(
                    HandView { player: (self.current + 1) as i32, cards: self.hand() },
                ),
                uno_declarations: uno_seats(self.players),
                ..self.ui
            },
            ..self
        }
    }

    /// How the turns of the computer end in the game `self`, after `turns`
    /// of them, giving `after` and `result`.
    ///
    /// If the computer has nothing left to play, the display is brought up
    /// to date and the winner, if there is one, announced. If it has, the
    /// engine fails: a turn cannot be finished, or the computer has played
    /// `COMPUTER_TURN_LIMIT` turns.
    pub open spec fn settled(self, turns: nat, result: Result<(), Fault>, after: GameView) -> bool {
        match result {
            Ok(_) => {
                &&& !self.computer_to_move()
                &&& if self.is_over() {
                    self.shown(turns > 0).announced(after)
                } else {
                    after == self.shown(turns > 0)
                }
            },
            Err(Fault::OutOfCards) => self.computer_to_move() && self.stalled(after),
            Err(Fault::TurnLimit) => {
                &&& self.computer_to_move()
                &&& turns == COMPUTER_TURN_LIMIT
                &&& after == self
            },
        }
    }

    /// What follows a command that has taken effect in the game `self`,
    /// giving `after` and `result`.
    ///
    /// If the command ended the game, the winner is announced. Otherwise
    /// the computer plays for as long as the turn is with one of its seats
    /// and the game goes on, and its turns end as `settled` says.
    pub open spec fn concluded(self, result: Result<(), Fault>, after: GameView) -> bool {
        if self.is_over() {
            result is Ok && self.announced(after)
        } else {
            exists|turns: nat, last: GameView|
                #[trigger] self.cascaded(turns, last) && last.settled(turns, result, after)
        }
    }

    /// What the engine does with `command` in the game `self`, giving
    /// `after` and `result`.
    ///
    /// Once the game is over, it only announces the winner. A command that
    /// is rejected changes nothing but the message on display. A command
    /// for which the cards do not suffice fails and changes nothing. A wild
    /// card that is picked waits for its color. Any other command takes
    /// effect, and what follows is as `concluded` says.
    pub open spec fn answered(
        self,
        command: Command,
        result: Result<(), Fault>,
        after: GameView,
    ) -> bool {
        if self.is_over() {
            result is Ok && self.announced(after)
        } else if self.refusal(command) is Some {
            result is Ok && after == self.with_error(self.refusal(command))
        } else if !self.can_step(command) {
            result == Err::<(), Fault>(Fault::OutOfCards) && after == self
        } else if self.picks_wild(command) {
            result is Ok && self.stepped(command, after)
        } else {
            exists|mid: GameView|
                #[trigger] self.stepped(command, mid) && mid.concluded(result, after)
        }
    }
}

impl Uno {
    /// Puts the winner on display.
    fn announce_winner(&mut self)
        requires
            old(self)@.wf(),
            old(self)@.is_over(),
        ensures
            old(self)@.announced(final(self)@),
    {
        let mut seat: usize = 0;
        while seat < self.players.len()
            invariant
                self@ == old(self)@,
                self@.wf(),
                self@.is_over(),
                seat <= self.players.len(),
                forall|earlier: int|
                    0 <= earlier < seat ==> (#[trigger] self@.players[earlier]).hand.len() != 0,
            decreases self.players.len() - seat,
        {
            if self.players[seat].hand.len() == 0 {
                assert(first_empty(self@.players, seat as int));
                self.ui.winning_player = Some((seat + 1) as i32);
                return;
            }
            seat += 1;
        }
        // Some hand is empty, so the search has ended before this.
        assert(false);
    }

    /// Lists the seats that hold exactly one card, counted from 1.
    fn seats_with_uno(&self) -> (seats: Vec<i32>)
        requires
            self@.wf(),
        ensures
            seats@ == uno_seats(self@.players),
    {
        let mut seats: Vec<i32> = Vec::new();
        let mut index: usize = 0;
        while index < self.players.len()
            invariant
                self@.wf(),
                index <= self.players.len(),
                seats@ == uno_seats(self@.players.take(index as int)),
            decreases self.players.len() - index,
        {
            proof {
                assert(self@.players.take(index + 1).drop_last() == self@.players.take(
                    index as int,
                ));
            }
            if self.players[index].hand.len() == 1 {
                seats.push((index + 1) as i32);
            }
            index += 1;
        }
        assert(self@.players.take(index as int) == self@.players);
        seats
    }

    /// Takes one line from a player: reads the command that it stands for,
    /// carries it out, and lets the computer play the turns that follow.
    ///
    /// Text that stands for no command changes nothing.
    pub fn input(&mut self, input: Input) -> (result: Result<(), Fault>)
        requires
            old(self)@.wf(),
        ensures
            final(self)@.wf(),
            final(self)@.cards() == old(self)@.cards(),
            match command_of(input@, old(self)@.pending is Some) {
                Some(command) => old(self)@.answered(command, result, final(self)@),
                None => result is Ok && final(self)@ == old(self)@,
            },
    {
        // Create a valid game command from raw user input.
        let command = command_from_input(
            &input,
            self.wild_card_index_to_pick_color_for.is_some(),
        );
        match command {
            Some(command) => self.execute(command),
            None => Ok(()),
        }
    }

    /// Carries out `command` and lets the computer play the turns that
    /// follow.
    pub fn execute(&mut self, command: Command) -> (result: Result<(), Fault>)
        requires
            old(self)@.wf(),
        ensures
            final(self)@.wf(),
            final(self)@.cards() == old(self)@.cards(),
            old(self)@.answered(command, result, final(self)@),
    {
        if self.game_over() {
            self.announce_winner();
            return Ok(());
        }
        let seat = self.current_player_index as usize;
        match (self.state(), command) {
            (
                EngineState::AwaitingWildColor(wild_index),
                Command::PickWildCardColor(wild_color),
            ) => {
                let index = (wild_index - 1) as usize;
                if !self.can_serve_card(&self.players[seat].hand[index]) {
                    return Err(Fault::OutOfCards);
                }
                let mut wild_card = self.players[seat].hand.remove(index);
                wild_card.color = Some(wild_color);
                self.ui.player_instruction = None;
                self.wild_card_index_to_pick_color_for = None;
                self.ui.error = None;
                proof {
                    let picked = GameView {
                        pending: None,
                        ui: UIView { player_instruction: None, error: None, ..old(self)@.ui },
                        ..old(self)@
                    };
                    assert(self@.players =~= picked.staged(index as int, wild_card, 0).players);
                    lemma_card_taken(old(self)@, self@, index as int);
                }
                self.stage_and_play(wild_card);
            },
            (EngineState::AwaitingWildColor(_), _) => {
                self.ui.error = Some("Pick a color for your wild card first.".to_string());
                return Ok(());
            },
            (EngineState::Normal, Command::PickWildCardColor(_)) => {
                self.ui.error = Some("There is no wild card to pick a color for.".to_string());
                return Ok(());
            },
            (EngineState::Normal, Command::DrawCard) => {
                if !enough_cards(1, &self.deck, &self.discard) {
                    return Err(Fault::OutOfCards);
                }
                self.ui.error = None;
                draw_cards(&mut self.players[seat].hand, 1, &mut self.deck, &mut self.discard);
                proof {
                    lemma_seat_drew_conserves(old(self)@.with_error(None), seat as int, 1, self@);
                }
            },
            (EngineState::Normal, Command::PickCardToPlay(card_index)) => {
                match validate_card_from_index(
                    card_index,
                    &self.players[seat].hand,
                    self.discard.last(),
                ) {
                    CardFromIndexValidationResult::Invalid(reason) => {
                        self.ui.error = Some(reason);
                        return Ok(());
                    },
                    CardFromIndexValidationResult::Valid => {
                        let index = (card_index - 1) as usize;
                        let card_to_play = self.players[seat].hand[index];
                        // A wild card that is picked next needs its color:
                        // it waits for the command that picks one.
                        if card_to_play.wild {
                            self.ui.player_instruction = Some(PlayerInstruction::PickWildColor);
                            self.wild_card_index_to_pick_color_for = Some(card_index);
                            self.ui.error = None;
                            return Ok(());
                        }
                        if !self.can_serve_card(&card_to_play) {
                            return Err(Fault::OutOfCards);
                        }
                        self.players[seat].hand.remove(index);
                        self.ui.error = None;
                        proof {
                            assert(self@.players =~= old(self)@.with_error(None).staged(
                                index as int,
                                card_to_play,
                                0,
                            ).players);
                            lemma_card_taken(old(self)@, self@, index as int);
                        }
                        self.stage_and_play(card_to_play);
                    },
                }
            },
        }
        let ghost mid = self@;
        assert(old(self)@.stepped(command, mid));
        self.conclude()
    }

    /// Tells which state the engine is in.
    pub fn state(&self) -> (state: EngineState)
        ensures
            state == self@.state(),
    {
        match self.wild_card_index_to_pick_color_for {
            Some(index) => EngineState::AwaitingWildColor(index),
            None => EngineState::Normal,
        }
    }

    /// Tells whether `card` can be played: whether the seat that would draw
    /// for it can be served.
    pub fn can_serve_card(&self, card: &Card) -> (enough: bool)
        ensures
            enough == self@.can_serve(*card),
    {
        match card.draw_effect {
            Some(DrawEffect::Draw(count)) => enough_cards(count, &self.deck, &self.discard),
            None => true,
        }
    }

    /// Names `card`, which has just left the hand of the seat whose turn it
    /// is, in the recap, and plays it.
    fn stage_and_play(&mut self, card: Card)
        requires
            old(self)@.turn_in_range(),
            old(self)@.can_serve(card),
        ensures
            final(self)@.turn_in_range(),
            final(self)@.cards() == old(self)@.cards().insert(card.unassigned()),
            (GameView {
                ui: UIView {
                    last_turn_recap: Some(
                        TurnRecap {
                            player: (old(self)@.current + 1) as i32,
                            card,
                            drawn_cards: 0,
                        },
                    ),
                    ..old(self)@.ui
                },
                ..old(self)@
            }).played(card, final(self)@),
    {
        self.ui.last_turn_recap = Some(
            TurnRecap { player: self.current_player_index + 1, card, drawn_cards: 0 },
        );
        self.play_card(card);
    }

    /// Lets the computer play while it has to, then brings the display up
    /// to date.
    fn conclude(&mut self) -> (result: Result<(), Fault>)
        requires
            old(self)@.wf(),
            old(self)@.pending is None,
        ensures
            final(self)@.wf(),
            final(self)@.cards() == old(self)@.cards(),
            old(self)@.concluded(result, final(self)@),
    {
        if self.game_over() {
            self.announce_winner();
            return Ok(());
        }
        // Let AI players go
        let mut turns: u32 = 0;
        while !self.game_over() && self.players[self.current_player_index as usize].ai
            invariant
                self@.wf(),
                self@.pending is None,
                self@.cards() == old(self)@.cards(),
                old(self)@.cascaded(turns as nat, self@),
                !old(self)@.is_over(),
                turns <= COMPUTER_TURN_LIMIT,
            decreases COMPUTER_TURN_LIMIT - turns,
        {
            if turns >= COMPUTER_TURN_LIMIT {
                return Err(Fault::TurnLimit);
            }
            match self.automate_current_player_turn() {
                Err(fault) => {
                    return Err(fault);
                },
                Ok(_) => {},
            }
            turns += 1;
        }
        if turns > 0 {
            self.ui.player_instruction = Some(PlayerInstruction::PickCard);
        }
        let seat = self.current_player_index as usize;
        self.ui.display_hand(self.current_player_index + 1, &self.players[seat].hand);
        self.ui.uno_declarations = self.seats_with_uno();

        if self.game_over() {
            self.announce_winner();
        }
        Ok(())
    }
}

} // verus!
