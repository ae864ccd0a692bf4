use uno::card::{Card, Color};
use uno::command::Command;
use uno::deck::create_deck;
use uno::game::{
    get_next_player_index, validate_card_from_index, CardFromIndexValidationResult, Fault, Player,
    TurnOrder, Uno,
};
use uno::policy::{count_color, find_playable, most_held_color};
use uno::ui::{PlayerInstruction, UI};
use uno::user_input::Input;

fn total_cards(uno: &Uno) -> usize {
    let held: usize = uno.players.iter().map(|player| player.hand.len()).sum();
    uno.deck.len() + uno.discard.len() + held
}

fn sorted_blank_texts(uno: &Uno) -> Vec<String> {
    let mut cards: Vec<Card> = Vec::new();
    cards.extend(uno.deck.iter().cloned());
    cards.extend(uno.discard.iter().cloned());
    for player in &uno.players {
        cards.extend(player.hand.iter().cloned());
    }
    let mut texts: Vec<String> = cards
        .iter()
        .map(|card| {
            let mut blank = *card;
            if blank.wild {
                blank.color = None;
            }
            blank.render()
        })
        .collect();
    texts.sort();
    texts
}

fn table(hands: Vec<(Vec<&str>, bool)>, deck: Vec<&str>, discard: Vec<&str>) -> Uno {
    Uno {
        players: hands
            .into_iter()
            .map(|(hand, ai)| Player {
                hand: hand.into_iter().map(|text| Card::from(text)).collect(),
                ai,
            })
            .collect(),
        current_player_index: 0,
        deck: deck.into_iter().map(|text| Card::from(text)).collect(),
        discard: discard.into_iter().map(|text| Card::from(text)).collect(),
        wild_card_index_to_pick_color_for: None,
        turn_order: TurnOrder::Forward,
        ui: UI::default(),
    }
}

#[test]
fn players_have_7_cards_each() {
    let uno = Uno::new(2, 2);
    assert_eq!(uno.players[0].hand.len(), 7);
    assert_eq!(uno.players[1].hand.len(), 7);
    assert_eq!(uno.players[2].hand.len(), 7);
    assert_eq!(uno.players[3].hand.len(), 7);
}

#[test]
fn players_alternate_between_human_and_ai() {
    let uno = Uno::new(2, 2);
    assert_eq!(uno.players[0].ai, false);
    assert_eq!(uno.players[1].ai, true);
    assert_eq!(uno.players[2].ai, false);
    assert_eq!(uno.players[3].ai, true);
}

#[test]
fn going_forwards() {
    let result = get_next_player_index(0, 2, TurnOrder::Forward);
    assert_eq!(result, 1);
}

#[test]
fn going_backwards() {
    let result = get_next_player_index(0, 3, TurnOrder::Backward);
    assert_eq!(result, 2)
}

#[test]
fn after_player_1_plays_a_skip_player_3_is_next() {
    let mut uno = Uno::new(4, 0);
    let card = Card::from("skip");

    uno.play_card(card);

    assert_eq!(uno.current_player_index, 2);
}

#[test]
fn after_player_1_plays_a_reverse_player_4_is_next() {
    let mut uno = Uno::new(4, 0);
    let card = Card::from("reverse");

    uno.play_card(card);

    assert_eq!(uno.current_player_index, 3);
}

#[test]
fn player_plays_valid_card_in_hand() {
    let mut uno = Uno::new(2, 0);
    let last_played_card = Card::from("green 5");
    uno.discard.push(last_played_card);
    let bad_card_1 = Card::from("red 1");
    let bad_card_2 = Card::from("yellow 2");
    let valid_card = Card::from("green 3");
    uno.players[0].hand = vec![bad_card_1, valid_card, bad_card_2];

    assert_eq!(uno.automate_current_player_turn(), Ok(()));

    assert_eq!(uno.players[0].hand.len(), 2);
    let played_card = uno.discard.last().unwrap();
    assert_eq!(played_card.color, Some(Color::Green));
    assert_eq!(played_card.number, Some(3));
}

#[test]
fn player_plays_wild_card_in_hand() {
    let mut uno = Uno::new(2, 0);
    let wild_card = Card::from("wild");
    uno.players[0].hand = vec![wild_card];

    assert_eq!(uno.automate_current_player_turn(), Ok(()));

    let played_card = uno.discard.last().unwrap();
    assert!(played_card.wild);
    assert!(played_card.color.is_some());
}

#[test]
fn player_draws_when_no_valid_cards_in_hand_and_plays_next_valid_card() {
    let mut uno = Uno::new(2, 0);
    let last_played_card = Card::from("green 5");
    uno.discard.push(last_played_card);
    let bad_hand_card_1 = Card::from("red 1");
    let bad_hand_card_2 = Card::from("yellow 2");
    uno.players[0].hand = vec![bad_hand_card_1, bad_hand_card_2];
    let bad_deck_card = Card::from("red 3");
    let valid_deck_card = Card::from("green 4");
    uno.deck = vec![valid_deck_card, bad_deck_card];

    assert_eq!(uno.automate_current_player_turn(), Ok(()));

    assert_eq!(uno.players[0].hand.len(), 3);
    assert_eq!(uno.deck.len(), 0);
    let played_card = uno.discard.last().unwrap();
    assert_eq!(played_card.color, Some(Color::Green));
    assert_eq!(played_card.number, Some(4));
}

#[test]
fn next_ai_player_goes_after_human_provides_input() {
    let mut uno = Uno::new(1, 1);
    // Add some cards to the discard pile and player's hands so we can get the human player
    // and then the ai to immediately make valid moves without worrying about whether
    // they've got valid cards in their hands.
    let last_played_card = Card::from("red 1");
    uno.discard.push(last_played_card);
    let valid_next_card = Card::from("red 2");
    let human_player_num_cards_before = {
        let human_player = uno.players.iter_mut().find(|player| !player.ai).unwrap();
        human_player.hand.insert(0, valid_next_card);
        human_player.hand.len()
    };
    let ai_player_num_cards_before = {
        let ai_player = uno.players.iter_mut().find(|player| player.ai).unwrap();
        ai_player.hand.insert(0, valid_next_card);
        ai_player.hand.len()
    };

    assert_eq!(uno.input(Input::Number(1)), Ok(()));

    let human_player_num_cards_after = {
        let human_player = uno.players.iter_mut().find(|player| !player.ai).unwrap();
        human_player.hand.len()
    };
    let ai_player_num_cards_after = {
        let ai_player = uno.players.iter_mut().find(|player| player.ai).unwrap();
        ai_player.hand.len()
    };

    assert_eq!(human_player_num_cards_before - 1, human_player_num_cards_after);
    assert_eq!(ai_player_num_cards_before - 1, ai_player_num_cards_after);
}

// Whether the computer, when it has to answer a red 2 with the cards it was
// dealt, plays a plain numbered card: one that hands the human no cards and
// passes the turn on.
fn computer_answers_red_2_with_a_plain_card(uno: &Uno) -> bool {
    let computer = uno.players.iter().find(|player| player.ai).unwrap();
    match find_playable(&computer.hand, Some(&Card::from("red 2"))) {
        Some(index) => {
            let card = computer.hand[index];
            !card.wild && card.turn_effect.is_none() && card.draw_effect.is_none()
        }
        None => false,
    }
}

#[test]
fn human_goes_after_ai_player_goes() {
    let mut uno = Uno::new(1, 1);
    // The cards are dealt at random. A deal with which the computer's second
    // card would make the human draw is dealt again.
    while !computer_answers_red_2_with_a_plain_card(&uno) {
        uno = Uno::new(1, 1);
    }
    // Add some cards to the discard pile and player's hands so we can get the human player
    // and then the ai to immediately make valid moves without worrying about whether
    // they've got valid cards in their hands.
    let last_played_card = Card::from("red 1");
    uno.discard.push(last_played_card);
    let valid_next_card = Card::from("red 2");
    {
        let human_player = uno.players.iter_mut().find(|player| !player.ai).unwrap();
        human_player.hand.insert(0, valid_next_card);
    };
    {
        let ai_player = uno.players.iter_mut().find(|player| player.ai).unwrap();
        ai_player.hand.insert(0, valid_next_card);
    };

    // It's technically necessary for a human to go first to start the game, so providing this input gets the human player to go.
    assert_eq!(uno.input(Input::Number(1)), Ok(()));

    let human_player_num_cards_before = {
        let human_player = uno.players.iter_mut().find(|player| !player.ai).unwrap();
        human_player.hand.insert(0, valid_next_card);
        human_player.hand.len()
    };

    // This input is for the human player's second turn.
    assert_eq!(uno.input(Input::Number(1)), Ok(()));

    let human_player_num_cards_after = {
        let human_player = uno.players.iter_mut().find(|player| !player.ai).unwrap();
        human_player.hand.len()
    };

    assert_eq!(human_player_num_cards_before - 1, human_player_num_cards_after);
}

#[test]
fn new_game_holds_the_standard_deck() {
    let uno = Uno::new(3, 2);
    assert_eq!(total_cards(&uno), 108);
    assert_eq!(uno.deck.len(), 108 - 35);
    assert!(uno.discard.is_empty());
    assert_eq!(uno.current_player_index, 0);
    assert_eq!(uno.turn_order, TurnOrder::Forward);
    assert_eq!(uno.wild_card_index_to_pick_color_for, None);
    let mut standard: Vec<String> = create_deck().iter().map(|card| card.render()).collect();
    standard.sort();
    assert_eq!(sorted_blank_texts(&uno), standard);
}

#[test]
fn new_game_shows_the_first_hand() {
    let uno = Uno::new(1, 1);
    let shown = uno.ui.displayed_hand.as_ref().unwrap();
    assert_eq!(shown.player, 1);
    assert_eq!(shown.cards, uno.players[0].hand);
    assert_eq!(uno.ui.player_instruction, Some(PlayerInstruction::PickCard));
    assert!(uno.ui.uno_declarations.is_empty());
    assert!(uno.ui.error.is_none());
    assert!(uno.ui.winning_player.is_none());
    assert!(uno.ui.last_turn_recap.is_none());
    assert!(!uno.game_over());
}

#[test]
fn seats_left_of_one_kind_follow_the_alternating_ones() {
    let more_humans = Uno::new(3, 1);
    let kinds: Vec<bool> = more_humans.players.iter().map(|player| player.ai).collect();
    assert_eq!(kinds, vec![false, true, false, false]);
    let more_computers = Uno::new(1, 3);
    let kinds: Vec<bool> = more_computers.players.iter().map(|player| player.ai).collect();
    assert_eq!(kinds, vec![false, true, true, true]);
    let full = Uno::new(15, 0);
    assert_eq!(full.players.len(), 15);
    assert_eq!(full.deck.len(), 3);
    assert!(full.players.iter().all(|player| player.hand.len() == 7 && !player.ai));
}

#[test]
fn default_game_is_one_human_against_one_computer() {
    let uno = Uno::default();
    assert_eq!(uno.players.len(), 2);
    assert!(!uno.players[0].ai);
    assert!(uno.players[1].ai);
    assert_eq!(total_cards(&uno), 108);
}

// Unshuffled, the seven cards dealt first would be the seven last cards of
// the deck as it is built: the wild cards.
#[test]
fn new_game_is_shuffled() {
    let built = create_deck();
    let mut as_built = 0;
    for _ in 0..4 {
        let uno = Uno::new(1, 0);
        if uno.deck[..] == built[..101] {
            as_built += 1;
        }
    }
    assert!(as_built < 4);
}

#[test]
fn steps_wrap_around_both_ends() {
    assert_eq!(get_next_player_index(2, 3, TurnOrder::Forward), 0);
    assert_eq!(get_next_player_index(1, 3, TurnOrder::Forward), 2);
    assert_eq!(get_next_player_index(2, 3, TurnOrder::Backward), 1);
    assert_eq!(get_next_player_index(0, 1, TurnOrder::Forward), 0);
    assert_eq!(get_next_player_index(0, 1, TurnOrder::Backward), 0);
    assert_eq!(get_next_player_index(i32::MAX - 1, i32::MAX, TurnOrder::Forward), 0);
}

#[test]
fn skip_with_three_players_passes_over_seat_1() {
    let mut uno = table(
        vec![(vec!["red 1", "red 2"], false), (vec!["red 3"], false), (vec!["red 4"], false)],
        vec!["blue 1"],
        vec!["red 9"],
    );
    uno.play_card(Card::from("red skip"));
    assert_eq!(uno.current_player_index, 2);
    assert_eq!(uno.turn_order, TurnOrder::Forward);
    assert_eq!(uno.discard.last(), Some(&Card::from("red skip")));
}

#[test]
fn reverse_with_three_players_goes_back_to_seat_2() {
    let mut uno = table(
        vec![(vec!["red 1", "red 2"], false), (vec!["red 3"], false), (vec!["red 4"], false)],
        vec!["blue 1"],
        vec!["red 9"],
    );
    uno.play_card(Card::from("red reverse"));
    assert_eq!(uno.current_player_index, 2);
    assert_eq!(uno.turn_order, TurnOrder::Backward);
    uno.play_card(Card::from("blue reverse"));
    assert_eq!(uno.current_player_index, 0);
    assert_eq!(uno.turn_order, TurnOrder::Forward);
}

#[test]
fn skip_steps_twice_in_the_direction_of_play() {
    let mut uno = table(
        vec![
            (vec!["red 1"], false),
            (vec!["red 2"], false),
            (vec!["red 3"], false),
            (vec!["red 4"], false),
        ],
        vec![],
        vec!["red 9"],
    );
    uno.turn_order = TurnOrder::Backward;
    uno.play_card(Card::from("red skip"));
    assert_eq!(uno.current_player_index, 2);
    assert_eq!(uno.turn_order, TurnOrder::Backward);
    uno.play_card(Card::from("red reverse"));
    assert_eq!(uno.current_player_index, 3);
    assert_eq!(uno.turn_order, TurnOrder::Forward);
    uno.play_card(Card::from("blue skip"));
    assert_eq!(uno.current_player_index, 1);
}

#[test]
fn draw_effect_is_served_to_the_seat_after_the_skip() {
    let mut uno = table(
        vec![(vec!["red 1"], false), (vec!["red 2"], false), (vec!["red 3"], false)],
        vec!["blue 1", "blue 2", "blue 3"],
        vec!["red 9"],
    );
    let mut card = Card::from("red skip draw2");
    card.color = Some(Color::Red);
    uno.play_card(card);
    assert_eq!(uno.players[1].hand.len(), 1);
    assert_eq!(
        uno.players[2].hand,
        vec![Card::from("red 3"), Card::from("blue 3"), Card::from("blue 2")]
    );
    assert_eq!(uno.deck, vec![Card::from("blue 1")]);
    assert_eq!(uno.current_player_index, 2);
    assert_eq!(uno.discard, vec![Card::from("red 9"), card]);
}

#[test]
fn the_turn_stays_where_it_is_once_a_hand_is_empty() {
    let mut uno = table(
        vec![(vec![], false), (vec!["red 2"], false), (vec!["red 3"], false)],
        vec!["blue 1"],
        vec!["red 9"],
    );
    assert!(uno.game_over());
    uno.play_card(Card::from("red 5"));
    assert_eq!(uno.current_player_index, 0);
    assert_eq!(uno.discard.last(), Some(&Card::from("red 5")));
}

#[test]
fn game_over_needs_an_empty_hand() {
    let mut uno = table(vec![(vec!["red 1"], false), (vec!["red 2"], true)], vec![], vec![]);
    assert!(!uno.game_over());
    uno.players[1].hand.clear();
    assert!(uno.game_over());
}

#[test]
fn validation_names_the_reason() {
    let hand = vec![Card::from("red 1"), Card::from("blue 2")];
    let top = Card::from("red 9");
    for index in [0, 3, -1, i32::MIN, i32::MAX] {
        match validate_card_from_index(index, &hand, Some(&top)) {
            CardFromIndexValidationResult::Invalid(reason) => {
                assert_eq!(reason, "You do not have that card, please pick another.")
            }
            CardFromIndexValidationResult::Valid => panic!("no such card"),
        }
    }
    match validate_card_from_index(2, &hand, Some(&top)) {
        CardFromIndexValidationResult::Invalid(reason) => {
            assert_eq!(reason, "Can't play that card :( , pick another.")
        }
        CardFromIndexValidationResult::Valid => panic!("blue 2 cannot follow red 9"),
    }
    assert!(matches!(
        validate_card_from_index(1, &hand, Some(&top)),
        CardFromIndexValidationResult::Valid
    ));
    assert!(matches!(
        validate_card_from_index(2, &hand, None),
        CardFromIndexValidationResult::Valid
    ));
}

#[test]
fn policy_finds_the_first_playable_card() {
    let hand = vec![Card::from("red 1"), Card::from("green 3"), Card::from("green 4")];
    let top = Card::from("green 5");
    assert_eq!(find_playable(&hand, Some(&top)), Some(1));
    assert_eq!(find_playable(&hand, None), Some(0));
    assert_eq!(find_playable(&hand, Some(&Card::from("blue 9"))), None);
    assert_eq!(find_playable(&Vec::new(), None), None);
}

#[test]
fn policy_picks_the_color_held_most() {
    let hand = vec![
        Card::from("green 1"),
        Card::from("blue 3"),
        Card::from("green 4"),
        Card::from("wild"),
        Card::from("red 4"),
    ];
    assert_eq!(count_color(&hand, Color::Green), 2);
    assert_eq!(count_color(&hand, Color::Yellow), 0);
    assert_eq!(most_held_color(&hand), Color::Green);
}

#[test]
fn policy_breaks_ties_red_blue_yellow_green() {
    assert_eq!(most_held_color(&Vec::new()), Color::Red);
    let hand = vec![Card::from("green 1"), Card::from("yellow 3"), Card::from("blue 4")];
    assert_eq!(most_held_color(&hand), Color::Blue);
    let hand = vec![Card::from("green 1"), Card::from("yellow 3")];
    assert_eq!(most_held_color(&hand), Color::Yellow);
    let hand = vec![Card::from("green 1"), Card::from("red 3")];
    assert_eq!(most_held_color(&hand), Color::Red);
}

#[test]
fn computer_gives_its_wild_card_the_color_it_holds_most() {
    let mut uno = table(
        vec![(vec!["yellow 1", "wild draw4", "blue 2", "yellow 3"], true), (vec!["red 2"], false)],
        vec!["red 5", "red 6", "red 7", "red 8", "green 1"],
        vec!["green 9"],
    );
    assert_eq!(uno.automate_current_player_turn(), Ok(()));
    assert_eq!(uno.discard.last(), Some(&Card::from("wild yellow draw4")));
    assert_eq!(uno.players[0].hand.len(), 3);
    assert_eq!(uno.players[1].hand.len(), 5);
    assert_eq!(uno.current_player_index, 1);
    let recap = uno.ui.last_turn_recap.unwrap();
    assert_eq!(recap.player, 1);
    assert_eq!(recap.card, Card::from("wild yellow draw4"));
    assert_eq!(recap.drawn_cards, 0);
}

#[test]
fn computer_turn_recaps_what_it_drew() {
    let mut uno = table(
        vec![(vec!["red 1", "yellow 2"], true), (vec!["red 2"], false)],
        vec!["green 4", "red 3", "blue 8"],
        vec!["green 5"],
    );
    assert_eq!(uno.automate_current_player_turn(), Ok(()));
    let recap = uno.ui.last_turn_recap.unwrap();
    assert_eq!(recap.player, 1);
    assert_eq!(recap.card, Card::from("green 4"));
    assert_eq!(recap.drawn_cards, 3);
    assert_eq!(
        uno.players[0].hand,
        vec![Card::from("red 1"), Card::from("yellow 2"), Card::from("blue 8"), Card::from("red 3")]
    );
    assert_eq!(total_cards(&uno), 7);
}

#[test]
fn computer_turn_fails_when_nothing_can_be_played_or_drawn() {
    let mut uno = table(
        vec![(vec!["red 1"], true), (vec!["red 2"], false)],
        vec!["blue 7"],
        vec!["green 5"],
    );
    assert_eq!(uno.automate_current_player_turn(), Err(Fault::OutOfCards));
    // The card that was drawn stays in the hand.
    assert_eq!(uno.players[0].hand, vec![Card::from("red 1"), Card::from("blue 7")]);
    assert!(uno.deck.is_empty());
    assert_eq!(uno.discard, vec![Card::from("green 5")]);
    assert_eq!(uno.current_player_index, 0);
}

#[test]
fn computer_turn_fails_when_the_next_seat_cannot_be_served() {
    let mut uno = table(
        vec![(vec!["red 1", "green draw2"], true), (vec!["red 2"], false)],
        vec!["blue 7"],
        vec!["green 5"],
    );
    assert_eq!(uno.automate_current_player_turn(), Err(Fault::OutOfCards));
    assert_eq!(uno.players[0].hand, vec![Card::from("red 1"), Card::from("green draw2")]);
    assert_eq!(uno.deck, vec![Card::from("blue 7")]);
    assert_eq!(uno.discard, vec![Card::from("green 5")]);
}

#[test]
fn every_move_keeps_108_cards_in_the_game() {
    let mut uno = Uno::new(1, 2);
    assert_eq!(total_cards(&uno), 108);
    let standard = sorted_blank_texts(&uno);
    for round in 0..200 {
        if uno.game_over() {
            break;
        }
        let picked = if uno.wild_card_index_to_pick_color_for.is_some() {
            Input::Text("g".to_string())
        } else {
            match find_playable(&uno.players[0].hand, uno.discard.last()) {
                Some(index) => Input::Number(index as i32 + 1),
                None => Input::Text("d".to_string()),
            }
        };
        if uno.input(picked).is_err() {
            assert_eq!(total_cards(&uno), 108);
            assert_eq!(sorted_blank_texts(&uno), standard);
            break;
        }
        assert_eq!(total_cards(&uno), 108, "after round {}", round);
        assert_eq!(sorted_blank_texts(&uno), standard);
        assert!(uno.is_well_formed());
        let played_out = uno.players.iter().filter(|player| player.hand.is_empty()).count();
        assert_eq!(played_out, if uno.game_over() { 1 } else { 0 });
        assert!(uno.game_over() || !uno.players[uno.current_player_index as usize].ai);
    }
}

#[test]
fn execute_rejects_a_color_when_no_wild_card_waits() {
    let mut uno = table(vec![(vec!["red 1", "wild"], false), (vec!["red 2"], false)], vec![], vec!["red 9"]);
    assert_eq!(uno.execute(Command::PickWildCardColor(Color::Blue)), Ok(()));
    assert_eq!(uno.ui.error.as_deref(), Some("There is no wild card to pick a color for."));
    assert_eq!(uno.players[0].hand.len(), 2);
    assert_eq!(uno.current_player_index, 0);
}

#[test]
fn a_new_game_is_well_formed() {
    assert!(Uno::new(1, 1).is_well_formed());
    assert!(Uno::new(15, 0).is_well_formed());
    assert!(Uno::default().is_well_formed());
}

#[test]
fn the_turn_must_be_with_a_seat() {
    let mut uno = table(vec![(vec!["red 1"], false), (vec!["red 2"], true)], vec![], vec![]);
    assert!(uno.is_well_formed());
    uno.current_player_index = 2;
    assert!(!uno.is_well_formed());
    uno.current_player_index = -1;
    assert!(!uno.is_well_formed());
    uno.current_player_index = 1;
    assert!(uno.is_well_formed());
    uno.players.clear();
    assert!(!uno.is_well_formed());
}

#[test]
fn a_pending_index_must_point_at_a_wild_card_of_the_hand() {
    let mut uno = table(vec![(vec!["red 1", "wild"], false), (vec!["wild"], true)], vec![], vec![]);
    uno.wild_card_index_to_pick_color_for = Some(2);
    assert!(uno.is_well_formed());
    for index in [1, 0, 3, -1, i32::MIN, i32::MAX] {
        uno.wild_card_index_to_pick_color_for = Some(index);
        assert!(!uno.is_well_formed());
    }
    uno.current_player_index = 1;
    uno.wild_card_index_to_pick_color_for = Some(1);
    assert!(uno.is_well_formed());
}

#[test]
fn a_card_can_be_served_if_the_piles_hold_what_it_makes_draw() {
    let uno = table(
        vec![(vec!["red 1"], false), (vec!["red 2"], true)],
        vec!["blue 1", "blue 2"],
        vec!["green 1", "green 2"],
    );
    assert!(uno.can_serve_card(&Card::from("red 5")));
    assert!(uno.can_serve_card(&Card::from("red draw2")));
    assert!(!uno.can_serve_card(&Card::from("wild draw4")));
    let mut three = Card::from("red");
    three.draw_effect = Some(uno::card::DrawEffect::Draw(3));
    assert!(uno.can_serve_card(&three));
}

// Plays whole games: every human seat plays its first card that can follow,
// picks green for a wild card, and draws when it holds nothing to play.
#[test]
fn whole_games_keep_their_cards_and_end_with_one_winner() {
    for (humans, computers) in [(1, 1), (2, 0), (1, 3), (2, 2), (4, 1), (1, 14)] {
        let mut uno = Uno::new(humans, computers);
        let standard = sorted_blank_texts(&uno);
        let mut ended = false;
        for round in 0..2000 {
            assert!(uno.is_well_formed());
            let seat = uno.current_player_index as usize;
            assert!(!uno.players[seat].ai);
            let picked = if uno.wild_card_index_to_pick_color_for.is_some() {
                Input::Text("G".to_string())
            } else {
                match find_playable(&uno.players[seat].hand, uno.discard.last()) {
                    Some(index) => Input::Number(index as i32 + 1),
                    None => Input::Text("d".to_string()),
                }
            };
            let result = uno.input(picked);
            assert_eq!(total_cards(&uno), 108);
            if round % 25 == 0 || result.is_err() || uno.game_over() {
                assert_eq!(sorted_blank_texts(&uno), standard);
            }
            if result.is_err() {
                ended = true;
                break;
            }
            assert!(uno.ui.error.is_none());
            if uno.game_over() {
                let winners: Vec<usize> = (0..uno.players.len())
                    .filter(|seat| uno.players[*seat].hand.is_empty())
                    .collect();
                assert_eq!(winners.len(), 1);
                assert_eq!(uno.ui.winning_player, Some(winners[0] as i32 + 1));
                assert_eq!(uno.render(), vec![format!("Player {} won!", winners[0] + 1)]);
                ended = true;
                break;
            }
            let shown = uno.ui.displayed_hand.as_ref().unwrap();
            assert_eq!(shown.player, uno.current_player_index + 1);
            assert_eq!(shown.cards, uno.players[uno.current_player_index as usize].hand);
            let with_one_card: Vec<i32> = (0..uno.players.len())
                .filter(|seat| uno.players[*seat].hand.len() == 1)
                .map(|seat| seat as i32 + 1)
                .collect();
            assert_eq!(uno.ui.uno_declarations, with_one_card);
        }
        assert!(ended || !uno.game_over());
    }
}
