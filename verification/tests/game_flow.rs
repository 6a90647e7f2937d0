use ndraw::game::{Game, PlayerAction, ROUND_END_DURATION, WORD_CHOICE_DURATION};
use ndraw::failure::RuleError;
use ndraw::model::{AwardReason, DrawingVote, GamePhase, GuessOutcome, PlayerProfile, RoomSettings, ServerMessage};
use ndraw::time::{GameDeadline, GameTime};

fn profile(name: &str) -> PlayerProfile {
    PlayerProfile { display_name: name.to_owned(), avatar: [0; 8] }
}

fn settings() -> RoomSettings {
    RoomSettings { rounds: 1, draw_seconds: 15, word_choices: 1, max_players: 4 }
}

fn game() -> Game {
    Game::new(
        settings(),
        vec!["windmill".to_owned(), "telescope".to_owned()],
        [7; 32],
        1_700_000_000_000,
        GameDeadline::after(GameTime::default(), 120_000),
    )
    .expect("valid game")
}

fn duration_millis(duration: u128) -> u64 {
    duration.min(u128::from(u64::MAX)) as u64
}

#[test]
fn completes_a_full_game_and_rematch_without_networking() {
    let mut game = game();
    let (host, _) = game.add_player(profile("Host"), true).unwrap();
    let (guest, _) = game.add_player(profile("Guest"), false).unwrap();

    game.apply(host, PlayerAction::StartGame, GameTime(0)).unwrap();
    assert_eq!(game.state_view().phase, GamePhase::ChoosingWord);
    assert!(game.snapshot_for(host).word_options.is_some());
    assert!(game.snapshot_for(guest).word_options.is_none());

    game.apply(host, PlayerAction::PickWord { choice: 0 }, GameTime(1)).unwrap();
    let first_word = game.snapshot_for(host).secret_word.expect("drawer snapshot holds the secret word");
    assert!(game.snapshot_for(guest).secret_word.is_none());

    let events = game.apply(guest, PlayerAction::Guess { text: first_word.clone() }, GameTime(1)).unwrap();
    assert!(events.iter().any(|event| matches!(
        event.message,
        ServerMessage::GuessResult(ref result)
            if matches!(result.outcome, GuessOutcome::Correct { points: 500 })
    )));
    assert_eq!(game.state_view().phase, GamePhase::RoundEnd);
    let result = game.snapshot_for(guest).turn_result.expect("turn result");
    assert_eq!(result.word, first_word);
    assert!(result.awards.iter().any(|award| {
        award.player_id == guest && award.points == 500 && award.reason == AwardReason::CorrectGuess
    }));
    assert!(result.awards.iter().any(|award| {
        award.player_id == host && award.points == 125 && award.reason == AwardReason::DrawerBonus
    }));

    let vote_events = game
        .apply(guest, PlayerAction::VoteDrawing { turn_id: result.turn_id, vote: Some(DrawingVote::Like) }, GameTime(2))
        .unwrap();
    assert!(vote_events.iter().any(|event| matches!(
        event.message,
        ServerMessage::DrawingVoteChanged(ref update)
            if update.likes == 1 && update.dislikes == 0
    )));
    assert_eq!(
        game.snapshot_for(guest).drawing_rating.and_then(|rating| rating.viewer_vote),
        Some(DrawingVote::Like)
    );
    assert!(matches!(
        game.apply(
            host,
            PlayerAction::VoteDrawing { turn_id: result.turn_id, vote: Some(DrawingVote::Dislike) },
            GameTime(2),
        ),
        Err(RuleError::DrawerCannotVote)
    ));

    let second_turn_at = 1 + duration_millis(ROUND_END_DURATION);
    game.handle_deadline(GameTime(second_turn_at)).unwrap();
    assert_eq!(game.state_view().drawer, Some(guest));
    game.apply(guest, PlayerAction::PickWord { choice: 0 }, GameTime(second_turn_at + 1)).unwrap();
    let second_word = game.snapshot_for(guest).secret_word.expect("second drawer holds the secret word");
    game.apply(host, PlayerAction::Guess { text: second_word }, GameTime(second_turn_at + 1)).unwrap();
    let game_over_at = second_turn_at + 1 + duration_millis(ROUND_END_DURATION);
    game.handle_deadline(GameTime(game_over_at)).unwrap();

    let view = game.state_view();
    assert_eq!(view.phase, GamePhase::GameOver);
    assert_eq!(view.scores, vec![(host, 625), (guest, 625)]);

    game.apply(host, PlayerAction::Rematch, GameTime(game_over_at + 1)).unwrap();
    let rematch = game.state_view();
    assert_eq!(rematch.phase, GamePhase::ChoosingWord);
    assert_eq!(rematch.round, 1);
    assert_eq!(rematch.scores, vec![(host, 0), (guest, 0)]);
}

#[test]
fn deadlines_auto_select_and_end_the_turn() {
    let mut game = game();
    let (host, _) = game.add_player(profile("Host"), true).unwrap();
    let (_guest, _) = game.add_player(profile("Guest"), false).unwrap();
    game.apply(host, PlayerAction::StartGame, GameTime(0)).unwrap();

    game.handle_deadline(GameTime(duration_millis(WORD_CHOICE_DURATION))).unwrap();
    assert_eq!(game.state_view().phase, GamePhase::Drawing);
    assert!(game.snapshot_for(host).secret_word.is_some());

    game.handle_deadline(GameTime(duration_millis(WORD_CHOICE_DURATION) + 15_000)).unwrap();
    assert_eq!(game.state_view().phase, GamePhase::RoundEnd);
}

#[test]
fn disconnected_host_transfers_and_absent_drawer_is_skipped() {
    let mut game = game();
    let (host, _) = game.add_player(profile("Host"), true).unwrap();
    let (guest, _) = game.add_player(profile("Guest"), false).unwrap();

    game.disconnect_player(host, GameTime(0)).unwrap();
    assert_eq!(game.state_view().host, Some(guest));
    game.reconnect_player(host).unwrap();
    game.apply(guest, PlayerAction::StartGame, GameTime(1)).unwrap();
    assert_eq!(game.state_view().drawer, Some(host));

    game.disconnect_player(host, GameTime(2)).unwrap();
    game.handle_deadline(GameTime(duration_millis(WORD_CHOICE_DURATION) + 1)).unwrap();
    assert_eq!(game.state_view().drawer, Some(guest));
}

#[test]
fn hints_reveal_one_character_at_a_time() {
    let long = RoomSettings { rounds: 1, draw_seconds: 45, word_choices: 1, max_players: 4 };
    let mut game = Game::new(long, vec!["red fox".to_owned()], [1; 32], 0, GameDeadline(60_000)).unwrap();
    let (host, _) = game.add_player(profile("Host"), true).unwrap();
    let (guest, _) = game.add_player(profile("Guest"), false).unwrap();
    game.apply(host, PlayerAction::StartGame, GameTime(0)).unwrap();
    game.apply(host, PlayerAction::PickWord { choice: 0 }, GameTime(0)).unwrap();
    let masked = game.snapshot_for(guest).phase.masked_word.unwrap();
    assert_eq!(masked, "___ ___");
    // Hints at 15 s and 35 s into a 45-second turn (30 and 10 seconds left).
    assert_eq!(game.next_deadline(), Some(GameDeadline(15_000)));
    let events = game.handle_deadline(GameTime(15_000)).unwrap();
    assert!(events.iter().any(|e| matches!(e.message, ServerMessage::HintRevealed(ref h) if h.masked_word == "r__ ___")));
    assert_eq!(game.next_deadline(), Some(GameDeadline(35_000)));
    game.handle_deadline(GameTime(35_000)).unwrap();
    assert_eq!(game.snapshot_for(guest).phase.masked_word.unwrap(), "re_ ___");
    assert_eq!(game.next_deadline(), Some(GameDeadline(45_000)));
}

#[test]
fn late_actions_are_rejected_until_the_deadline_is_handled() {
    let mut game = game();
    let (host, _) = game.add_player(profile("Host"), true).unwrap();
    let (_guest, _) = game.add_player(profile("Guest"), false).unwrap();
    game.apply(host, PlayerAction::StartGame, GameTime(0)).unwrap();
    assert_eq!(
        game.apply(host, PlayerAction::PickWord { choice: 0 }, GameTime(15_000)),
        Err(RuleError::DeadlineElapsed)
    );
    assert_eq!(game.apply(ndraw::ids::PlayerId(99), PlayerAction::StartGame, GameTime(1)), Err(RuleError::UnknownPlayer));
}

#[test]
fn consecutive_turns_in_one_deck_cycle_offer_different_words() {
    let settings = RoomSettings { rounds: 1, draw_seconds: 15, word_choices: 3, max_players: 4 };
    let pool: Vec<String> =
        ["ant", "bee", "cat", "dog", "eel", "fox"].iter().map(|w| w.to_string()).collect();
    let mut game =
        Game::new(settings, pool.clone(), [3; 32], 0, GameDeadline::after(GameTime::default(), 120_000)).unwrap();
    let (host, _) = game.add_player(profile("Host"), true).unwrap();
    let (guest, _) = game.add_player(profile("Guest"), false).unwrap();
    let offer = |g: &Game| -> Vec<String> {
        g.snapshot_for(host)
            .word_options
            .or(g.snapshot_for(guest).word_options)
            .expect("a drawer is choosing")
            .words
    };
    game.apply(host, PlayerAction::StartGame, GameTime(0)).unwrap();
    let first = offer(&game);
    let choose_end = duration_millis(WORD_CHOICE_DURATION);
    game.handle_deadline(GameTime(choose_end)).unwrap();
    game.handle_deadline(GameTime(choose_end + 15_000)).unwrap();
    assert_eq!(game.state_view().phase, GamePhase::RoundEnd);
    game.handle_deadline(GameTime(choose_end + 15_000 + duration_millis(ROUND_END_DURATION))).unwrap();
    assert_eq!(game.state_view().phase, GamePhase::ChoosingWord);
    let second = offer(&game);
    assert_eq!(first.len(), 3);
    assert_eq!(second.len(), 3);
    assert!(first.iter().all(|w| !second.contains(w)));
    let mut all: Vec<String> = first.iter().chain(second.iter()).cloned().collect();
    all.sort();
    let mut sorted_pool = pool;
    sorted_pool.sort();
    assert_eq!(all, sorted_pool);
}
