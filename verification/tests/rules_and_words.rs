use ndraw::failure::{JoinError, RuleError, WordDeckError};
use ndraw::game::{Game, PlayerAction};
use ndraw::ids::StrokeId;
use ndraw::model::{ChatKind, DrawOp, GuessOutcome, PlayerProfile, Point, RoomSettings, ServerMessage};
use ndraw::time::{GameDeadline, GameTime};
use ndraw::words::WordDeck;

fn profile(name: &str) -> PlayerProfile {
    PlayerProfile { display_name: name.to_owned(), avatar: [0; 8] }
}

fn game() -> Game {
    Game::new(
        RoomSettings { rounds: 1, draw_seconds: 15, word_choices: 1, max_players: 4 },
        vec!["windmill".to_owned(), "telescope".to_owned()],
        [7; 32],
        1_700_000_000_000,
        GameDeadline::after(GameTime::default(), 120_000),
    )
    .expect("valid game")
}

fn close_variant(secret: &str) -> String {
    let mut characters: Vec<char> = secret.chars().collect();
    if !characters.is_empty() {
        characters.pop();
    }
    characters.into_iter().collect()
}

#[test]
fn authority_phase_and_privacy_rules_are_enforced() {
    let mut game = game();
    let (host, _) = game.add_player(profile("Host"), true).unwrap();
    let (guest, _) = game.add_player(profile("Guest"), false).unwrap();
    let (third, _) = game.add_player(profile("Third"), false).unwrap();

    assert_eq!(game.apply(guest, PlayerAction::StartGame, GameTime(0)), Err(RuleError::HostOnly));
    game.apply(host, PlayerAction::StartGame, GameTime(0)).unwrap();
    assert_eq!(game.add_player(profile("Late"), false), Err(JoinError::GameAlreadyStarted));
    assert_eq!(game.apply(guest, PlayerAction::PickWord { choice: 0 }, GameTime(1)), Err(RuleError::DrawerOnly));
    assert_eq!(
        game.apply(host, PlayerAction::PickWord { choice: 9 }, GameTime(1)),
        Err(RuleError::InvalidWordChoice)
    );
    game.apply(host, PlayerAction::PickWord { choice: 0 }, GameTime(1)).unwrap();
    let secret = game.snapshot_for(host).secret_word.expect("drawer received a secret word");

    assert_eq!(
        game.apply(
            guest,
            PlayerAction::Draw(DrawOp::Begin { stroke_id: StrokeId(1), color: 0, width: 1, start: Point { x: 1, y: 1 } }),
            GameTime(2),
        ),
        Err(RuleError::DrawerOnly)
    );
    assert_eq!(
        game.apply(host, PlayerAction::Guess { text: secret.clone() }, GameTime(2)),
        Err(RuleError::DrawerCannotGuess)
    );
    assert_eq!(
        game.apply(host, PlayerAction::Chat { text: format!("the word is {secret}") }, GameTime(2)),
        Err(RuleError::Spoiler)
    );

    let containing_guess = game
        .apply(guest, PlayerAction::Guess { text: format!("I think the answer is {secret}") }, GameTime(2))
        .unwrap();
    assert!(containing_guess.iter().all(|event| !matches!(event.message, ServerMessage::Chat(_))));

    let close_events = game
        .apply(guest, PlayerAction::Guess { text: close_variant(&secret) }, GameTime(2))
        .unwrap();
    assert!(close_events.iter().any(|event| matches!(
        event.message,
        ServerMessage::GuessResult(ref result)
            if result.player_id == guest && result.outcome == GuessOutcome::Close
    )));
    assert!(close_events.iter().any(|event| matches!(
        event.message,
        ServerMessage::Chat(ref chat)
            if chat.player_id == guest && chat.kind == ChatKind::Guess
    )));
    assert!(game
        .snapshot_for(third)
        .chat_history
        .iter()
        .any(|chat| chat.player_id == guest && chat.kind == ChatKind::Guess));

    game.apply(guest, PlayerAction::Guess { text: secret.clone() }, GameTime(2)).unwrap();
    assert_eq!(
        game.apply(guest, PlayerAction::Guess { text: secret.clone() }, GameTime(3)),
        Err(RuleError::AlreadyGuessed)
    );
    game.apply(third, PlayerAction::Guess { text: secret }, GameTime(3)).unwrap();
}

#[test]
fn word_offers_are_unique_reproducible_and_validated() {
    let pool = vec!["red fox".to_owned(), "windmill".to_owned(), "telescope".to_owned()];
    let mut first = WordDeck::new(pool.clone(), 2, [42; 32]).expect("valid pool");
    let mut second = WordDeck::new(pool, 2, [42; 32]).expect("valid pool");
    assert_eq!(first.offer(2), second.offer(2));
    let offer = first.offer(3);
    assert_eq!(offer.len(), 3);
    assert_ne!(offer[0], offer[1]);
    assert_ne!(offer[1], offer[2]);

    assert!(matches!(
        WordDeck::new(vec!["T-shirt".to_owned(), "t shirt".to_owned()], 2, [0; 32]),
        Err(WordDeckError::DuplicateWord { index: 1 })
    ));
}

#[test]
fn word_pools_reject_each_kind_of_bad_entry() {
    let bad = |words: Vec<&str>, required: usize| {
        WordDeck::new(words.into_iter().map(str::to_owned).collect(), required, [0; 32]).err()
    };
    assert_eq!(bad(vec!["  "], 1), Some(WordDeckError::InvalidWord { index: 0, reason: "word must not be empty" }));
    assert_eq!(
        bad(vec!["ok", " padded"], 1),
        Some(WordDeckError::InvalidWord { index: 1, reason: "leading and trailing whitespace is not allowed" })
    );
    let long = "x".repeat(97);
    assert_eq!(
        bad(vec![long.as_str()], 1),
        Some(WordDeckError::InvalidWord { index: 0, reason: "word exceeds the protocol byte limit" })
    );
    assert_eq!(
        bad(vec!["tab\u{7}"], 1),
        Some(WordDeckError::InvalidWord { index: 0, reason: "word contains a control character" })
    );
    assert_eq!(bad(vec!["one", "two"], 3), Some(WordDeckError::TooSmall { required: 3, actual: 2 }));
    assert_eq!(bad(vec![], 0), Some(WordDeckError::TooSmall { required: 1, actual: 0 }));
}

#[test]
fn a_deck_cycle_deals_every_word_once_before_repeating() {
    let pool = vec!["a1".to_owned(), "b2".to_owned(), "c3".to_owned(), "d4".to_owned()];
    let mut deck = WordDeck::new(pool.clone(), 1, [9; 32]).unwrap();
    let mut dealt: Vec<String> = Vec::new();
    for _ in 0..4 {
        dealt.extend(deck.offer(1));
    }
    dealt.sort();
    assert_eq!(dealt, pool);
    assert_eq!(deck.offer(10).len(), 4);
}

#[test]
fn chat_history_keeps_the_newest_sixty_four_messages() {
    let mut game = game();
    let (host, _) = game.add_player(profile("Host"), true).unwrap();
    for i in 0..70 {
        game.apply(host, PlayerAction::Chat { text: format!("message {i}") }, GameTime(1)).unwrap();
    }
    let history = game.snapshot_for(host).chat_history;
    assert_eq!(history.len(), 64);
    assert_eq!(history[0].text, "message 6");
    assert_eq!(history[63].text, "message 69");
}

#[test]
fn kicked_players_leave_the_roster() {
    let mut game = game();
    let (host, _) = game.add_player(profile("Host"), true).unwrap();
    let (guest, _) = game.add_player(profile("Guest"), false).unwrap();
    let (third, _) = game.add_player(profile("Third"), false).unwrap();
    assert_eq!(game.apply(guest, PlayerAction::KickPlayer { player_id: third }, GameTime(0)), Err(RuleError::HostOnly));
    assert_eq!(game.apply(host, PlayerAction::KickPlayer { player_id: host }, GameTime(0)), Err(RuleError::CannotKickSelf));
    game.apply(host, PlayerAction::KickPlayer { player_id: third }, GameTime(0)).unwrap();
    assert!(!game.has_player(third));
    assert_eq!(
        game.apply(host, PlayerAction::KickPlayer { player_id: third }, GameTime(0)),
        Err(RuleError::InvalidKickTarget)
    );
    game.apply(host, PlayerAction::StartGame, GameTime(0)).unwrap();
    game.apply(host, PlayerAction::PickWord { choice: 0 }, GameTime(0)).unwrap();
    assert_eq!(
        game.apply(host, PlayerAction::KickPlayer { player_id: host }, GameTime(0)),
        Err(RuleError::CannotKickSelf)
    );
    assert_eq!(game.connected_count(), 2);
    assert!(game.is_connected(guest));
}

#[test]
fn starting_needs_two_connected_players() {
    let mut game = game();
    let (host, _) = game.add_player(profile("Host"), true).unwrap();
    assert_eq!(game.apply(host, PlayerAction::StartGame, GameTime(0)), Err(RuleError::NotEnoughPlayers));
    assert_eq!(game.apply(host, PlayerAction::Rematch, GameTime(0)), Err(RuleError::InvalidPhase));
    let (guest, _) = game.add_player(profile("Guest"), false).unwrap();
    game.disconnect_player(guest, GameTime(0)).unwrap();
    assert_eq!(game.apply(guest, PlayerAction::Chat { text: "hi".to_owned() }, GameTime(0)), Err(RuleError::PlayerDisconnected));
}

#[test]
fn decks_with_one_seed_agree_across_reshuffles() {
    let pool: Vec<String> = ["ant", "bee", "cat", "dog", "eel", "fox", "gnu"].iter().map(|w| w.to_string()).collect();
    let mut a = WordDeck::new(pool.clone(), 3, [7; 32]).unwrap();
    let mut b = WordDeck::new(pool.clone(), 3, [7; 32]).unwrap();
    for _ in 0..10 {
        let oa = a.offer(3);
        let ob = b.offer(3);
        assert_eq!(oa, ob);
        assert_eq!(oa.len(), 3);
        assert!(oa.iter().all(|w| pool.contains(w)));
        assert!(oa[0] != oa[1] && oa[0] != oa[2] && oa[1] != oa[2]);
    }
}

#[test]
fn the_seed_decides_the_deck_order() {
    let pool: Vec<String> = ["ant", "bee", "cat", "dog", "eel", "fox", "gnu", "hen"].iter().map(|w| w.to_string()).collect();
    let first = WordDeck::new(pool.clone(), 1, [1; 32]).unwrap().offer(8);
    let second = WordDeck::new(pool.clone(), 1, [2; 32]).unwrap().offer(8);
    let mut sorted_first = first.clone();
    sorted_first.sort();
    let mut sorted_pool = pool.clone();
    sorted_pool.sort();
    assert_eq!(sorted_first, sorted_pool);
    assert_ne!(first, second);
    assert!(first != pool || second != pool);
}
