use game_sessions::game::Game;
use game_sessions::game::GameError;
use game_sessions::game::GameState;
use game_sessions::handler::handle_disconnect;
use game_sessions::handler::handle_event;
use game_sessions::handler::ClientEvent;
use game_sessions::handler::ConnectionState;
use game_sessions::handler::Reply;
use game_sessions::registry::Registry;

#[test]
fn new_game_starts_in_waiting_phase() {
    let g = Game::new(4321);
    assert_eq!(g.code, 4321);
    assert_eq!(g.players_num, 0);
    assert_eq!(g.state, GameState::WaitingToStart);
    assert_eq!(g.answers.len(), 0);
    assert_eq!(g.connections, 0);
}

#[test]
fn players_num_counts_successful_joins() {
    let mut g = Game::new(4321);
    assert!(g.join().is_ok());
    assert_eq!(g.players_num, 1);
    assert_eq!(g.state, GameState::Starting(1));
    assert!(g.join().is_ok());
    assert!(g.join().is_ok());
    assert_eq!(g.players_num, 3);
    assert_eq!(g.state, GameState::Starting(3));
    assert_eq!(g.connections, 3);
}

#[test]
fn pending_is_players_minus_ready_signals() {
    let mut g = Game::new(4321);
    assert!(g.join().is_ok());
    assert!(g.join().is_ok());
    assert!(g.join().is_ok());
    assert_eq!(g.ready(), Ok(false));
    assert_eq!(g.state, GameState::Starting(2));
    assert_eq!(g.ready(), Ok(false));
    assert_eq!(g.state, GameState::Starting(1));
    // Exactly the last signal observes the zero-crossing and advances.
    assert_eq!(g.ready(), Ok(true));
    assert_eq!(g.state, GameState::Guessing(3));
    // A further signal is rejected, so no second advance can happen.
    assert_eq!(g.ready(), Err(GameError::InvalidTransition));
    assert_eq!(g.state, GameState::Guessing(3));
}

#[test]
fn join_rejected_once_guessing_starts() {
    let mut g = Game::new(4321);
    assert!(g.join().is_ok());
    assert_eq!(g.ready(), Ok(true));
    assert_eq!(g.state, GameState::Guessing(1));
    assert_eq!(g.join(), Err(GameError::InvalidTransition));
    assert_eq!(g.players_num, 1);
}

#[test]
fn phase_never_regresses() {
    let mut g = Game::new(4321);
    let rank = |s: &GameState| match s {
        GameState::WaitingToStart => 0,
        GameState::Starting(_) => 1,
        GameState::Guessing(_) => 2,
        GameState::Answers(_) => 3,
        GameState::Finished => 4,
    };
    let mut last = rank(&g.state);
    let _ = g.join();
    let _ = g.join();
    for _ in 0..2 {
        let _ = g.ready();
        assert!(rank(&g.state) >= last);
        last = rank(&g.state);
    }
    let _ = g.submit_answer("aa".to_owned());
    assert!(rank(&g.state) >= last);
    last = rank(&g.state);
    let _ = g.submit_answer("bb".to_owned());
    assert!(rank(&g.state) >= last);
    last = rank(&g.state);
    for _ in 0..2 {
        let _ = g.ack();
        assert!(rank(&g.state) >= last);
        last = rank(&g.state);
    }
    assert_eq!(g.state, GameState::Finished);
}

#[test]
fn answers_never_exceed_players() {
    let mut g = Game::new(4321);
    assert!(g.join().is_ok());
    assert!(g.join().is_ok());
    assert_eq!(g.ready(), Ok(false));
    assert_eq!(g.ready(), Ok(true));
    assert_eq!(g.submit_answer("cat".to_owned()), Ok(false));
    assert_eq!(g.submit_answer("dog".to_owned()), Ok(true));
    assert_eq!(g.state, GameState::Answers(2));
    // Every player has answered: a further submission is rejected.
    assert_eq!(g.submit_answer("owl".to_owned()), Err(GameError::InvalidTransition));
    assert_eq!(g.answers.len(), 2);
    assert!(g.answers.len() <= g.players_num);
}

#[test]
fn answer_rejected_before_guessing() {
    let mut g = Game::new(4321);
    assert_eq!(g.submit_answer("cat".to_owned()), Err(GameError::InvalidTransition));
    assert_eq!(g.state, GameState::WaitingToStart);
    assert!(g.join().is_ok());
    assert_eq!(g.submit_answer("cat".to_owned()), Err(GameError::InvalidTransition));
    assert_eq!(g.answers.len(), 0);
}

#[test]
fn matching_answers_finish_without_ack() {
    let mut g = Game::new(4321);
    for _ in 0..3 {
        assert!(g.join().is_ok());
    }
    assert_eq!(g.ready(), Ok(false));
    assert_eq!(g.ready(), Ok(false));
    assert_eq!(g.ready(), Ok(true));
    assert_eq!(g.state, GameState::Guessing(3));
    assert_eq!(g.submit_answer("word".to_owned()), Ok(false));
    assert_eq!(g.submit_answer("word".to_owned()), Ok(false));
    // All answers equal: the session finishes at once, skipping the reveal.
    assert_eq!(g.submit_answer("word".to_owned()), Ok(true));
    assert_eq!(g.state, GameState::Finished);
}

#[test]
fn differing_answers_go_through_reveal() {
    let mut g = Game::new(4321);
    assert!(g.join().is_ok());
    assert!(g.join().is_ok());
    assert_eq!(g.ready(), Ok(false));
    assert_eq!(g.ready(), Ok(true));
    assert_eq!(g.submit_answer("aa".to_owned()), Ok(false));
    assert_eq!(g.submit_answer("bb".to_owned()), Ok(true));
    assert_eq!(g.state, GameState::Answers(2));
    assert_eq!(g.ack(), Ok(false));
    assert_eq!(g.ack(), Ok(true));
    assert_eq!(g.state, GameState::Finished);
    // The terminal phase accepts nothing further.
    assert_eq!(g.ack(), Err(GameError::InvalidTransition));
    assert_eq!(g.ready(), Err(GameError::InvalidTransition));
}

#[test]
fn disconnect_releases_slot_only() {
    let mut g = Game::new(4321);
    assert!(g.join().is_ok());
    assert_eq!(g.connections, 1);
    g.disconnect();
    assert_eq!(g.connections, 0);
    assert_eq!(g.players_num, 1);
    assert_eq!(g.state, GameState::Starting(1));
    // With no slot held a further disconnect is a no-op.
    g.disconnect();
    assert_eq!(g.connections, 0);
}

#[test]
fn snapshot_copies_observable_state() {
    let mut g = Game::new(4321);
    assert!(g.join().is_ok());
    assert_eq!(g.ready(), Ok(true));
    assert_eq!(g.submit_answer("word".to_owned()), Ok(true));
    let s = g.snapshot();
    assert_eq!(s.code, g.code);
    assert_eq!(s.players_num, g.players_num);
    assert_eq!(s.state, g.state);
    assert_eq!(s.answers, vec!["word".to_owned()]);
    assert_eq!(s.connections, g.connections);
}

#[test]
fn create_assigns_four_digit_code() {
    let mut reg = Registry::new();
    let resp = reg.create().expect("creation should find a free code");
    assert!((1000..=9999).contains(&resp.code));
    assert!(reg.find_live_by_code(resp.code).is_some());
    let list = reg.list_snapshot();
    assert_eq!(list.len(), 1);
    assert_eq!(list[0].code, resp.code);
    assert_eq!(list[0].state, GameState::WaitingToStart);
    assert_eq!(list[0].players_num, 0);
    assert_eq!(list[0].connections, 0);
}

#[test]
fn created_codes_distinct_while_live() {
    let mut reg = Registry::new();
    let a = reg.create().expect("creation should find a free code");
    let b = reg.create().expect("creation should find a free code");
    assert_ne!(a.code, b.code);
    assert_ne!(reg.entries[0].id, reg.entries[1].id);
}

#[test]
fn insert_rejects_duplicate_live_code_and_id() {
    let mut reg = Registry::new();
    assert!(reg.insert_with_code(1, 1234).is_ok());
    assert_eq!(reg.insert_with_code(2, 1234), Err(GameError::CreationError));
    assert_eq!(reg.insert_with_code(1, 2000), Err(GameError::CreationError));
    assert_eq!(reg.insert_with_code(3, 999), Err(GameError::CreationError));
    assert_eq!(reg.insert_with_code(3, 10000), Err(GameError::CreationError));
    assert_eq!(reg.list_snapshot().len(), 1);
}

#[test]
fn finished_session_frees_its_code() {
    let mut reg = Registry::new();
    assert!(reg.insert_with_code(1, 1234).is_ok());
    let mut conn = ConnectionState::new();
    assert!(matches!(
        handle_event(&mut reg, &mut conn, Some(ClientEvent::Join { code: 1234 })),
        Reply::Joined { players_num: 1 }
    ));
    assert!(matches!(
        handle_event(&mut reg, &mut conn, Some(ClientEvent::Ready)),
        Reply::Advanced { state: GameState::Guessing(1) }
    ));
    assert!(matches!(
        handle_event(
            &mut reg,
            &mut conn,
            Some(ClientEvent::SubmitAnswer { text: "word".to_owned() })
        ),
        Reply::Advanced { state: GameState::Finished }
    ));
    // The finished session no longer holds the code against a new one.
    assert!(reg.find_live_by_code(1234).is_none());
    assert!(reg.insert_with_code(2, 1234).is_ok());
}

#[test]
fn scenario_three_players_win_on_consensus() {
    let mut reg = Registry::new();
    assert!(reg.insert_with_code(9, 5678).is_ok());
    let mut c1 = ConnectionState::new();
    let mut c2 = ConnectionState::new();
    let mut c3 = ConnectionState::new();
    assert!(matches!(
        handle_event(&mut reg, &mut c1, Some(ClientEvent::Join { code: 5678 })),
        Reply::Joined { players_num: 1 }
    ));
    assert!(matches!(
        handle_event(&mut reg, &mut c2, Some(ClientEvent::Join { code: 5678 })),
        Reply::Joined { players_num: 2 }
    ));
    assert!(matches!(
        handle_event(&mut reg, &mut c3, Some(ClientEvent::Join { code: 5678 })),
        Reply::Joined { players_num: 3 }
    ));
    assert_eq!(handle_event(&mut reg, &mut c1, Some(ClientEvent::Ready)), Reply::Accepted);
    assert_eq!(handle_event(&mut reg, &mut c2, Some(ClientEvent::Ready)), Reply::Accepted);
    // The phase reaches guessing with the full countdown.
    assert_eq!(
        handle_event(&mut reg, &mut c3, Some(ClientEvent::Ready)),
        Reply::Advanced { state: GameState::Guessing(3) }
    );
    let ans = |t: &str| Some(ClientEvent::SubmitAnswer { text: t.to_owned() });
    assert_eq!(handle_event(&mut reg, &mut c1, ans("same")), Reply::Accepted);
    assert_eq!(handle_event(&mut reg, &mut c2, ans("same")), Reply::Accepted);
    // Three matching answers: finished at once, though nobody acknowledged.
    assert_eq!(
        handle_event(&mut reg, &mut c3, ans("same")),
        Reply::Advanced { state: GameState::Finished }
    );
    let list = reg.list_snapshot();
    assert_eq!(list[0].state, GameState::Finished);
    assert_eq!(list[0].answers.len(), 3);
}

#[test]
fn reveal_acknowledged_through_connections() {
    let mut reg = Registry::new();
    assert!(reg.insert_with_code(9, 5678).is_ok());
    let mut c1 = ConnectionState::new();
    let mut c2 = ConnectionState::new();
    assert!(matches!(
        handle_event(&mut reg, &mut c1, Some(ClientEvent::Join { code: 5678 })),
        Reply::Joined { players_num: 1 }
    ));
    assert!(matches!(
        handle_event(&mut reg, &mut c2, Some(ClientEvent::Join { code: 5678 })),
        Reply::Joined { players_num: 2 }
    ));
    assert_eq!(handle_event(&mut reg, &mut c1, Some(ClientEvent::Ready)), Reply::Accepted);
    assert_eq!(
        handle_event(&mut reg, &mut c2, Some(ClientEvent::Ready)),
        Reply::Advanced { state: GameState::Guessing(2) }
    );
    let ans = |t: &str| Some(ClientEvent::SubmitAnswer { text: t.to_owned() });
    assert_eq!(handle_event(&mut reg, &mut c1, ans("aa")), Reply::Accepted);
    // Differing answers: the reveal phase is entered, not skipped.
    assert_eq!(
        handle_event(&mut reg, &mut c2, ans("bb")),
        Reply::Advanced { state: GameState::Answers(2) }
    );
    assert_eq!(handle_event(&mut reg, &mut c1, Some(ClientEvent::Ack)), Reply::Accepted);
    assert_eq!(
        handle_event(&mut reg, &mut c2, Some(ClientEvent::Ack)),
        Reply::Advanced { state: GameState::Finished }
    );
}

#[test]
fn scenario_disconnect_before_readiness() {
    let mut reg = Registry::new();
    assert!(reg.insert_with_code(9, 5678).is_ok());
    let mut c1 = ConnectionState::new();
    assert!(matches!(
        handle_event(&mut reg, &mut c1, Some(ClientEvent::Join { code: 5678 })),
        Reply::Joined { players_num: 1 }
    ));
    handle_disconnect(&mut reg, &mut c1);
    assert!(c1.session.is_none());
    let list = reg.list_snapshot();
    // The slot is released; the player count and countdown are kept.
    assert_eq!(list[0].connections, 0);
    assert_eq!(list[0].players_num, 1);
    assert_eq!(list[0].state, GameState::Starting(1));
    // The session is still open, so a later join on the code succeeds.
    let mut c2 = ConnectionState::new();
    assert!(matches!(
        handle_event(&mut reg, &mut c2, Some(ClientEvent::Join { code: 5678 })),
        Reply::Joined { players_num: 2 }
    ));
}

#[test]
fn scenario_join_with_unknown_code() {
    let mut reg = Registry::new();
    assert!(reg.insert_with_code(9, 5678).is_ok());
    let before = reg.list_snapshot();
    let mut conn = ConnectionState::new();
    let reply = handle_event(&mut reg, &mut conn, Some(ClientEvent::Join { code: 4444 }));
    assert_eq!(reply, Reply::Rejected { error: GameError::NotFound });
    assert!(conn.session.is_none());
    let after = reg.list_snapshot();
    assert_eq!(before.len(), after.len());
    assert_eq!(before[0].code, after[0].code);
    assert_eq!(before[0].players_num, after[0].players_num);
    assert_eq!(before[0].state, after[0].state);
    assert_eq!(before[0].connections, after[0].connections);
}

#[test]
fn signals_without_binding_are_rejected() {
    let mut reg = Registry::new();
    let mut conn = ConnectionState::new();
    assert_eq!(
        handle_event(&mut reg, &mut conn, Some(ClientEvent::Ready)),
        Reply::Rejected { error: GameError::InvalidTransition }
    );
    assert_eq!(
        handle_event(&mut reg, &mut conn, Some(ClientEvent::Ack)),
        Reply::Rejected { error: GameError::InvalidTransition }
    );
}

#[test]
fn signal_for_removed_session_is_not_found() {
    let mut reg = Registry::new();
    assert!(reg.insert_with_code(9, 5678).is_ok());
    let mut conn = ConnectionState::new();
    assert!(matches!(
        handle_event(&mut reg, &mut conn, Some(ClientEvent::Join { code: 5678 })),
        Reply::Joined { .. }
    ));
    reg.remove(9);
    assert_eq!(
        handle_event(&mut reg, &mut conn, Some(ClientEvent::Ready)),
        Reply::Rejected { error: GameError::NotFound }
    );
    // Disconnecting a connection whose session is gone is harmless.
    handle_disconnect(&mut reg, &mut conn);
    assert!(conn.session.is_none());
}

#[test]
fn malformed_frame_is_rejected() {
    let mut reg = Registry::new();
    assert!(reg.insert_with_code(9, 5678).is_ok());
    let mut conn = ConnectionState::new();
    assert_eq!(
        handle_event(&mut reg, &mut conn, None),
        Reply::Rejected { error: GameError::MalformedMessage }
    );
    assert_eq!(reg.list_snapshot()[0].players_num, 0);
}

#[test]
fn echo_returns_the_text() {
    let mut reg = Registry::new();
    let mut conn = ConnectionState::new();
    let reply = handle_event(
        &mut reg,
        &mut conn,
        Some(ClientEvent::Echo { msg: "hello".to_owned() }),
    );
    assert_eq!(reply, Reply::Echoed { msg: "hello".to_owned() });
}

#[test]
fn remove_is_idempotent() {
    let mut reg = Registry::new();
    assert!(reg.insert_with_code(9, 5678).is_ok());
    reg.remove(9);
    assert!(reg.find_live_by_code(5678).is_none());
    assert_eq!(reg.list_snapshot().len(), 0);
    reg.remove(9);
    assert_eq!(reg.list_snapshot().len(), 0);
}
