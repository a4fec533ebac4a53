use ktapper::session::{char_mismatch, App, AppState, Key};

fn app_with_word(word: &str, limit: usize) -> App {
    let mut app = App::default();
    app.current_word = word.chars().collect();
    app.words_limit = limit;
    app
}

#[test]
fn hello_with_one_wrong_char_finalizes_word() {
    let mut app = app_with_word("HELLO", 1);
    for (i, c) in "HELXO".chars().enumerate() {
        app.handle_key(Key::Char(c), 1000 + i as u64);
    }
    assert_eq!(app.words.len(), 1);
    assert_eq!(app.words[0].word, vec!['H', 'E', 'L', 'L', 'O']);
    assert_eq!(app.words[0].wrong_chars, vec![3]);
    assert_eq!(app.wrong_words, vec![0]);
    assert!(matches!(app.app_state, AppState::Results(0)));
    assert!(app.finished_millis.is_some());
}

#[test]
fn correct_word_has_no_wrong_chars() {
    let mut app = app_with_word("HELLO", 1);
    for (i, c) in "HELLO".chars().enumerate() {
        app.handle_key(Key::Char(c), 1000 + i as u64);
    }
    assert_eq!(app.words.len(), 1);
    assert!(app.words[0].wrong_chars.is_empty());
    assert!(app.wrong_words.is_empty());
    assert!(matches!(app.app_state, AppState::Results(0)));
}

#[test]
fn mismatch_beyond_target_length_is_always_wrong() {
    let word: Vec<char> = "AB".chars().collect();
    let input: Vec<char> = "ABC".chars().collect();
    assert!(char_mismatch(&word, &input, 2));
    assert!(!char_mismatch(&word, &input, 0));
    assert!(!char_mismatch(&word, &input, 1));
}

#[test]
fn index_beyond_word_length_is_recorded_in_wrong_chars() {
    // Input already as long as the target (reachable by leaving the results
    // screen through settings): the next keystroke is wrong at an index at the
    // word's length, and that index is recorded.
    let mut app = app_with_word("AB", 5);
    app.input = vec!['A', 'B'];
    app.start = Some(0);
    app.handle_key(Key::Char('X'), 10);
    assert_eq!(app.words.len(), 1);
    assert_eq!(app.words[0].word, vec!['A', 'B']);
    assert_eq!(app.words[0].wrong_chars, vec![2]);
}

#[test]
fn word_completion_draws_fresh_word_until_limit() {
    let mut app = app_with_word("AB", 2);
    app.handle_key(Key::Char('A'), 1);
    app.handle_key(Key::Char('B'), 2);
    assert!(matches!(app.app_state, AppState::Input));
    assert_eq!(app.words.len(), 1);
    assert!(!app.current_word.is_empty());
    assert!(app.input.is_empty());
    let word: Vec<char> = app.current_word.clone();
    for (i, c) in word.iter().enumerate() {
        app.handle_key(Key::Char(*c), 10 + i as u64);
    }
    assert_eq!(app.words.len(), 2);
    assert!(matches!(app.app_state, AppState::Results(0)));
    assert!(app.wrong_words.is_empty());
}

#[test]
fn session_completes_exactly_at_limit() {
    let mut app = app_with_word("AB", 3);
    for round in 0..3u64 {
        assert!(matches!(app.app_state, AppState::Input));
        assert_eq!(app.words.len() as u64, round);
        let word: Vec<char> = app.current_word.clone();
        for (i, c) in word.iter().enumerate() {
            app.handle_key(Key::Char(*c), round * 100 + i as u64);
        }
    }
    assert_eq!(app.words.len(), 3);
    assert!(matches!(app.app_state, AppState::Results(_)));
}

#[test]
fn restart_from_results_clears_session() {
    let mut app = app_with_word("AB", 1);
    app.handle_key(Key::Char('A'), 1);
    app.handle_key(Key::Char('B'), 2);
    assert!(matches!(app.app_state, AppState::Results(_)));
    app.handle_key(Key::Char('r'), 3);
    assert!(matches!(app.app_state, AppState::Input));
    assert!(app.words.is_empty());
    assert!(app.wrong_words.is_empty());
    assert!(app.input.is_empty());
    assert!(app.start.is_none());
    assert!(app.finished_millis.is_none());
    assert!(!app.current_word.is_empty());
    assert_eq!(app.words_limit, 1);
}

#[test]
fn results_cursor_moves_bounded() {
    let mut app = app_with_word("A", 2);
    app.handle_key(Key::Char('A'), 1);
    let word: Vec<char> = app.current_word.clone();
    for (i, c) in word.iter().enumerate() {
        app.handle_key(Key::Char(*c), 2 + i as u64);
    }
    assert!(matches!(app.app_state, AppState::Results(0)));
    app.handle_key(Key::Up, 10);
    assert!(matches!(app.app_state, AppState::Results(0)));
    app.handle_key(Key::Down, 11);
    assert!(matches!(app.app_state, AppState::Results(1)));
    app.handle_key(Key::Down, 12);
    assert!(matches!(app.app_state, AppState::Results(1)));
    app.handle_key(Key::Up, 13);
    assert!(matches!(app.app_state, AppState::Results(0)));
}

#[test]
fn quit_from_results_sets_exit() {
    let mut app = app_with_word("A", 1);
    app.handle_key(Key::Char('A'), 1);
    assert!(matches!(app.app_state, AppState::Results(_)));
    assert!(!app.exit);
    app.handle_key(Key::Char('q'), 2);
    assert!(app.exit);
}
