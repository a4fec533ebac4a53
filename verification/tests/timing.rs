use ktapper::session::{App, AppState, Key};

fn app_with_word(word: &str, limit: usize) -> App {
    let mut app = App::default();
    app.current_word = word.chars().collect();
    app.words_limit = limit;
    app
}

#[test]
fn pause_and_resume_exclude_the_gap_from_elapsed_time() {
    let mut app = app_with_word("ABCD", 1);
    app.handle_key(Key::Char('A'), 0);
    assert_eq!(app.start, Some(0));
    app.handle_key(Key::Esc, 2000);
    assert!(matches!(app.app_state, AppState::Pause(2000)));
    app.handle_key(Key::Enter, 5000);
    assert!(matches!(app.app_state, AppState::Input));
    assert_eq!(app.start, Some(3000));
    app.handle_key(Key::Char('B'), 6000);
    app.handle_key(Key::Char('C'), 6500);
    app.handle_key(Key::Char('D'), 7000);
    assert_eq!(app.finished_millis, Some(4000));
}

#[test]
fn elapsed_without_pause_is_finish_minus_start() {
    let mut app = app_with_word("ABCD", 1);
    app.handle_key(Key::Char('A'), 0);
    app.handle_key(Key::Char('B'), 6000);
    app.handle_key(Key::Char('C'), 6500);
    app.handle_key(Key::Char('D'), 7000);
    assert_eq!(app.finished_millis, Some(7000));
}

#[test]
fn resume_before_first_keystroke_leaves_timer_unset() {
    let mut app = app_with_word("AB", 1);
    app.handle_key(Key::Esc, 100);
    assert!(matches!(app.app_state, AppState::Pause(100)));
    app.handle_key(Key::Other, 300);
    assert!(matches!(app.app_state, AppState::Input));
    assert!(app.start.is_none());
}

#[test]
fn resume_overflow_leaves_start_unchanged() {
    let mut app = app_with_word("AB", 1);
    app.start = Some(u64::MAX - 5);
    app.app_state = AppState::Pause(0);
    app.input = vec!['A'];
    app.handle_key(Key::Other, 100);
    assert!(matches!(app.app_state, AppState::Input));
    assert_eq!(app.start, Some(u64::MAX - 5));
}

#[test]
fn quit_from_pause_sets_exit() {
    let mut app = app_with_word("AB", 1);
    app.handle_key(Key::Esc, 10);
    app.handle_key(Key::Char('q'), 20);
    assert!(app.exit);
    assert!(matches!(app.app_state, AppState::Pause(10)));
}

#[test]
fn settings_from_pause_stages_live_values() {
    let mut app = app_with_word("AB", 7);
    app.handle_key(Key::Esc, 10);
    app.handle_key(Key::Char('s'), 20);
    assert!(matches!(app.app_state, AppState::Settings));
    assert_eq!(app.temp_limit, vec!['7']);
}

#[test]
fn starting_the_timer_twice_keeps_the_first_timestamp() {
    let mut app = app_with_word("AB", 1);
    app.start(5);
    assert_eq!(app.start, Some(5));
    app.start(9);
    assert_eq!(app.start, Some(5));
}
