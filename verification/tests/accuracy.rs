use ktapper::session::{App, Key, Word};

fn app_with_word(word: &str, limit: usize) -> App {
    let mut app = App::default();
    app.current_word = word.chars().collect();
    app.words_limit = limit;
    app
}

#[test]
fn accuracy_with_no_typed_characters_is_100_percent() {
    let app = app_with_word("AB", 1);
    assert_eq!(app.calculate_accuracy(), 10000);
}

#[test]
fn accuracy_of_one_word_with_one_mistake() {
    let mut app = app_with_word("AB", 1);
    app.words.push(Word {
        word: "HELLO".chars().collect(),
        wrong_chars: vec![3],
    });
    app.wrong_words = vec![0];
    app.start = Some(0);
    assert_eq!(app.calculate_accuracy(), 8000);
}

#[test]
fn accuracy_mixes_words() {
    let mut app = app_with_word("AB", 2);
    app.words.push(Word {
        word: "AB".chars().collect(),
        wrong_chars: vec![0, 1],
    });
    app.words.push(Word {
        word: "CD".chars().collect(),
        wrong_chars: vec![],
    });
    app.wrong_words = vec![0];
    app.start = Some(0);
    assert_eq!(app.calculate_accuracy(), 5000);
}

#[test]
fn accuracy_after_typing_through_the_engine() {
    let mut app = app_with_word("HELLO", 1);
    for (i, c) in "HELXO".chars().enumerate() {
        app.handle_key(Key::Char(c), i as u64);
    }
    assert_eq!(app.calculate_accuracy(), 8000);
}

#[test]
fn checked_accuracy_agrees() {
    let mut app = app_with_word("HELLO", 1);
    assert_eq!(app.try_calculate_accuracy(), Some(10000));
    for (i, c) in "HELXO".chars().enumerate() {
        app.handle_key(Key::Char(c), i as u64);
    }
    assert_eq!(app.try_calculate_accuracy(), Some(8000));
}

#[test]
fn accuracy_all_wrong_is_zero() {
    let mut app = app_with_word("AB", 1);
    app.words.push(Word {
        word: "AB".chars().collect(),
        wrong_chars: vec![0, 1],
    });
    app.wrong_words = vec![0];
    app.start = Some(0);
    assert_eq!(app.calculate_accuracy(), 0);
}
