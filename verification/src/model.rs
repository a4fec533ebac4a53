use vstd::prelude::*;

use crate::digits::{all_digits, is_digit_char, nat_to_digits, parse_limit_spec};
use crate::lang::{spec_next_lang, spec_prev_lang, Lang};
use crate::session::{AppState, Key, SelectedSetting};

verus! {

/// One completed word attempt: the target text and the character indices
/// (by Unicode scalar, 0-based) at which the typed input diverged from it.
#[verifier::ext_equal]
pub ghost struct WordModel {
    pub word: Seq<char>,
    pub wrong_chars: Seq<usize>,
}

/// The whole session, as mathematical values.  This is the view of `App`.
#[verifier::ext_equal]
pub ghost struct AppModel {
    pub exit: bool,
    pub state: AppState,
    pub current_word: Seq<char>,
    pub input: Seq<char>,
    pub start: Option<u64>,
    pub finished_millis: Option<u64>,
    pub wrong_input_chars: Seq<usize>,
    pub words_limit: usize,
    pub lang: Lang,
    pub words: Seq<WordModel>,
    pub wrong_words: Seq<usize>,
    pub settings_changed: bool,
    pub selected_setting: SelectedSetting,
    pub temp_lang: Lang,
    pub temp_limit: Seq<char>,
}

pub open spec fn strictly_increasing(s: Seq<usize>) -> bool {
    forall|i: int, j: int| 0 <= i < j < s.len() ==> s[i] < s[j]
}

/// Well-formedness of one completed word: the target is never empty, the wrong
/// indices are recorded in increasing order, and there are never more of them
/// than the word has characters.  (An index itself may lie beyond the word's
/// length: input typed past the target is wrong at every such index.)
pub open spec fn wf_word(w: WordModel) -> bool {
    &&& w.word.len() >= 1
    &&& strictly_increasing(w.wrong_chars)
    &&& w.wrong_chars.len() <= w.word.len()
}

/// The session invariant that every exported operation preserves.
pub open spec fn wf_model(s: AppModel) -> bool {
    &&& s.words_limit >= 1
    &&& s.current_word.len() >= 1
    &&& strictly_increasing(s.wrong_input_chars)
    &&& forall|i: int|
        0 <= i < s.wrong_input_chars.len() ==> (#[trigger] s.wrong_input_chars[i]) < s.input.len()
    &&& s.input.len() >= s.current_word.len() ==> s.wrong_input_chars.len() == 0
    &&& forall|i: int| 0 <= i < s.words.len() ==> wf_word(#[trigger] s.words[i])
    &&& strictly_increasing(s.wrong_words)
    &&& forall|i: int| 0 <= i < s.wrong_words.len() ==> (#[trigger] s.wrong_words[i]) < s.words.len()
    &&& forall|i: int|
        0 <= i < s.words.len() ==> (s.wrong_words.contains(i as usize) <==> (
        #[trigger] s.words[i]).wrong_chars.len() > 0)
    &&& s.start is None ==> s.words.len() == 0 && s.input.len() == 0
    &&& s.finished_millis is Some ==> s.start is Some
    &&& s.state matches AppState::Results(c) ==> (c as int) < s.words.len()
        && s.finished_millis is Some
    &&& all_digits(s.temp_limit)
}

/// In a strictly increasing sequence the entry at position `i` is at least `i`.
pub proof fn lemma_increasing_index(s: Seq<usize>, i: int)
    requires
        strictly_increasing(s),
        0 <= i < s.len(),
    ensures
        s[i] >= i,
    decreases i,
{
    if i > 0 {
        lemma_increasing_index(s, i - 1);
        assert(s[i - 1] < s[i]);
    }
}

/// A strictly increasing sequence whose entries are all below `n` has at most
/// `n` entries.
pub proof fn lemma_increasing_len_bound(s: Seq<usize>, n: int)
    requires
        strictly_increasing(s),
        forall|i: int| 0 <= i < s.len() ==> (#[trigger] s[i]) < n,
        n >= 0,
    ensures
        s.len() <= n,
{
    if s.len() > 0 {
        lemma_increasing_index(s, s.len() - 1);
        assert(s[s.len() - 1] < n);
    }
}

/// Membership in a sequence after a push.
pub proof fn lemma_push_contains(s: Seq<usize>, e: usize, x: usize)
    ensures
        s.push(e).contains(x) <==> (s.contains(x) || x == e),
{
    if s.push(e).contains(x) {
        let j = choose|j: int| 0 <= j < s.push(e).len() && s.push(e)[j] == x;
        if j < s.len() {
            assert(s[j] == x);
        }
    }
    if s.contains(x) {
        let j = choose|j: int| 0 <= j < s.len() && s[j] == x;
        assert(s.push(e)[j] == x);
    }
    if x == e {
        assert(s.push(e)[s.len() as int] == x);
    }
}

/// Finalizing one word keeps the bookkeeping of completed words intact: every
/// recorded word stays well formed, and the wrong-word indices are exactly the
/// indices of completed words with at least one wrong character.
pub proof fn lemma_finalize_word(words: Seq<WordModel>, ww: Seq<usize>, nw: WordModel)
    requires
        forall|i: int| 0 <= i < words.len() ==> wf_word(#[trigger] words[i]),
        strictly_increasing(ww),
        forall|i: int| 0 <= i < ww.len() ==> (#[trigger] ww[i]) < words.len(),
        forall|i: int|
            0 <= i < words.len() ==> (ww.contains(i as usize) <==> (
            #[trigger] words[i]).wrong_chars.len() > 0),
        wf_word(nw),
        words.len() <= usize::MAX,
    ensures
        ({
            let words2 = words.push(nw);
            let ww2 = if nw.wrong_chars.len() > 0 {
                ww.push(words.len() as usize)
            } else {
                ww
            };
            &&& forall|i: int| 0 <= i < words2.len() ==> wf_word(#[trigger] words2[i])
            &&& strictly_increasing(ww2)
            &&& forall|i: int| 0 <= i < ww2.len() ==> (#[trigger] ww2[i]) < words2.len()
            &&& forall|i: int|
                0 <= i < words2.len() ==> (ww2.contains(i as usize) <==> (
                #[trigger] words2[i]).wrong_chars.len() > 0)
        }),
{
    let l = words.len() as usize;
    let words2 = words.push(nw);
    let ww2 = if nw.wrong_chars.len() > 0 {
        ww.push(l)
    } else {
        ww
    };
    assert(strictly_increasing(ww2)) by {
        if nw.wrong_chars.len() > 0 {
            assert forall|i: int, j: int| 0 <= i < j < ww2.len() implies ww2[i] < ww2[j] by {
                if j < ww.len() {
                    assert(ww2[i] == ww[i]);
                    assert(ww2[j] == ww[j]);
                    assert(ww[i] < ww[j]);
                } else {
                    assert(ww2[j] == l);
                    assert(ww2[i] == ww[i]);
                    assert(ww[i] < words.len());
                }
            }
        }
    }
    assert(!ww.contains(l)) by {
        if ww.contains(l) {
            let j = choose|j: int| 0 <= j < ww.len() && ww[j] == l;
            assert(ww[j] == l);
            assert(ww[j] < words.len());
            assert(l == words.len());
        }
    }
    assert forall|i: int| 0 <= i < words2.len() implies (ww2.contains(i as usize) <==> (
    #[trigger] words2[i]).wrong_chars.len() > 0) by {
        if nw.wrong_chars.len() > 0 {
            lemma_push_contains(ww, l, i as usize);
        }
        if i < words.len() {
            assert(words2[i] == words[i]);
            assert(i < l as int);
            assert(i as usize != l);
        } else {
            assert(words2[i] == nw);
            assert(i as usize == l);
        }
    }
}

/// A full restart: all word, input and timing state is reset in place and a
/// fresh target word is drawn; language and limit are kept.
pub open spec fn restarted(pre: AppModel, w: Seq<char>) -> AppModel {
    AppModel {
        state: AppState::Input,
        current_word: w,
        input: Seq::<char>::empty(),
        wrong_input_chars: Seq::<usize>::empty(),
        words: Seq::<WordModel>::empty(),
        wrong_words: Seq::<usize>::empty(),
        start: None,
        finished_millis: None,
        ..pre
    }
}

/// Opening the settings screen stages the live configuration.
pub open spec fn opened_settings(pre: AppModel) -> AppModel {
    AppModel {
        temp_lang: pre.lang,
        temp_limit: nat_to_digits(pre.words_limit as nat),
        state: AppState::Settings,
        ..pre
    }
}

/// Resuming shifts the start of the session forward by the paused interval, so
/// elapsed-time accounting excludes it; on arithmetic overflow the start is
/// left unchanged.
pub open spec fn resumed(pre: AppModel, paused_at: u64, now: u64) -> AppModel {
    let gap = if now >= paused_at {
        (now - paused_at) as u64
    } else {
        0u64
    };
    let new_start = match pre.start {
        Some(st) => if st + gap <= u64::MAX {
            Some((st + gap) as u64)
        } else {
            Some(st)
        },
        None => None,
    };
    AppModel { state: AppState::Input, start: new_start, ..pre }
}

/// The limit a commit takes effect with: the staged text parsed as a number,
/// with the previous live limit silently retained on a failed parse or a
/// non-positive value.
pub open spec fn effective_limit(temp: Seq<char>, live: usize) -> usize {
    match parse_limit_spec(temp) {
        Some(v) => if v > 0 {
            v
        } else {
            live
        },
        None => live,
    }
}

/// Committing staged settings: if the staged language or the effective limit
/// differs from the live value, both are committed and the session is marked
/// as changed; otherwise nothing moves.
pub open spec fn applied_settings(pre: AppModel) -> AppModel {
    let new_limit = effective_limit(pre.temp_limit, pre.words_limit);
    if pre.lang != pre.temp_lang || pre.words_limit != new_limit {
        AppModel {
            lang: pre.temp_lang,
            words_limit: new_limit,
            settings_changed: true,
            ..pre
        }
    } else {
        pre
    }
}

/// Leaving the settings screen: back to typing, with a full restart exactly
/// when a commit changed values during this settings entry.
pub open spec fn settings_closed(pre: AppModel, w: Seq<char>) -> AppModel {
    if pre.settings_changed {
        AppModel { settings_changed: false, ..restarted(pre, w) }
    } else {
        AppModel { state: AppState::Input, ..pre }
    }
}

/// The staged limit text after a left (decrement) key: one less, floored at 1.
pub open spec fn limit_decremented(temp: Seq<char>) -> Seq<char> {
    let v = match parse_limit_spec(temp) {
        Some(x) => x,
        None => 1usize,
    };
    let dec = if v <= 1 {
        1usize
    } else {
        (v - 1) as usize
    };
    nat_to_digits(dec as nat)
}

/// The staged limit text after a right (increment) key: one more, capped at 65535.
pub open spec fn limit_incremented(temp: Seq<char>) -> Seq<char> {
    let v = match parse_limit_spec(temp) {
        Some(x) => x,
        None => 0usize,
    };
    let inc = if v >= 65535 {
        65535usize
    } else {
        (v + 1) as usize
    };
    nat_to_digits(inc as nat)
}

/// Whether the character typed at `idx` diverges from the target word.
/// An index at or beyond the target word's length is always a mismatch.
pub open spec fn char_wrong(word: Seq<char>, input: Seq<char>, idx: int) -> bool {
    idx >= word.len() || word[idx] != input[idx]
}

/// One accepted character while typing: start the timer on the session's first
/// keystroke, append the character, record a mismatch at its index, and when
/// the typed length reaches the target's length finalize the word — moving to
/// the results screen if that completes the session, otherwise on to a fresh
/// target word `w`.
pub open spec fn typed_char(pre: AppModel, c: char, now: u64, w: Seq<char>) -> AppModel {
    let started = match pre.start {
        Some(st) => st,
        None => now,
    };
    let input2 = pre.input.push(c);
    let idx = input2.len() - 1;
    let wic2 = if char_wrong(pre.current_word, input2, idx) {
        pre.wrong_input_chars.push(idx as usize)
    } else {
        pre.wrong_input_chars
    };
    if input2.len() >= pre.current_word.len() {
        let ww2 = if wic2.len() > 0 {
            pre.wrong_words.push(pre.words.len() as usize)
        } else {
            pre.wrong_words
        };
        let words2 = pre.words.push(WordModel { word: pre.current_word, wrong_chars: wic2 });
        if words2.len() >= pre.words_limit {
            AppModel {
                start: Some(started),
                input: input2,
                wrong_input_chars: Seq::<usize>::empty(),
                words: words2,
                wrong_words: ww2,
                finished_millis: Some(
                    if now >= started {
                        (now - started) as u64
                    } else {
                        0u64
                    },
                ),
                state: AppState::Results(0),
                ..pre
            }
        } else {
            AppModel {
                start: Some(started),
                input: Seq::<char>::empty(),
                wrong_input_chars: Seq::<usize>::empty(),
                words: words2,
                wrong_words: ww2,
                current_word: w,
                ..pre
            }
        }
    } else {
        AppModel { start: Some(started), input: input2, wrong_input_chars: wic2, ..pre }
    }
}

/// The selection cursor on the results screen, moved up, bounded at the first entry.
pub open spec fn cursor_up(pre: AppModel, c: usize) -> AppModel {
    AppModel {
        state: AppState::Results(
            if c > 0 {
                (c - 1) as usize
            } else {
                0usize
            },
        ),
        ..pre
    }
}

/// The selection cursor on the results screen, moved down, bounded at the last entry.
pub open spec fn cursor_down(pre: AppModel, c: usize) -> AppModel {
    AppModel {
        state: AppState::Results(
            if c + 1 < pre.words.len() {
                (c + 1) as usize
            } else {
                c
            },
        ),
        ..pre
    }
}

/// The settings screen focus, toggled between the two fields.
pub open spec fn toggled(pre: AppModel) -> AppModel {
    AppModel {
        selected_setting: if pre.selected_setting == SelectedSetting::Lang {
            SelectedSetting::Limit
        } else {
            SelectedSetting::Lang
        },
        ..pre
    }
}

/// The session state machine: what one key event does to the session, given
/// the wall clock `now` (milliseconds) and the fresh target word `w` drawn
/// wherever a transition asks the word source for one.
pub open spec fn step(pre: AppModel, key: Key, now: u64, w: Seq<char>) -> AppModel {
    match pre.state {
        AppState::Input => match key {
            Key::Esc => AppModel { state: AppState::Pause(now), ..pre },
            Key::Char(c) => typed_char(pre, c, now, w),
            _ => pre,
        },
        AppState::Pause(paused_at) => match key {
            Key::Char(c) => if c == 'q' {
                AppModel { exit: true, ..pre }
            } else if c == 's' {
                opened_settings(pre)
            } else {
                resumed(pre, paused_at, now)
            },
            _ => resumed(pre, paused_at, now),
        },
        AppState::Results(cursor) => match key {
            Key::Up => cursor_up(pre, cursor),
            Key::Down => cursor_down(pre, cursor),
            Key::Char(c) => if c == 'q' {
                AppModel { exit: true, ..pre }
            } else if c == 'r' {
                restarted(pre, w)
            } else if c == 's' {
                opened_settings(pre)
            } else {
                pre
            },
            _ => pre,
        },
        AppState::Settings => match key {
            Key::Esc => settings_closed(pre, w),
            Key::Up => toggled(pre),
            Key::Down => toggled(pre),
            Key::Left => if pre.selected_setting == SelectedSetting::Lang {
                AppModel { temp_lang: spec_prev_lang(pre.temp_lang), ..pre }
            } else {
                AppModel { temp_limit: limit_decremented(pre.temp_limit), ..pre }
            },
            Key::Right => if pre.selected_setting == SelectedSetting::Lang {
                AppModel { temp_lang: spec_next_lang(pre.temp_lang), ..pre }
            } else {
                AppModel { temp_limit: limit_incremented(pre.temp_limit), ..pre }
            },
            Key::Char(c) => if is_digit_char(c) && pre.selected_setting == SelectedSetting::Limit {
                AppModel { temp_limit: pre.temp_limit.push(c), ..pre }
            } else {
                pre
            },
            Key::Backspace => if pre.selected_setting == SelectedSetting::Limit
                && pre.temp_limit.len() > 0 {
                AppModel { temp_limit: pre.temp_limit.drop_last(), ..pre }
            } else {
                pre
            },
            Key::Enter => settings_closed(applied_settings(pre), w),
            _ => pre,
        },
    }
}

} // verus!
