use vstd::prelude::*;

use crate::digits::{limit_to_digits, parse_limit};
use crate::lang::{get_lang, next_lang, prev_lang, Lang};
use crate::model::{
    applied_settings, char_wrong, cursor_down, cursor_up, lemma_finalize_word,
    lemma_increasing_len_bound,
    limit_decremented, limit_incremented, opened_settings, restarted,
    resumed, settings_closed, step, strictly_increasing, toggled, typed_char, wf_model, wf_word,
    AppModel, WordModel,
};
use crate::wordsource::fresh_word;

verus! {

/// Which field of the settings screen has focus.
#[derive(Clone, Copy, PartialEq, Eq, Structural, Debug)]
pub enum SelectedSetting {
    Lang,
    Limit,
}

/// The phase the session is in.  `Pause` carries the timestamp (milliseconds)
/// the pause began at; `Results` carries the selection cursor into the
/// completed words.
#[derive(Clone, Copy, PartialEq, Eq, Structural, Debug)]
pub enum AppState {
    Input,
    Pause(u64),
    Results(usize),
    Settings,
}

/// A key event, as the rendering shell hands it to the engine.
#[derive(Clone, Copy, PartialEq, Eq, Structural, Debug)]
pub enum Key {
    Esc,
    Enter,
    Backspace,
    Up,
    Down,
    Left,
    Right,
    Char(char),
    Other,
}

/// The immutable record of one completed word attempt.
pub struct Word {
    pub word: Vec<char>,
    pub wrong_chars: Vec<usize>,
}

impl View for Word {
    type V = WordModel;

    open spec fn view(&self) -> WordModel {
        WordModel { word: self.word@, wrong_chars: self.wrong_chars@ }
    }
}

/// The persisted configuration: a language code and a positive word-count limit.
pub struct Config {
    pub lang: Vec<char>,
    pub limit: usize,
}

impl Default for Config {
    fn default() -> (r: Config)
        ensures
            r.lang@ == seq!['E', 'N'],
            r.limit == 50,
    {
        let lang = vec!['E', 'N'];
        assert(lang@ =~= seq!['E', 'N']);
        Config { lang, limit: 50 }
    }
}

/// The typing session: the root aggregate the state machine works on.
pub struct App {
    pub exit: bool,
    pub app_state: AppState,
    pub current_word: Vec<char>,
    pub input: Vec<char>,
    pub start: Option<u64>,
    pub finished_millis: Option<u64>,
    pub wrong_input_chars: Vec<usize>,
    pub words_limit: usize,
    pub lang: Lang,
    pub words: Vec<Word>,
    pub wrong_words: Vec<usize>,
    pub settings_changed: bool,
    pub selected_setting: SelectedSetting,
    pub temp_lang: Lang,
    pub temp_limit: Vec<char>,
}

impl View for App {
    type V = AppModel;

    open spec fn view(&self) -> AppModel {
        AppModel {
            exit: self.exit,
            state: self.app_state,
            current_word: self.current_word@,
            input: self.input@,
            start: self.start,
            finished_millis: self.finished_millis,
            wrong_input_chars: self.wrong_input_chars@,
            words_limit: self.words_limit,
            lang: self.lang,
            words: self.words@.map_values(|w: Word| w@),
            wrong_words: self.wrong_words@,
            settings_changed: self.settings_changed,
            selected_setting: self.selected_setting,
            temp_lang: self.temp_lang,
            temp_limit: self.temp_limit@,
        }
    }
}

/// The baseline session before a configuration is applied.
pub open spec fn default_model() -> AppModel {
    AppModel {
        exit: false,
        state: AppState::Input,
        current_word: Seq::<char>::empty(),
        input: Seq::<char>::empty(),
        start: None,
        finished_millis: None,
        wrong_input_chars: Seq::<usize>::empty(),
        words_limit: 50usize,
        lang: Lang::En,
        words: Seq::<WordModel>::empty(),
        wrong_words: Seq::<usize>::empty(),
        settings_changed: false,
        selected_setting: SelectedSetting::Lang,
        temp_lang: Lang::En,
        temp_limit: seq!['5', '0'],
    }
}

impl Default for App {
    fn default() -> (r: App)
        ensures
            r@ == default_model(),
    {
        let r = App {
            exit: false,
            app_state: AppState::Input,
            current_word: Vec::new(),
            input: Vec::new(),
            start: None,
            finished_millis: None,
            wrong_input_chars: Vec::new(),
            words_limit: 50,
            lang: Lang::En,
            words: Vec::new(),
            wrong_words: Vec::new(),
            settings_changed: false,
            selected_setting: SelectedSetting::Lang,
            temp_lang: Lang::En,
            temp_limit: vec!['5', '0'],
        };
        proof {
            assert(r@ =~= default_model());
        }
        r
    }
}

/// Whether the character typed at `idx` diverges from the target word.  An
/// index at or beyond the target word's length is always a mismatch.
pub fn char_mismatch(word: &Vec<char>, input: &Vec<char>, idx: usize) -> (r: bool)
    requires
        idx < input@.len(),
    ensures
        r == char_wrong(word@, input@, idx as int),
{
    if idx >= word.len() {
        true
    } else {
        word[idx] != input[idx]
    }
}

fn copy_of<T: Copy>(v: &Vec<T>) -> (r: Vec<T>)
    ensures
        r@ == v@,
{
    let mut r: Vec<T> = Vec::new();
    let mut i: usize = 0;
    while i < v.len()
        invariant
            0 <= i <= v@.len(),
            r@ =~= v@.take(i as int),
        decreases v@.len() - i,
    {
        r.push(v[i]);
        i = i + 1;
    }
    proof {
        assert(v@.take(v@.len() as int) =~= v@);
    }
    r
}

impl App {
    /// The session invariant.
    pub open spec fn wf(&self) -> bool {
        wf_model(self@)
    }

    /// A session built from the persisted configuration: an unknown language
    /// code falls back to English, and a first target word is drawn.
    pub fn from(config: &Config) -> (r: App)
        requires
            config.limit >= 1,
        ensures
            r.wf(),
            r@ == (AppModel {
                current_word: r@.current_word,
                lang: r@.lang,
                words_limit: config.limit,
                temp_lang: r@.lang,
                temp_limit: crate::digits::nat_to_digits(config.limit as nat),
                ..default_model()
            }),
            r@.lang == (match crate::lang::spec_get_lang(config.lang@) {
                Some(l) => l,
                None => Lang::En,
            }),
    {
        let lang = match get_lang(&config.lang) {
            Some(l) => l,
            None => Lang::En,
        };
        let mut app = App::default();
        app.lang = lang;
        app.current_word = fresh_word(lang);
        app.words_limit = config.limit;
        app.temp_lang = lang;
        app.temp_limit = limit_to_digits(config.limit);
        proof {
            assert(app@ =~= (AppModel {
                current_word: app@.current_word,
                lang: app@.lang,
                words_limit: config.limit,
                temp_lang: app@.lang,
                temp_limit: crate::digits::nat_to_digits(config.limit as nat),
                ..default_model()
            }));
        }
        app
    }

    /// Freeze the session: remember when the pause began; the timer is not touched.
    pub fn pause(&mut self, now: u64)
        ensures
            final(self)@ == (AppModel { state: AppState::Pause(now), ..old(self)@ }),
    {
        self.app_state = AppState::Pause(now);
        proof {
            assert(self@ =~= (AppModel { state: AppState::Pause(now), ..old(self)@ }));
        }
    }

    /// Return to typing.  If the session was paused and had started, the start
    /// timestamp is shifted forward by the paused interval so that elapsed time
    /// excludes it; if that shift would overflow, the start is left unchanged.
    pub fn resume(&mut self, now: u64)
        ensures
            final(self)@ == (match old(self)@.state {
                AppState::Pause(p) => resumed(old(self)@, p, now),
                _ => AppModel { state: AppState::Input, ..old(self)@ },
            }),
    {
        if let AppState::Pause(paused_at) = self.app_state {
            if let Some(started) = self.start {
                let gap = if now >= paused_at {
                    now - paused_at
                } else {
                    0
                };
                self.start = match started.checked_add(gap) {
                    Some(v) => Some(v),
                    None => Some(started),
                };
            }
        }
        self.app_state = AppState::Input;
        proof {
            assert(self@ =~= (match old(self)@.state {
                AppState::Pause(p) => resumed(old(self)@, p, now),
                _ => AppModel { state: AppState::Input, ..old(self)@ },
            }));
        }
    }

    /// Record the session start.  Callable only once per session: with the
    /// start already set, the call is an idempotent no-op and the first
    /// timestamp is kept.
    pub fn start(&mut self, now: u64)
        ensures
            final(self)@ == (AppModel {
                start: if old(self)@.start is Some {
                    old(self)@.start
                } else {
                    Some(now)
                },
                ..old(self)@
            }),
    {
        if self.start.is_none() {
            self.start = Some(now);
        }
        proof {
            assert(self@ =~= (AppModel {
                start: if old(self)@.start is Some {
                    old(self)@.start
                } else {
                    Some(now)
                },
                ..old(self)@
            }));
        }
    }

    /// Finalize timing: the finished duration is the time from the (shifted)
    /// start until now, in milliseconds, and the results screen opens with the
    /// selection on the first entry.
    pub fn finish(&mut self, now: u64)
        requires
            old(self)@.start is Some,
        ensures
            final(self)@ == (AppModel {
                finished_millis: Some(
                    if now >= old(self)@.start->0 {
                        (now - old(self)@.start->0) as u64
                    } else {
                        0u64
                    },
                ),
                state: AppState::Results(0),
                ..old(self)@
            }),
    {
        let st = self.start.unwrap();
        let elapsed = if now >= st {
            now - st
        } else {
            0
        };
        self.finished_millis = Some(elapsed);
        self.app_state = AppState::Results(0);
        proof {
            assert(self@ =~= (AppModel {
                finished_millis: Some(
                    if now >= old(self)@.start->0 {
                        (now - old(self)@.start->0) as u64
                    } else {
                        0u64
                    },
                ),
                state: AppState::Results(0),
                ..old(self)@
            }));
        }
    }

    /// Ask the event loop to end the process.
    pub fn exit(&mut self)
        ensures
            final(self)@ == (AppModel { exit: true, ..old(self)@ }),
    {
        self.exit = true;
        proof {
            assert(self@ =~= (AppModel { exit: true, ..old(self)@ }));
        }
    }

    /// Draw a fresh target word and clear the per-word typing state.
    pub fn new_word(&mut self)
        ensures
            final(self)@ == (AppModel {
                current_word: final(self)@.current_word,
                input: Seq::<char>::empty(),
                wrong_input_chars: Seq::<usize>::empty(),
                ..old(self)@
            }),
            final(self)@.current_word.len() >= 1,
    {
        self.current_word = fresh_word(self.lang);
        self.input = Vec::new();
        self.wrong_input_chars = Vec::new();
        proof {
            assert(self@ =~= (AppModel {
                current_word: self@.current_word,
                input: Seq::<char>::empty(),
                wrong_input_chars: Seq::<usize>::empty(),
                ..old(self)@
            }));
        }
    }

    /// Reset all word, input and timing state in place, keeping language and
    /// limit, and draw a fresh target word.
    pub fn restart(&mut self)
        ensures
            final(self)@ == restarted(old(self)@, final(self)@.current_word),
            final(self)@.current_word.len() >= 1,
    {
        self.app_state = AppState::Input;
        self.input = Vec::new();
        self.wrong_input_chars = Vec::new();
        self.words = Vec::new();
        self.wrong_words = Vec::new();
        self.start = None;
        self.finished_millis = None;
        self.new_word();
        proof {
            assert(self@.words =~= Seq::<WordModel>::empty());
            assert(self@ =~= restarted(old(self)@, self@.current_word));
        }
    }

    /// Stage the live configuration and open the settings screen.
    pub fn open_settings(&mut self)
        ensures
            final(self)@ == opened_settings(old(self)@),
            crate::digits::all_digits(final(self)@.temp_limit),
    {
        self.temp_lang = self.lang;
        self.temp_limit = limit_to_digits(self.words_limit);
        self.app_state = AppState::Settings;
        proof {
            assert(self@ =~= opened_settings(old(self)@));
        }
    }

    /// Commit the staged settings: parse the staged limit text, silently
    /// retaining the previous live limit on a failed parse or a non-positive
    /// value; if the staged language or the effective limit differs from the
    /// live value, commit both and mark the session as changed.
    pub fn apply_settings(&mut self)
        ensures
            final(self)@ == applied_settings(old(self)@),
    {
        let new_limit = match parse_limit(&self.temp_limit) {
            Some(v) => if v > 0 {
                v
            } else {
                self.words_limit
            },
            None => self.words_limit,
        };
        if self.lang != self.temp_lang || self.words_limit != new_limit {
            self.lang = self.temp_lang;
            self.words_limit = new_limit;
            self.settings_changed = true;
        }
        proof {
            assert(self@ =~= applied_settings(old(self)@));
        }
    }

    /// One accepted character while typing: start the timer on the session's
    /// first keystroke, append the character, record a mismatch at its index,
    /// and when the typed length reaches the target's length finalize the word
    /// — moving to the results screen if that completes the session, otherwise
    /// drawing a fresh target word.
    #[verifier::rlimit(40)]
    pub fn type_char(&mut self, c: char, now: u64)
        requires
            old(self).wf(),
            old(self)@.state is Input,
        ensures
            final(self).wf(),
            final(self)@ == typed_char(old(self)@, c, now, final(self)@.current_word),
    {
        let ghost pre = old(self)@;
        if self.start.is_none() {
            self.start(now);
        }
        self.input.push(c);
        let idx = self.input.len() - 1;
        let wrong = char_mismatch(&self.current_word, &self.input, idx);
        if wrong {
            self.wrong_input_chars.push(idx);
        }
        let ghost input2 = pre.input.push(c);
        let ghost wic2 = self@.wrong_input_chars;
        proof {
            assert(self@.input =~= input2);
            assert(strictly_increasing(wic2)) by {
                if wrong {
                    assert(forall|i: int|
                        0 <= i < pre.wrong_input_chars.len()
                            ==> (#[trigger] pre.wrong_input_chars[i]) < idx);
                }
            }
            assert(forall|i: int| 0 <= i < wic2.len() ==> (#[trigger] wic2[i]) < input2.len());
        }
        if self.input.len() >= self.current_word.len() {
            proof {
                assert(wic2.len() <= pre.current_word.len()) by {
                    if pre.input.len() < pre.current_word.len() {
                        lemma_increasing_len_bound(
                            pre.wrong_input_chars,
                            pre.input.len() as int,
                        );
                    } else {
                        assert(pre.wrong_input_chars.len() == 0);
                    }
                }
            }
            let n = self.words.len();
            if self.wrong_input_chars.len() > 0 {
                self.wrong_words.push(n);
            }
            let ghost ww2 = self@.wrong_words;
            let word_text = copy_of(&self.current_word);
            let wic = copy_of(&self.wrong_input_chars);
            self.wrong_input_chars = Vec::new();
            self.words.push(Word { word: word_text, wrong_chars: wic });
            let ghost new_word_model = WordModel {
                word: pre.current_word,
                wrong_chars: wic2,
            };
            let ghost words2 = pre.words.push(new_word_model);
            proof {
                assert(self@.words =~= words2);
                assert(wf_word(new_word_model));
                assert(self@.wrong_words == ww2);
                assert(ww2 == (if wic2.len() > 0 {
                    pre.wrong_words.push(pre.words.len() as usize)
                } else {
                    pre.wrong_words
                }));
                lemma_finalize_word(pre.words, pre.wrong_words, new_word_model);
            }
            if self.words.len() >= self.words_limit {
                self.finish(now);
                proof {
                    assert(self@ =~= typed_char(pre, c, now, self@.current_word));
                }
            } else {
                self.new_word();
                proof {
                    assert(self@ =~= typed_char(pre, c, now, self@.current_word));
                }
            }
        } else {
            proof {
                assert(self@ =~= typed_char(pre, c, now, self@.current_word));
            }
        }
    }

    /// The session state machine: dispatch one key event into the session,
    /// according to the current phase.  `now` is the wall clock in
    /// milliseconds; wherever the transition needs a fresh target word, one is
    /// drawn from the word source.
    #[verifier::rlimit(80)]
    pub fn handle_key(&mut self, key: Key, now: u64)
        requires
            old(self).wf(),
        ensures
            final(self).wf(),
            final(self)@ == step(old(self)@, key, now, final(self)@.current_word),
    {
        let ghost pre = old(self)@;
        match self.app_state {
            AppState::Input => {
                match key {
                Key::Esc => {
                    self.pause(now);
                },
                Key::Char(c) => {
                    self.type_char(c, now);
                },
                _ => {},
                }
                proof { assert(self@ =~= step(pre, key, now, self@.current_word)); }
            },
            AppState::Pause(_) => {
                match key {
                Key::Char(c) => {
                    if c == 'q' {
                        self.exit();
                    } else if c == 's' {
                        self.open_settings();
                    } else {
                        self.resume(now);
                    }
                },
                _ => {
                    self.resume(now);
                },
                }
                proof { assert(self@ =~= step(pre, key, now, self@.current_word)); }
            },
            AppState::Results(cursor) => {
                match key {
                Key::Up => {
                    let c2 = if cursor > 0 {
                        cursor - 1
                    } else {
                        0
                    };
                    self.app_state = AppState::Results(c2);
                    proof {
                        assert(self@ =~= cursor_up(pre, cursor));
                    }
                },
                Key::Down => {
                    let n = self.words.len();
                    let c2 = if cursor < n - 1 {
                        cursor + 1
                    } else {
                        cursor
                    };
                    self.app_state = AppState::Results(c2);
                    proof {
                        assert(self@ =~= cursor_down(pre, cursor));
                    }
                },
                Key::Char(c) => {
                    if c == 'q' {
                        self.exit();
                    } else if c == 'r' {
                        self.restart();
                    } else if c == 's' {
                        self.open_settings();
                    }
                },
                _ => {},
                }
                proof { assert(self@ =~= step(pre, key, now, self@.current_word)); }
            },
            AppState::Settings => {
                match key {
                Key::Esc => {
                    self.app_state = AppState::Input;
                    if self.settings_changed {
                        self.restart();
                        self.settings_changed = false;
                    }
                    proof {
                        assert(self@ =~= settings_closed(pre, self@.current_word));
                    }
                },
                Key::Up | Key::Down => {
                    self.selected_setting = if self.selected_setting == SelectedSetting::Lang {
                        SelectedSetting::Limit
                    } else {
                        SelectedSetting::Lang
                    };
                    proof {
                        assert(self@ =~= toggled(pre));
                    }
                },
                Key::Left => {
                    if self.selected_setting == SelectedSetting::Lang {
                        self.temp_lang = prev_lang(self.temp_lang);
                        proof {
                            assert(self@ =~= (AppModel {
                                temp_lang: crate::lang::spec_prev_lang(pre.temp_lang),
                                ..pre
                            }));
                        }
                    } else {
                        let v = match parse_limit(&self.temp_limit) {
                            Some(x) => x,
                            None => 1,
                        };
                        let dec = if v <= 1 {
                            1
                        } else {
                            v - 1
                        };
                        self.temp_limit = limit_to_digits(dec);
                        proof {
                            assert(self@ =~= (AppModel {
                                temp_limit: limit_decremented(pre.temp_limit),
                                ..pre
                            }));
                        }
                    }
                },
                Key::Right => {
                    if self.selected_setting == SelectedSetting::Lang {
                        self.temp_lang = next_lang(self.temp_lang);
                        proof {
                            assert(self@ =~= (AppModel {
                                temp_lang: crate::lang::spec_next_lang(pre.temp_lang),
                                ..pre
                            }));
                        }
                    } else {
                        let v = match parse_limit(&self.temp_limit) {
                            Some(x) => x,
                            None => 0,
                        };
                        let inc = if v >= 65535 {
                            65535
                        } else {
                            v + 1
                        };
                        self.temp_limit = limit_to_digits(inc);
                        proof {
                            assert(self@ =~= (AppModel {
                                temp_limit: limit_incremented(pre.temp_limit),
                                ..pre
                            }));
                        }
                    }
                },
                Key::Char(c) => {
                    let u = c as u32;
                    if 48 <= u && u <= 57 && self.selected_setting == SelectedSetting::Limit {
                        self.temp_limit.push(c);
                        proof {
                            assert(self@ =~= (AppModel {
                                temp_limit: pre.temp_limit.push(c),
                                ..pre
                            }));
                            assert forall|i: int| 0 <= i < self@.temp_limit.len()
                                implies crate::digits::is_digit_char(
                                #[trigger] self@.temp_limit[i],
                            ) by {
                                if i < pre.temp_limit.len() {
                                    assert(self@.temp_limit[i] == pre.temp_limit[i]);
                                    assert(crate::digits::is_digit_char(pre.temp_limit[i]));
                                } else {
                                    assert(self@.temp_limit[i] == c);
                                }
                            }
                        }
                    }
                },
                Key::Backspace => {
                    if self.selected_setting == SelectedSetting::Limit && self.temp_limit.len()
                        > 0 {
                        self.temp_limit.pop();
                        proof {
                            assert(self@ =~= (AppModel {
                                temp_limit: pre.temp_limit.drop_last(),
                                ..pre
                            }));
                            assert forall|i: int| 0 <= i < self@.temp_limit.len()
                                implies crate::digits::is_digit_char(
                                #[trigger] self@.temp_limit[i],
                            ) by {
                                assert(self@.temp_limit[i] == pre.temp_limit[i]);
                                assert(crate::digits::is_digit_char(pre.temp_limit[i]));
                            }
                        }
                    }
                },
                Key::Enter => {
                    self.apply_settings();
                    self.app_state = AppState::Input;
                    if self.settings_changed {
                        self.restart();
                        self.settings_changed = false;
                    }
                    proof {
                        assert(self@ =~= settings_closed(applied_settings(pre),
                            self@.current_word));
                    }
                },
                _ => {},
                }
                proof { assert(self@ =~= step(pre, key, now, self@.current_word)); }
            },
        }
    }
}

} // verus!
