use vstd::prelude::*;

use crate::model::{effective_limit, step, wf_model, AppModel};
use crate::session::{AppState, Key};

verus! {

/// The session-level bound the state machine maintains: never more completed
/// words than the limit, and the results screen is open exactly when the limit
/// is reached.
pub open spec fn session_inv(s: AppModel) -> bool {
    &&& s.words.len() <= s.words_limit
    &&& ((s.state is Results) <==> s.words.len() == s.words_limit)
}

/// Law: every key event preserves the session bound — the completed words
/// never exceed the limit, and the results phase holds exactly when the count
/// reaches it.  The one exception is opening the settings screen from the
/// results screen: that keeps the completed words of the finished session
/// while leaving the results phase, so the bound does not survive it.
pub proof fn lemma_step_preserves_session_inv(pre: AppModel, key: Key, now: u64, w: Seq<char>)
    requires
        wf_model(pre),
        session_inv(pre),
        !(pre.state is Results && key == Key::Char('s')),
    ensures
        session_inv(step(pre, key, now, w)),
{
}

/// Law: a commit of staged settings equal to the live values does not restart
/// the session: completed words, typed input, timing and configuration all
/// stay untouched; only the phase returns to typing.
pub proof fn lemma_commit_unchanged_no_restart(pre: AppModel, now: u64, w: Seq<char>)
    requires
        wf_model(pre),
        pre.state is Settings,
        !pre.settings_changed,
        pre.temp_lang == pre.lang,
        effective_limit(pre.temp_limit, pre.words_limit) == pre.words_limit,
    ensures
        step(pre, Key::Enter, now, w) == (AppModel { state: AppState::Input, ..pre }),
{
}

/// Law: a commit with a changed limit or language restarts the session in
/// full: completed words and typed input are cleared, timing is reset, a fresh
/// target word is drawn, and the staged values become live.
pub proof fn lemma_commit_changed_restarts(pre: AppModel, now: u64, w: Seq<char>)
    requires
        wf_model(pre),
        pre.state is Settings,
        !pre.settings_changed,
        pre.temp_lang != pre.lang || effective_limit(pre.temp_limit, pre.words_limit)
            != pre.words_limit,
    ensures
        ({
            let post = step(pre, Key::Enter, now, w);
            &&& post.words.len() == 0
            &&& post.input.len() == 0
            &&& post.wrong_words.len() == 0
            &&& post.start is None
            &&& post.finished_millis is None
            &&& post.state is Input
            &&& post.words_limit == effective_limit(pre.temp_limit, pre.words_limit)
            &&& post.lang == pre.temp_lang
            &&& post.current_word == w
            &&& !post.settings_changed
        }),
{
}

/// Law: pausing and then resuming leaves the elapsed time the session reports
/// unchanged, because the paused interval is excluded: for a session started
/// at `start`, paused at `p`, resumed at `r` by any key that resumes, the
/// elapsed time measured at any later instant `f` is the active time before
/// the pause plus the active time after the resume.
pub proof fn lemma_pause_resume_excludes_gap(
    pre: AppModel,
    p: u64,
    r: u64,
    f: u64,
    k: Key,
    w1: Seq<char>,
    w2: Seq<char>,
)
    requires
        wf_model(pre),
        pre.state is Input,
        pre.start is Some,
        pre.start->0 <= p <= r <= f,
        pre.start->0 + (r - p) <= u64::MAX,
        (k matches Key::Char(c) ==> c != 'q' && c != 's'),
    ensures
        ({
            let paused = step(pre, Key::Esc, p, w1);
            let back = step(paused, k, r, w2);
            &&& back.state is Input
            &&& back.start == Some((pre.start->0 + (r - p)) as u64)
            &&& f - back.start->0 == (p - pre.start->0) + (f - r)
        }),
{
}

} // verus!
