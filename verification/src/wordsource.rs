use vstd::prelude::*;

use crate::lang::Lang;

verus! {

/// Relies on random_word::get: one random word from the embedded list of the
/// given language.  The word depends on a random draw, so nothing is assumed
/// of the text that comes back; the caller guards it.  random_word::get would
/// panic only on an empty embedded word list; its documentation examples
/// assert that the lists of every shipped language are non-empty.
#[verifier::external_body]
fn draw_word(lang: Lang) -> (r: Vec<char>) {
    let l = match lang {
        Lang::En => random_word::Lang::En,
        Lang::Ru => random_word::Lang::Ru,
        Lang::De => random_word::Lang::De,
        Lang::Es => random_word::Lang::Es,
        Lang::Fr => random_word::Lang::Fr,
        Lang::Ja => random_word::Lang::Ja,
        Lang::Zh => random_word::Lang::Zh,
    };
    random_word::get(l).chars().collect()
}

/// One fresh target word.  The word source is specified never to hand back
/// empty text; the guard makes the session invariant independent of that, so
/// a target word is never empty whatever the source returned.
pub fn fresh_word(lang: Lang) -> (r: Vec<char>)
    ensures
        r@.len() >= 1,
{
    let w = draw_word(lang);
    if w.len() >= 1 {
        w
    } else {
        vec!['?']
    }
}

} // verus!
