use vstd::prelude::*;

use crate::model::{wf_word, WordModel};
use crate::session::App;

verus! {

/// The total number of characters over all completed words.
pub open spec fn total_chars(words: Seq<WordModel>) -> nat
    decreases words.len(),
{
    if words.len() == 0 {
        0
    } else {
        total_chars(words.drop_last()) + words.last().word.len()
    }
}

/// The total number of wrongly typed character indices over all completed words.
pub open spec fn total_wrong(words: Seq<WordModel>) -> nat
    decreases words.len(),
{
    if words.len() == 0 {
        0
    } else {
        total_wrong(words.drop_last()) + words.last().wrong_chars.len()
    }
}

/// Aggregate accuracy in hundredths of a percent: 10000 means 100%.  With no
/// typed characters the accuracy is 100%.
pub open spec fn accuracy_bp(words: Seq<WordModel>) -> int {
    let t = total_chars(words) as int;
    let w = total_wrong(words) as int;
    if t == 0 {
        10000
    } else {
        (t - w) * 10000 / t
    }
}

/// The totals of a prefix never exceed the totals of the whole.
proof fn lemma_total_prefix(words: Seq<WordModel>, i: int)
    requires
        0 <= i <= words.len(),
    ensures
        total_chars(words.take(i)) <= total_chars(words),
        total_wrong(words.take(i)) <= total_wrong(words),
    decreases words.len() - i,
{
    if i < words.len() {
        assert(words.take(i + 1).drop_last() =~= words.take(i));
        assert(words.take(i + 1).last() == words[i]);
        lemma_total_prefix(words, i + 1);
    } else {
        assert(words.take(i) =~= words);
    }
}

/// Over well-formed words there are never more wrong characters than characters.
pub proof fn lemma_wrong_le_chars(words: Seq<WordModel>)
    requires
        forall|i: int| 0 <= i < words.len() ==> wf_word(#[trigger] words[i]),
    ensures
        total_wrong(words) <= total_chars(words),
    decreases words.len(),
{
    if words.len() > 0 {
        let prefix = words.drop_last();
        assert(forall|i: int| 0 <= i < prefix.len() ==> prefix[i] == words[i]);
        lemma_wrong_le_chars(prefix);
        assert(wf_word(words.last()));
    }
}

/// Law: accuracy always lies in [0%, 100%], and with zero typed characters it
/// is exactly 100%.
pub proof fn lemma_accuracy_in_range(words: Seq<WordModel>)
    requires
        forall|i: int| 0 <= i < words.len() ==> wf_word(#[trigger] words[i]),
    ensures
        0 <= accuracy_bp(words) <= 10000,
        total_chars(words) == 0 ==> accuracy_bp(words) == 10000,
{
    let t = total_chars(words) as int;
    let w = total_wrong(words) as int;
    if t != 0 {
        lemma_wrong_le_chars(words);
        assert((t - w) * 10000 <= t * 10000) by (nonlinear_arith)
            requires 0 <= w && w <= t,
        {
        }
        vstd::arithmetic::div_mod::lemma_div_is_ordered((t - w) * 10000, t * 10000, t);
        vstd::arithmetic::div_mod::lemma_div_multiples_vanish(10000, t);
        assert(0 <= (t - w) * 10000) by (nonlinear_arith)
            requires 0 <= w && w <= t,
        {
        }
        vstd::arithmetic::div_mod::lemma_div_is_ordered(0, (t - w) * 10000, t);
    }
}

impl App {
    /// Aggregate accuracy over the completed words, in hundredths of a percent
    /// (10000 means 100%): the share of characters that were typed right.
    /// With zero typed characters the accuracy is 100%.
    pub fn calculate_accuracy(&self) -> (r: u32)
        requires
            self.wf(),
            total_chars(self@.words) <= usize::MAX,
        ensures
            r == accuracy_bp(self@.words),
            r <= 10000,
            total_chars(self@.words) == 0 ==> r == 10000,
    {
        let ghost ws = self@.words;
        let mut total: usize = 0;
        let mut wrong: usize = 0;
        let mut i: usize = 0;
        while i < self.words.len()
            invariant
                self.wf(),
                ws == self@.words,
                total_chars(ws) <= usize::MAX,
                0 <= i <= ws.len(),
                total == total_chars(ws.take(i as int)),
                wrong == total_wrong(ws.take(i as int)),
                wrong <= total,
            decreases ws.len() - i,
        {
            proof {
                assert(ws.take(i + 1).drop_last() =~= ws.take(i as int));
                assert(ws.take(i + 1).last() == ws[i as int]);
                lemma_total_prefix(ws, i + 1);
                assert(wf_word(ws[i as int]));
            }
            let wlen = self.words[i].word.len();
            let wwrong = self.words[i].wrong_chars.len();
            proof {
                assert(ws[i as int] == self.words@[i as int]@);
                assert(wlen == ws[i as int].word.len());
                assert(wwrong <= wlen);
            }
            total = total + wlen;
            wrong = wrong + wwrong;
            i = i + 1;
        }
        proof {
            assert(ws.take(ws.len() as int) =~= ws);
        }
        if total == 0 {
            10000
        } else {
            let correct = total - wrong;
            let bp = (correct as u128) * 10000 / (total as u128);
            proof {
                let t = total as int;
                let w = wrong as int;
                assert((t - w) * 10000 <= t * 10000) by (nonlinear_arith)
                    requires 0 <= w && w <= t,
                {
                }
                vstd::arithmetic::div_mod::lemma_div_is_ordered((t - w) * 10000, t * 10000, t);
                vstd::arithmetic::div_mod::lemma_div_multiples_vanish(10000, t);
            }
            bp as u32
        }
    }

    /// Aggregate accuracy like `calculate_accuracy`, with the machine limit
    /// checked instead of assumed: yields the accuracy exactly when the
    /// character total fits in `usize`, and nothing when it does not.
    pub fn try_calculate_accuracy(&self) -> (r: Option<u32>)
        requires
            self.wf(),
        ensures
            r is Some <==> total_chars(self@.words) <= usize::MAX,
            r is Some ==> r->0 == accuracy_bp(self@.words) && r->0 <= 10000,
    {
        let ghost ws = self@.words;
        let mut total: usize = 0;
        let mut i: usize = 0;
        while i < self.words.len()
            invariant
                self.wf(),
                ws == self@.words,
                0 <= i <= ws.len(),
                total == total_chars(ws.take(i as int)),
            decreases ws.len() - i,
        {
            proof {
                assert(ws.take(i + 1).drop_last() =~= ws.take(i as int));
                assert(ws.take(i + 1).last() == ws[i as int]);
                assert(ws[i as int] == self.words@[i as int]@);
            }
            let wlen = self.words[i].word.len();
            total = match total.checked_add(wlen) {
                Some(t2) => t2,
                None => {
                    proof {
                        lemma_total_prefix(ws, i + 1);
                    }
                    return None;
                },
            };
            i = i + 1;
        }
        proof {
            assert(ws.take(ws.len() as int) =~= ws);
        }
        Some(self.calculate_accuracy())
    }
}

} // verus!
