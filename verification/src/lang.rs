use vstd::prelude::*;

verus! {

/// The dictionary languages the trainer supports.
#[derive(Clone, Copy, PartialEq, Eq, Structural, Debug)]
pub enum Lang {
    En,
    Ru,
    De,
    Es,
    Fr,
    Ja,
    Zh,
}

/// One step forward in the fixed circular ordering the settings screen cycles through.
pub open spec fn spec_next_lang(lang: Lang) -> Lang {
    match lang {
        Lang::En => Lang::Ru,
        Lang::Ru => Lang::De,
        Lang::De => Lang::Es,
        Lang::Es => Lang::Fr,
        Lang::Fr => Lang::Ja,
        Lang::Ja => Lang::Zh,
        Lang::Zh => Lang::En,
    }
}

/// One step backward in the fixed circular ordering.
pub open spec fn spec_prev_lang(lang: Lang) -> Lang {
    match lang {
        Lang::En => Lang::Zh,
        Lang::Ru => Lang::En,
        Lang::De => Lang::Ru,
        Lang::Es => Lang::De,
        Lang::Fr => Lang::Es,
        Lang::Ja => Lang::Fr,
        Lang::Zh => Lang::Ja,
    }
}

pub fn next_lang(lang: Lang) -> (r: Lang)
    ensures
        r == spec_next_lang(lang),
{
    match lang {
        Lang::En => Lang::Ru,
        Lang::Ru => Lang::De,
        Lang::De => Lang::Es,
        Lang::Es => Lang::Fr,
        Lang::Fr => Lang::Ja,
        Lang::Ja => Lang::Zh,
        Lang::Zh => Lang::En,
    }
}

pub fn prev_lang(lang: Lang) -> (r: Lang)
    ensures
        r == spec_prev_lang(lang),
{
    match lang {
        Lang::En => Lang::Zh,
        Lang::Ru => Lang::En,
        Lang::De => Lang::Ru,
        Lang::Es => Lang::De,
        Lang::Fr => Lang::Es,
        Lang::Ja => Lang::Fr,
        Lang::Zh => Lang::Ja,
    }
}

/// Law: the language ordering is circular and the two directions are inverses,
/// so cycling wraps around in both directions.
pub proof fn lemma_lang_cycle(lang: Lang)
    ensures
        spec_prev_lang(spec_next_lang(lang)) == lang,
        spec_next_lang(spec_prev_lang(lang)) == lang,
{
}

/// The language selected by a two-letter code, either case accepted.
pub open spec fn lang_code_of(a: char, b: char) -> Option<Lang> {
    if (a == 'R' || a == 'r') && (b == 'U' || b == 'u') {
        Some(Lang::Ru)
    } else if (a == 'D' || a == 'd') && (b == 'E' || b == 'e') {
        Some(Lang::De)
    } else if (a == 'E' || a == 'e') && (b == 'S' || b == 's') {
        Some(Lang::Es)
    } else if (a == 'F' || a == 'f') && (b == 'R' || b == 'r') {
        Some(Lang::Fr)
    } else if (a == 'J' || a == 'j') && (b == 'A' || b == 'a') {
        Some(Lang::Ja)
    } else if (a == 'Z' || a == 'z') && (b == 'H' || b == 'h') {
        Some(Lang::Zh)
    } else if (a == 'E' || a == 'e') && (b == 'N' || b == 'n') {
        Some(Lang::En)
    } else {
        None
    }
}

/// The language named by a configuration code: exactly two letters,
/// matched without regard to case.
pub open spec fn spec_get_lang(s: Seq<char>) -> Option<Lang> {
    if s.len() == 2 {
        lang_code_of(s[0], s[1])
    } else {
        None
    }
}

pub fn get_lang(code: &Vec<char>) -> (r: Option<Lang>)
    ensures
        r == spec_get_lang(code@),
{
    if code.len() == 2 {
        let a = code[0];
        let b = code[1];
        if (a == 'R' || a == 'r') && (b == 'U' || b == 'u') {
            Some(Lang::Ru)
        } else if (a == 'D' || a == 'd') && (b == 'E' || b == 'e') {
            Some(Lang::De)
        } else if (a == 'E' || a == 'e') && (b == 'S' || b == 's') {
            Some(Lang::Es)
        } else if (a == 'F' || a == 'f') && (b == 'R' || b == 'r') {
            Some(Lang::Fr)
        } else if (a == 'J' || a == 'j') && (b == 'A' || b == 'a') {
            Some(Lang::Ja)
        } else if (a == 'Z' || a == 'z') && (b == 'H' || b == 'h') {
            Some(Lang::Zh)
        } else if (a == 'E' || a == 'e') && (b == 'N' || b == 'n') {
            Some(Lang::En)
        } else {
            None
        }
    } else {
        None
    }
}

} // verus!
