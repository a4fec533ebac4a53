use vstd::prelude::*;

verus! {

/// Whether a character is a decimal digit.
pub open spec fn is_digit_char(c: char) -> bool {
    48 <= c as u32 && c as u32 <= 57
}

/// The numeric value of a decimal digit character.
pub open spec fn digit_val(c: char) -> nat {
    (c as u32 - 48) as nat
}

/// Whether every character of the text is a decimal digit.
pub open spec fn all_digits(s: Seq<char>) -> bool {
    forall|i: int| 0 <= i < s.len() ==> is_digit_char(#[trigger] s[i])
}

/// The number a digit text denotes, most significant digit first.
pub open spec fn digits_to_nat(s: Seq<char>) -> nat
    decreases s.len(),
{
    if s.len() == 0 {
        0
    } else {
        digits_to_nat(s.drop_last()) * 10 + digit_val(s.last())
    }
}

/// What parsing the staged limit text yields: a number exactly when the text
/// is non-empty, all digits, and the value fits in `usize`.
pub open spec fn parse_limit_spec(s: Seq<char>) -> Option<usize> {
    if s.len() >= 1 && all_digits(s) && digits_to_nat(s) <= usize::MAX {
        Some(digits_to_nat(s) as usize)
    } else {
        None
    }
}

/// The canonical decimal text of a number: no leading zero except for zero itself.
pub open spec fn nat_to_digits(n: nat) -> Seq<char>
    decreases n,
{
    if n < 10 {
        seq![spec_digit_char(n)]
    } else {
        nat_to_digits(n / 10).push(spec_digit_char(n % 10))
    }
}

/// The decimal digit character with the given value.
pub open spec fn spec_digit_char(d: nat) -> char {
    if d == 0 {
        '0'
    } else if d == 1 {
        '1'
    } else if d == 2 {
        '2'
    } else if d == 3 {
        '3'
    } else if d == 4 {
        '4'
    } else if d == 5 {
        '5'
    } else if d == 6 {
        '6'
    } else if d == 7 {
        '7'
    } else if d == 8 {
        '8'
    } else {
        '9'
    }
}

fn digit_char(d: usize) -> (r: char)
    requires
        d < 10,
    ensures
        r == spec_digit_char(d as nat),
        is_digit_char(r),
        digit_val(r) == d,
{
    if d == 0 {
        '0'
    } else if d == 1 {
        '1'
    } else if d == 2 {
        '2'
    } else if d == 3 {
        '3'
    } else if d == 4 {
        '4'
    } else if d == 5 {
        '5'
    } else if d == 6 {
        '6'
    } else if d == 7 {
        '7'
    } else if d == 8 {
        '8'
    } else {
        '9'
    }
}

/// A digit text denotes at least as much as any of its prefixes.
proof fn lemma_digits_prefix_le(s: Seq<char>, i: int)
    requires
        0 <= i <= s.len(),
    ensures
        digits_to_nat(s.take(i)) <= digits_to_nat(s),
    decreases s.len() - i,
{
    if i < s.len() {
        assert(s.take(i + 1).drop_last() =~= s.take(i));
        assert(s.take(i + 1).last() == s[i]);
        assert(digits_to_nat(s.take(i)) <= digits_to_nat(s.take(i + 1)));
        lemma_digits_prefix_le(s, i + 1);
    } else {
        assert(s.take(i) =~= s);
    }
}

/// Parse a decimal digit text as a number.  Yields the denoted value exactly
/// when the text is non-empty, entirely digits, and the value fits in `usize`;
/// yields nothing otherwise.
pub fn parse_limit(s: &Vec<char>) -> (r: Option<usize>)
    ensures
        r == parse_limit_spec(s@),
{
    let mut acc: usize = 0;
    let mut i: usize = 0;
    while i < s.len()
        invariant
            0 <= i <= s@.len(),
            all_digits(s@.take(i as int)),
            acc == digits_to_nat(s@.take(i as int)),
        decreases s@.len() - i,
    {
        let c = s[i];
        let u = c as u32;
        if !(48 <= u && u <= 57) {
            assert(!all_digits(s@));
            return None;
        }
        let d = (u - 48) as usize;
        proof {
            assert(s@.take(i + 1).drop_last() =~= s@.take(i as int));
            assert(s@.take(i + 1).last() == s@[i as int]);
        }
        if acc > (usize::MAX - d) / 10 {
            proof {
                let q = (usize::MAX - d) as int / 10;
                vstd::arithmetic::div_mod::lemma_fundamental_div_mod((usize::MAX - d) as int, 10);
                assert(acc * 10 >= (q + 1) * 10) by (nonlinear_arith)
                    requires acc as int > q,
                {
                }
                assert(digits_to_nat(s@.take(i + 1)) > usize::MAX);
                lemma_digits_prefix_le(s@, i + 1);
            }
            return None;
        }
        proof {
            let q = (usize::MAX - d) as int / 10;
            vstd::arithmetic::div_mod::lemma_fundamental_div_mod((usize::MAX - d) as int, 10);
            assert(acc * 10 <= q * 10) by (nonlinear_arith)
                requires acc as int <= q,
            {
            }
        }
        acc = acc * 10 + d;
        i = i + 1;
    }
    proof {
        assert(s@.take(i as int) =~= s@);
    }
    if s.len() == 0 {
        None
    } else {
        Some(acc)
    }
}

/// Render a number as its canonical decimal text.
pub fn limit_to_digits(n: usize) -> (r: Vec<char>)
    ensures
        r@ == nat_to_digits(n as nat),
        r@.len() >= 1,
        all_digits(r@),
        digits_to_nat(r@) == n,
        n > 0 ==> r@[0] != '0',
    decreases n,
{
    if n < 10 {
        let mut v: Vec<char> = Vec::new();
        let c = digit_char(n);
        v.push(c);
        proof {
            assert(v@ =~= seq![c]);
            assert(v@.drop_last() =~= Seq::<char>::empty());
            assert(digits_to_nat(Seq::<char>::empty()) == 0);
            assert(digits_to_nat(v@) == digit_val(c));
        }
        v
    } else {
        let mut v = limit_to_digits(n / 10);
        let ghost prefix = v@;
        let d = n % 10;
        let c = digit_char(d);
        v.push(c);
        proof {
            assert(v@.drop_last() =~= prefix);
            assert(v@.last() == c);
            assert(digits_to_nat(v@) == digits_to_nat(prefix) * 10 + digit_val(c));
            vstd::arithmetic::div_mod::lemma_fundamental_div_mod(n as int, 10);
            assert(digits_to_nat(v@) == n);
            assert(forall|i: int|
                0 <= i < v@.len() ==> is_digit_char(#[trigger] v@[i]));
        }
        v
    }
}

} // verus!
