//! Small verified helpers on strings and decimal numerals that the rest
//! of the crate builds on: character-exact string comparison, prefix
//! tests, and a decimal rendering of `u64` values with a proved
//! round-trip through parsing.

use vstd::prelude::*;

verus! {

/// Character-exact equality of two string slices.
pub fn str_eq(a: &str, b: &str) -> (r: bool)
    ensures
        r == (a@ == b@),
{
    let na: usize = a.unicode_len();
    let nb: usize = b.unicode_len();
    if na != nb {
        assert(a@.len() != b@.len());
        return false;
    }
    let mut i: usize = 0;
    while i < na
        invariant
            na == a@.len(),
            na == b@.len(),
            i <= na,
            forall|j: int| 0 <= j < i ==> a@[j] == b@[j],
        decreases na - i,
    {
        if a.get_char(i) != b.get_char(i) {
            assert(a@[i as int] != b@[i as int]);
            return false;
        }
        i = i + 1;
    }
    proof {
        assert(a@ =~= b@);
    }
    true
}

/// Does `s` start with `prefix`, character for character?
pub fn str_starts_with(s: &str, prefix: &str) -> (r: bool)
    ensures
        r == (prefix@.len() <= s@.len() && s@.subrange(0, prefix@.len() as int) == prefix@),
{
    let ns: usize = s.unicode_len();
    let np: usize = prefix.unicode_len();
    if np > ns {
        return false;
    }
    let mut i: usize = 0;
    while i < np
        invariant
            ns == s@.len(),
            np == prefix@.len(),
            np <= ns,
            i <= np,
            forall|j: int| 0 <= j < i ==> s@[j] == prefix@[j],
        decreases np - i,
    {
        if s.get_char(i) != prefix.get_char(i) {
            assert(s@.subrange(0, np as int)[i as int] != prefix@[i as int]);
            return false;
        }
        i = i + 1;
    }
    proof {
        assert(s@.subrange(0, np as int) =~= prefix@);
    }
    true
}

/// The character for a single decimal digit value.
pub open spec fn digit_char(d: nat) -> char {
    if d == 0 { '0' }
    else if d == 1 { '1' }
    else if d == 2 { '2' }
    else if d == 3 { '3' }
    else if d == 4 { '4' }
    else if d == 5 { '5' }
    else if d == 6 { '6' }
    else if d == 7 { '7' }
    else if d == 8 { '8' }
    else if d == 9 { '9' }
    else { '?' }
}

/// Is `c` a decimal digit?
pub open spec fn is_digit(c: char) -> bool {
    '0' <= c <= '9'
}

/// The numeric value of a decimal digit character.
pub open spec fn digit_val(c: char) -> nat {
    (c as nat - '0' as nat) as nat
}

/// The decimal numeral of `n`, most significant digit first.
pub open spec fn dec_digits(n: nat) -> Seq<char>
    decreases n,
{
    if n < 10 {
        seq![digit_char(n)]
    } else {
        dec_digits(n / 10) + seq![digit_char(n % 10)]
    }
}

/// The value of a string of decimal digits; meaningful only when every
/// character satisfies `is_digit`.
pub open spec fn dec_val(s: Seq<char>) -> nat
    decreases s.len(),
{
    if s.len() == 0 {
        0
    } else {
        dec_val(s.drop_last()) * 10 + digit_val(s.last())
    }
}

/// Does `s` consist of one or more decimal digits?
pub open spec fn all_digits(s: Seq<char>) -> bool {
    forall|i: int| 0 <= i < s.len() ==> is_digit(#[trigger] s[i])
}

proof fn lemma_digit_char_val(d: nat)
    requires
        d < 10,
    ensures
        is_digit(digit_char(d)),
        digit_val(digit_char(d)) == d,
{
}

/// A decimal numeral consists of digits and parses back to its value.
pub proof fn lemma_dec_round_trip(n: nat)
    ensures
        dec_digits(n).len() >= 1,
        all_digits(dec_digits(n)),
        dec_val(dec_digits(n)) == n,
    decreases n,
{
    if n < 10 {
        lemma_digit_char_val(n);
        let s = dec_digits(n);
        assert(s =~= seq![digit_char(n)]);
        assert(s.drop_last() =~= Seq::<char>::empty());
        assert(dec_val(s.drop_last()) == 0);
        assert(s.last() == digit_char(n));
        assert(dec_val(s) == 0 * 10 + digit_val(digit_char(n)));
    } else {
        lemma_dec_round_trip(n / 10);
        lemma_digit_char_val(n % 10);
        let whole = dec_digits(n);
        let head = dec_digits(n / 10);
        assert(whole =~= head + seq![digit_char(n % 10)]);
        assert(whole.drop_last() =~= head);
        assert(whole.last() == digit_char(n % 10));
        assert(dec_val(whole) == dec_val(head) * 10 + (n % 10));
        assert((n / 10) * 10 + n % 10 == n) by (nonlinear_arith);
    }
}

/// Extending a digit string on the right never decreases its value.
pub proof fn lemma_dec_val_prefix(s: Seq<char>, k: int)
    requires
        0 <= k <= s.len(),
    ensures
        dec_val(s.subrange(0, k)) <= dec_val(s),
    decreases s.len() - k,
{
    if k == s.len() {
        assert(s.subrange(0, k) =~= s);
    } else {
        lemma_dec_val_prefix(s, k + 1);
        let shorter = s.subrange(0, k);
        let longer = s.subrange(0, k + 1);
        assert(longer.drop_last() =~= shorter);
        assert(dec_val(longer) == dec_val(shorter) * 10 + digit_val(longer.last()));
        assert(dec_val(shorter) * 10 >= dec_val(shorter)) by (nonlinear_arith);
    }
}

/// Render `n` in decimal, most significant digit first.
pub fn render_u64(n: u64) -> (r: String)
    ensures
        r@ == dec_digits(n as nat),
{
    let mut digits_rev: Vec<char> = Vec::new();
    let mut rest: u64 = n;
    loop
        invariant_except_break
            dec_digits(n as nat) == dec_digits(rest as nat) + digits_rev@.reverse(),
            forall|i: int| 0 <= i < digits_rev@.len() ==> is_digit(#[trigger] digits_rev@[i]),
        ensures
            dec_digits(n as nat) == digits_rev@.reverse(),
            forall|i: int| 0 <= i < digits_rev@.len() ==> is_digit(#[trigger] digits_rev@[i]),
        decreases rest,
    {
        let d: u64 = rest % 10;
        let digit: char = match d {
            0 => '0',
            1 => '1',
            2 => '2',
            3 => '3',
            4 => '4',
            5 => '5',
            6 => '6',
            7 => '7',
            8 => '8',
            _ => '9',
        };
        proof {
            assert(digit == digit_char((rest % 10) as nat));
        }
        let ghost old_rev = digits_rev@;
        digits_rev.push(digit);
        if rest < 10 {
            proof {
                assert(dec_digits(rest as nat) =~= seq![digit_char(rest as nat)]);
                assert(digits_rev@.reverse() =~= seq![digit] + old_rev.reverse());
                assert(dec_digits(n as nat) =~= digits_rev@.reverse());
            }
            break;
        }
        proof {
            assert(dec_digits(rest as nat) =~= dec_digits((rest / 10) as nat) + seq![
                digit_char((rest % 10) as nat),
            ]);
            assert(digits_rev@.reverse() =~= seq![digit] + old_rev.reverse());
            assert(dec_digits((rest / 10) as nat) + digits_rev@.reverse() =~= dec_digits(
                rest as nat,
            ) + old_rev.reverse());
        }
        rest = rest / 10;
    }
    let mut out = String::new();
    let mut i: usize = digits_rev.len();
    proof {
        assert(digits_rev@.reverse().subrange(0, 0) =~= Seq::<char>::empty());
    }
    while i > 0
        invariant
            i <= digits_rev@.len(),
            out@ == digits_rev@.reverse().subrange(0, digits_rev@.len() - i),
            forall|j: int| 0 <= j < digits_rev@.len() ==> is_digit(#[trigger] digits_rev@[j]),
        decreases i,
    {
        i = i - 1;
        let c: char = digits_rev[i];
        push_digit_char(&mut out, c);
        proof {
            let rev = digits_rev@.reverse();
            let done = digits_rev@.len() - i;
            assert(rev[done - 1] == digits_rev@[i as int]);
            assert(out@ =~= rev.subrange(0, done));
        }
    }
    proof {
        assert(out@ =~= digits_rev@.reverse());
        assert(dec_digits(n as nat) =~= dec_digits(n as nat) + Seq::<char>::empty());
    }
    out
}

/// Append one decimal digit character to `out`.
fn push_digit_char(out: &mut String, c: char)
    requires
        is_digit(c),
    ensures
        final(out)@ == old(out)@ + seq![c],
{
    let lit: &str = match c {
        '0' => "0",
        '1' => "1",
        '2' => "2",
        '3' => "3",
        '4' => "4",
        '5' => "5",
        '6' => "6",
        '7' => "7",
        '8' => "8",
        _ => "9",
    };
    proof {
        reveal_strlit("0");
        reveal_strlit("1");
        reveal_strlit("2");
        reveal_strlit("3");
        reveal_strlit("4");
        reveal_strlit("5");
        reveal_strlit("6");
        reveal_strlit("7");
        reveal_strlit("8");
        reveal_strlit("9");
        assert(lit@ =~= seq![c]);
    }
    out.append(lit);
}

/// Parse a string of decimal digits into a `u64`.
///
/// Returns `Some` exactly when the string is a nonempty run of digits
/// whose value fits in a `u64`.
pub fn parse_u64(s: &str) -> (r: Option<u64>)
    ensures
        match r {
            Some(v) => s@.len() >= 1 && all_digits(s@) && dec_val(s@) == v as nat,
            None => s@.len() == 0 || !all_digits(s@) || dec_val(s@) > u64::MAX,
        },
{
    let n: usize = s.unicode_len();
    if n == 0 {
        return None;
    }
    let mut i: usize = 0;
    let mut val: u64 = 0;
    while i < n
        invariant
            n == s@.len(),
            i <= n,
            forall|j: int| 0 <= j < i ==> is_digit(#[trigger] s@[j]),
            dec_val(s@.subrange(0, i as int)) == val as nat,
        decreases n - i,
    {
        let c: char = s.get_char(i);
        if !('0' <= c && c <= '9') {
            assert(!is_digit(s@[i as int]));
            return None;
        }
        let d: u64 = match c {
            '0' => 0,
            '1' => 1,
            '2' => 2,
            '3' => 3,
            '4' => 4,
            '5' => 5,
            '6' => 6,
            '7' => 7,
            '8' => 8,
            _ => 9,
        };
        proof {
            assert(d as nat == digit_val(c));
        }
        let scaled: u64 = match val.checked_mul(10) {
            Some(x) => x,
            None => {
                proof {
                    overflow_means_too_big(s@, i as int, val as nat * 10 + digit_val(c));
                }
                return None;
            },
        };
        let next: u64 = match scaled.checked_add(d) {
            Some(x) => x,
            None => {
                proof {
                    overflow_means_too_big(s@, i as int, val as nat * 10 + digit_val(c));
                }
                return None;
            },
        };
        proof {
            assert(s@.subrange(0, i + 1).drop_last() =~= s@.subrange(0, i as int));
            assert(s@.subrange(0, i + 1).last() == s@[i as int]);
        }
        val = next;
        i = i + 1;
    }
    proof {
        assert(s@.subrange(0, n as int) =~= s@);
    }
    Some(val)
}

/// If the numeral up to and including position `i` already exceeds
/// `u64::MAX`, so does the whole numeral.
proof fn overflow_means_too_big(s: Seq<char>, i: int, extended: nat)
    requires
        0 <= i < s.len(),
        extended == dec_val(s.subrange(0, i)) * 10 + digit_val(s[i]),
        extended > u64::MAX,
    ensures
        dec_val(s) > u64::MAX,
{
    assert(s.subrange(0, i + 1).drop_last() =~= s.subrange(0, i));
    assert(s.subrange(0, i + 1).last() == s[i]);
    assert(dec_val(s.subrange(0, i + 1)) == extended);
    lemma_dec_val_prefix(s, i + 1);
}

} // verus!
