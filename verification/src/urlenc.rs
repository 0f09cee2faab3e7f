//! Percent-encoding of URL components.
//!
//! Encoding goes through the `urlencoding` crate under an exact
//! contract; decoding — needed only for the loopback callback's query
//! values — is implemented and verified here.

use vstd::prelude::*;

use vstd::string::StringSliceAdditionalSpecFns;

use crate::codec::unesc_glue;

verus! {

/// Bytes that percent-encoding leaves as they are: ASCII alphanumerics
/// and `-`, `.`, `_`, `~`.
pub open spec fn is_unreserved(b: u8) -> bool {
    (0x30 <= b <= 0x39)  // 0-9
        || (0x41 <= b <= 0x5a)  // A-Z
        || (0x61 <= b <= 0x7a)  // a-z
        || b == 0x2d  // -
        || b == 0x2e  // .
        || b == 0x5f  // _
        || b == 0x7e  // ~
}

/// The uppercase hexadecimal digit for a value below sixteen.
pub open spec fn hex_upper(d: u8) -> char {
    if d == 0 { '0' }
    else if d == 1 { '1' }
    else if d == 2 { '2' }
    else if d == 3 { '3' }
    else if d == 4 { '4' }
    else if d == 5 { '5' }
    else if d == 6 { '6' }
    else if d == 7 { '7' }
    else if d == 8 { '8' }
    else if d == 9 { '9' }
    else if d == 10 { 'A' }
    else if d == 11 { 'B' }
    else if d == 12 { 'C' }
    else if d == 13 { 'D' }
    else if d == 14 { 'E' }
    else if d == 15 { 'F' }
    else { '?' }
}

/// How one byte is written: unreserved bytes stand for themselves,
/// every other byte becomes `%` and two uppercase hex digits.
pub open spec fn pe_byte(b: u8) -> Seq<char> {
    if is_unreserved(b) {
        seq![b as char]
    } else {
        seq!['%', hex_upper(b / 16), hex_upper(b % 16)]
    }
}

/// The percent-encoding of a byte string.
pub open spec fn percent_encode(bytes: Seq<u8>) -> Seq<char>
    decreases bytes.len(),
{
    if bytes.len() == 0 {
        Seq::empty()
    } else {
        pe_byte(bytes[0]) + percent_encode(bytes.drop_first())
    }
}

/// Relies on `urlencoding::encode`: percent-encodes every byte of the
/// UTF-8 form of `s` except ASCII alphanumerics and `-`, `_`, `.`, `~`,
/// writing two uppercase hexadecimal digits per escaped byte.
#[verifier::external_body]
pub fn encode_component(s: &str) -> (r: String)
    ensures
        r@ == percent_encode(s.spec_bytes()),
{
    urlencoding::encode(s).into_owned()
}

/// The numeric value of a hexadecimal digit, upper or lower case;
/// meaningful only for hex digits.
pub open spec fn hex_val(c: char) -> nat {
    if '0' <= c <= '9' {
        (c as nat - '0' as nat) as nat
    } else if 'A' <= c <= 'F' {
        (c as nat - 'A' as nat + 10) as nat
    } else if 'a' <= c <= 'f' {
        (c as nat - 'a' as nat + 10) as nat
    } else {
        0
    }
}

/// Is `c` a hexadecimal digit?
pub open spec fn is_hex(c: char) -> bool {
    ('0' <= c <= '9') || ('A' <= c <= 'F') || ('a' <= c <= 'f')
}

/// Percent-decoding of a query value, as the loopback callback needs
/// it: `%XX` escapes and `+`-for-space are undone. Only escapes of
/// visible ASCII are accepted — an OAuth authorization code is plain
/// visible ASCII, so anything else marks a malformed callback.
pub open spec fn percent_decode(s: Seq<char>) -> Option<Seq<char>>
    decreases s.len(),
{
    if s.len() == 0 {
        Some(Seq::empty())
    } else if s[0] == '%' {
        if s.len() >= 3 && is_hex(s[1]) && is_hex(s[2]) {
            let v = 16 * hex_val(s[1]) + hex_val(s[2]);
            if 0x20 <= v <= 0x7e {
                match percent_decode(s.skip(3)) {
                    Some(r) => Some(seq![v as u8 as char] + r),
                    None => None,
                }
            } else {
                None
            }
        } else {
            None
        }
    } else if s[0] == '+' {
        match percent_decode(s.skip(1)) {
            Some(r) => Some(seq![' '] + r),
            None => None,
        }
    } else {
        match percent_decode(s.skip(1)) {
            Some(r) => Some(seq![s[0]] + r),
            None => None,
        }
    }
}

/// The numeric value of a hexadecimal digit character.
fn hex_digit_val(c: char) -> (r: u8)
    requires
        is_hex(c),
    ensures
        r as nat == hex_val(c),
        r < 16,
{
    match c {
        '0' => 0,
        '1' => 1,
        '2' => 2,
        '3' => 3,
        '4' => 4,
        '5' => 5,
        '6' => 6,
        '7' => 7,
        '8' => 8,
        '9' => 9,
        'A' | 'a' => 10,
        'B' | 'b' => 11,
        'C' | 'c' => 12,
        'D' | 'd' => 13,
        'E' | 'e' => 14,
        _ => 15,
    }
}

/// Relies on `alloc::string::String::push`: appends exactly the given
/// character to the end of the string.
#[verifier::external_body]
fn push_one_char(out: &mut String, c: char)
    ensures
        final(out)@ == old(out)@ + seq![c],
{
    out.push(c);
}

/// Undo percent-encoding on a query value.
pub fn decode_component(s: &str) -> (r: Option<String>)
    ensures
        match r {
            Some(v) => percent_decode(s@) == Some(v@),
            None => percent_decode(s@) is None,
        },
{
    let n: usize = s.unicode_len();
    let mut out = String::new();
    let mut i: usize = 0;
    proof {
        assert(s@.subrange(0, n as int) =~= s@);
        match percent_decode(s@) {
            Some(r) => {
                assert(Seq::<char>::empty() + r =~= r);
            },
            None => {},
        }
    }
    while i < n
        invariant
            n == s@.len(),
            i <= n,
            percent_decode(s@) == unesc_glue(out@, percent_decode(s@.subrange(i as int, n as int))),
        decreases n - i,
    {
        let ghost rem = s@.subrange(i as int, n as int);
        let ghost old_out = out@;
        let c: char = s.get_char(i);
        proof {
            assert(rem[0] == s@[i as int]);
        }
        if c == '%' {
            if n - i < 3 {
                proof {
                    assert(rem.len() < 3);
                    assert(percent_decode(rem) is None);
                }
                return None;
            }
            let h1: char = s.get_char(i + 1);
            let h2: char = s.get_char(i + 2);
            proof {
                assert(rem[1] == s@[i + 1]);
                assert(rem[2] == s@[i + 2]);
            }
            let hex1 = ('0' <= h1 && h1 <= '9') || ('A' <= h1 && h1 <= 'F') || ('a' <= h1 && h1
                <= 'f');
            let hex2 = ('0' <= h2 && h2 <= '9') || ('A' <= h2 && h2 <= 'F') || ('a' <= h2 && h2
                <= 'f');
            if !hex1 || !hex2 {
                proof {
                    assert(percent_decode(rem) is None);
                }
                return None;
            }
            let v: u8 = 16 * hex_digit_val(h1) + hex_digit_val(h2);
            if v < 0x20 || v > 0x7e {
                proof {
                    assert(percent_decode(rem) is None);
                }
                return None;
            }
            push_one_char(&mut out, v as char);
            proof {
                assert(out@ =~= old_out + seq![v as char]);
                let rest = s@.subrange(i + 3, n as int);
                assert(rem.skip(3) =~= rest);
                assert(percent_decode(rem) == unesc_glue(seq![v as char], percent_decode(rest)));
                match percent_decode(rest) {
                    Some(r) => {
                        assert(old_out + (seq![v as char] + r) =~= out@ + r);
                    },
                    None => {},
                }
            }
            i = i + 3;
        } else {
            let decoded: char = if c == '+' {
                ' '
            } else {
                c
            };
            push_char(&mut out, s, i, decoded);
            proof {
                assert(out@ =~= old_out + seq![decoded]);
                let rest = s@.subrange(i + 1, n as int);
                assert(rem.skip(1) =~= rest);
                assert(percent_decode(rem) == unesc_glue(seq![decoded], percent_decode(rest)));
                match percent_decode(rest) {
                    Some(r) => {
                        assert(old_out + (seq![decoded] + r) =~= out@ + r);
                    },
                    None => {},
                }
            }
            i = i + 1;
        }
    }
    proof {
        assert(s@.subrange(n as int, n as int) =~= Seq::<char>::empty());
        assert(percent_decode(s@) == Some(out@ + Seq::<char>::empty()));
        assert(out@ + Seq::<char>::empty() =~= out@);
    }
    Some(out)
}

/// Append either the character of `s` at `i`, or a space when that
/// character decodes to one.
fn push_char(out: &mut String, s: &str, i: usize, decoded: char)
    requires
        i < s@.len(),
        i + 1 <= usize::MAX,
        decoded == s@[i as int] || (decoded == ' ' && s@[i as int] == '+'),
    ensures
        final(out)@ == old(out)@ + seq![decoded],
{
    if decoded == ' ' {
        proof {
            reveal_strlit(" ");
            assert(" "@ =~= seq![' ']);
        }
        out.append(" ");
    } else {
        let piece = s.substring_char(i, i + 1);
        proof {
            assert(piece@ =~= seq![decoded]);
        }
        out.append(piece);
    }
}

} // verus!
