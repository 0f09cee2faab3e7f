//! The persisted form of a token record.
//!
//! The credential store keeps one token per logical account as a single
//! secret string. This module defines that string's shape — five
//! newline-separated lines holding the escaped token fields — and proves
//! that parsing inverts rendering, so a stored token always reads back
//! field for field.

use vstd::prelude::*;

use crate::strutil::{all_digits, dec_digits, dec_val, is_digit, lemma_dec_round_trip, parse_u64,
    render_u64};
use crate::token::{OAuthToken, TokenView};

verus! {

/// How one character is written inside a line: backslash and newline
/// get a two-character escape, everything else stands for itself.
pub open spec fn esc_char(c: char) -> Seq<char> {
    if c == '\\' {
        seq!['\\', '\\']
    } else if c == '\n' {
        seq!['\\', 'n']
    } else {
        seq![c]
    }
}

/// A field escaped for one line of the record.
pub open spec fn esc(s: Seq<char>) -> Seq<char>
    decreases s.len(),
{
    if s.len() == 0 {
        Seq::empty()
    } else {
        esc_char(s[0]) + esc(s.drop_first())
    }
}

/// Undo [`esc`]; `None` on a malformed escape.
pub open spec fn unesc(s: Seq<char>) -> Option<Seq<char>>
    decreases s.len(),
{
    if s.len() == 0 {
        Some(Seq::empty())
    } else if s[0] == '\\' {
        if s.len() >= 2 && (s[1] == '\\' || s[1] == 'n') {
            let c = if s[1] == '\\' {
                '\\'
            } else {
                '\n'
            };
            match unesc(s.skip(2)) {
                Some(r) => Some(seq![c] + r),
                None => None,
            }
        } else {
            None
        }
    } else {
        match unesc(s.skip(1)) {
            Some(r) => Some(seq![s[0]] + r),
            None => None,
        }
    }
}

/// Escaping distributes over concatenation.
pub proof fn lemma_esc_concat(a: Seq<char>, b: Seq<char>)
    ensures
        esc(a + b) == esc(a) + esc(b),
    decreases a.len(),
{
    if a.len() == 0 {
        assert(a + b =~= b);
        assert(esc(a) + esc(b) =~= esc(b));
    } else {
        lemma_esc_concat(a.drop_first(), b);
        assert((a + b).drop_first() =~= a.drop_first() + b);
        assert((a + b)[0] == a[0]);
        assert(esc(a + b) =~= esc_char(a[0]) + (esc(a.drop_first()) + esc(b)));
        assert(esc_char(a[0]) + (esc(a.drop_first()) + esc(b)) =~= (esc_char(a[0]) + esc(
            a.drop_first(),
        )) + esc(b));
    }
}

/// An escaped field never holds a raw newline.
pub proof fn lemma_esc_no_newline(s: Seq<char>)
    ensures
        forall|i: int| 0 <= i < esc(s).len() ==> esc(s)[i] != '\n',
    decreases s.len(),
{
    if s.len() > 0 {
        lemma_esc_no_newline(s.drop_first());
        let e = esc(s);
        let h = esc_char(s[0]);
        let t = esc(s.drop_first());
        assert(e =~= h + t);
        assert(forall|i: int| 0 <= i < h.len() ==> h[i] != '\n') by {
            if s[0] == '\\' {
                assert(h =~= seq!['\\', '\\']);
            } else if s[0] == '\n' {
                assert(h =~= seq!['\\', 'n']);
            } else {
                assert(h =~= seq![s[0]]);
            }
        }
        assert forall|i: int| 0 <= i < e.len() implies e[i] != '\n' by {
            if i < h.len() {
                assert(e[i] == h[i]);
            } else {
                assert(e[i] == t[i - h.len()]);
            }
        }
    }
}

/// Unescaping inverts escaping.
pub proof fn lemma_unesc_esc(s: Seq<char>)
    ensures
        unesc(esc(s)) == Some(s),
    decreases s.len(),
{
    if s.len() == 0 {
    } else {
        lemma_unesc_esc(s.drop_first());
        let e = esc(s);
        let c = s[0];
        assert(e =~= esc_char(c) + esc(s.drop_first()));
        if c == '\\' || c == '\n' {
            assert(e[0] == '\\');
            assert(e.len() >= 2);
            assert(e.skip(2) =~= esc(s.drop_first()));
            assert(unesc(e) == Some(seq![c] + s.drop_first()));
        } else {
            assert(e[0] == c);
            assert(e.skip(1) =~= esc(s.drop_first()));
            assert(unesc(e) == Some(seq![c] + s.drop_first()));
        }
        assert(seq![c] + s.drop_first() =~= s);
    }
}

/// Index of the first newline in `s`, or `s.len()` if there is none.
pub open spec fn first_nl(s: Seq<char>) -> int
    decreases s.len(),
{
    if s.len() == 0 {
        0
    } else if s[0] == '\n' {
        0
    } else {
        1 + first_nl(s.drop_first())
    }
}

/// Basic facts about [`first_nl`].
pub proof fn lemma_first_nl(s: Seq<char>)
    ensures
        0 <= first_nl(s) <= s.len(),
        first_nl(s) < s.len() ==> s[first_nl(s)] == '\n',
        forall|j: int| 0 <= j < first_nl(s) ==> s[j] != '\n',
    decreases s.len(),
{
    if s.len() > 0 && s[0] != '\n' {
        lemma_first_nl(s.drop_first());
        assert forall|j: int| 0 <= j < first_nl(s) implies s[j] != '\n' by {
            if j > 0 {
                assert(s[j] == s.drop_first()[j - 1]);
            }
        }
    }
}

/// [`first_nl`] is determined by the facts it guarantees.
pub proof fn lemma_first_nl_is(s: Seq<char>, i: int)
    requires
        0 <= i <= s.len(),
        i < s.len() ==> s[i] == '\n',
        forall|j: int| 0 <= j < i ==> s[j] != '\n',
    ensures
        first_nl(s) == i,
    decreases s.len(),
{
    if s.len() == 0 {
    } else if i == 0 {
    } else {
        lemma_first_nl_is(s.drop_first(), i - 1);
    }
}

/// The lines of `s`, split at each newline. Never empty; a string
/// without newlines is one line.
pub open spec fn split_lines(s: Seq<char>) -> Seq<Seq<char>>
    decreases s.len(),
{
    let i = first_nl(s);
    if 0 <= i < s.len() {
        seq![s.subrange(0, i)] + split_lines(s.subrange(i + 1, s.len() as int))
    } else {
        seq![s]
    }
}

/// Does `s` contain no newline?
pub open spec fn no_nl(s: Seq<char>) -> bool {
    forall|i: int| 0 <= i < s.len() ==> s[i] != '\n'
}

/// A newline-free string is a single line.
pub proof fn lemma_split_single(a: Seq<char>)
    requires
        no_nl(a),
    ensures
        split_lines(a) == seq![a],
{
    lemma_first_nl_is(a, a.len() as int);
}

/// Splitting after a newline-free first line peels that line off.
pub proof fn lemma_split_cons(a: Seq<char>, b: Seq<char>)
    requires
        no_nl(a),
    ensures
        split_lines(a + seq!['\n'] + b) == seq![a] + split_lines(b),
{
    let s = a + seq!['\n'] + b;
    assert(s[a.len() as int] == '\n');
    assert(forall|j: int| 0 <= j < a.len() ==> s[j] == a[j] && s[j] != '\n');
    lemma_first_nl_is(s, a.len() as int);
    assert(s.subrange(0, a.len() as int) =~= a);
    assert(s.subrange(a.len() as int + 1, s.len() as int) =~= b);
}

/// The second line of a record: `-` for no refresh token, `+` followed
/// by the escaped token otherwise.
pub open spec fn refresh_line(refresh: Option<Seq<char>>) -> Seq<char> {
    match refresh {
        None => seq!['-'],
        Some(r) => seq!['+'] + esc(r),
    }
}

/// Read a refresh-token line back.
pub open spec fn parse_refresh_line(l: Seq<char>) -> Option<Option<Seq<char>>> {
    if l.len() == 1 && l[0] == '-' {
        Some(None)
    } else if l.len() >= 1 && l[0] == '+' {
        match unesc(l.skip(1)) {
            Some(r) => Some(Some(r)),
            None => None,
        }
    } else {
        None
    }
}

/// The persisted record of a token: five lines — access token, optional
/// refresh token, token type, expiry seconds in decimal, scope.
pub open spec fn render_token_view(t: TokenView) -> Seq<char> {
    esc(t.access_token) + seq!['\n'] + refresh_line(t.refresh_token) + seq!['\n'] + esc(
        t.token_type,
    ) + seq!['\n'] + dec_digits(t.expires_in as nat) + seq!['\n'] + esc(t.scope)
}

/// Read a record back into a token image; `None` on any malformation.
pub open spec fn parse_token_view(s: Seq<char>) -> Option<TokenView> {
    let parts = split_lines(s);
    if parts.len() != 5 {
        None
    } else {
        let access = unesc(parts[0]);
        let refresh = parse_refresh_line(parts[1]);
        let token_type = unesc(parts[2]);
        let scope = unesc(parts[4]);
        if access is Some && refresh is Some && token_type is Some && scope is Some && parts[3].len()
            >= 1 && all_digits(parts[3]) && dec_val(parts[3]) <= u64::MAX {
            Some(
                TokenView {
                    access_token: access->Some_0,
                    refresh_token: refresh->Some_0,
                    token_type: token_type->Some_0,
                    expires_in: dec_val(parts[3]) as u64,
                    scope: scope->Some_0,
                },
            )
        } else {
            None
        }
    }
}

/// Round trip: a rendered token record parses back to the same token,
/// field for field.
pub proof fn lemma_token_record_round_trip(t: TokenView)
    ensures
        parse_token_view(render_token_view(t)) == Some(t),
{
    let l0 = esc(t.access_token);
    let l1 = refresh_line(t.refresh_token);
    let l2 = esc(t.token_type);
    let l3 = dec_digits(t.expires_in as nat);
    let l4 = esc(t.scope);
    let nl = seq!['\n'];
    let s = render_token_view(t);

    lemma_esc_no_newline(t.access_token);
    lemma_esc_no_newline(t.token_type);
    lemma_esc_no_newline(t.scope);
    lemma_dec_round_trip(t.expires_in as nat);
    assert(no_nl(l1)) by {
        match t.refresh_token {
            None => {},
            Some(r) => {
                lemma_esc_no_newline(r);
                assert(forall|i: int|
                    1 <= i < l1.len() ==> l1[i] == esc(r)[i - 1] && #[trigger] l1[i] != '\n');
            },
        }
    }
    assert(no_nl(l3)) by {
        assert(forall|i: int| 0 <= i < l3.len() ==> is_digit(#[trigger] l3[i]) && l3[i] != '\n');
    }

    assert(s =~= l0 + nl + (l1 + nl + (l2 + nl + (l3 + nl + l4))));
    lemma_split_cons(l0, l1 + nl + (l2 + nl + (l3 + nl + l4)));
    lemma_split_cons(l1, l2 + nl + (l3 + nl + l4));
    lemma_split_cons(l2, l3 + nl + l4);
    lemma_split_cons(l3, l4);
    lemma_split_single(l4);
    let parts = split_lines(s);
    assert(parts =~= seq![l0, l1, l2, l3, l4]);

    lemma_unesc_esc(t.access_token);
    lemma_unesc_esc(t.token_type);
    lemma_unesc_esc(t.scope);
    assert(parse_refresh_line(l1) == Some(t.refresh_token)) by {
        match t.refresh_token {
            None => {},
            Some(r) => {
                lemma_unesc_esc(r);
                assert(l1[0] == '+');
                assert(l1.skip(1) =~= esc(r));
            },
        }
    }
    assert(parse_token_view(s)->Some_0 =~= t);
}

/// Render a token into its persisted record.
pub fn render_token(t: &OAuthToken) -> (r: String)
    ensures
        r@ == render_token_view(t@),
{
    let mut out = escape_field(&t.access_token);
    push_newline(&mut out);
    match &t.refresh_token {
        None => {
            push_lit(&mut out, "-");
            proof {
                reveal_strlit("-");
                assert("-"@ =~= seq!['-']);
            }
        },
        Some(r) => {
            push_lit(&mut out, "+");
            let e = escape_field(r);
            out.append(e.as_str());
            proof {
                reveal_strlit("+");
                assert("+"@ =~= seq!['+']);
            }
        },
    }
    proof {
        assert(out@ =~= esc(t@.access_token) + seq!['\n'] + refresh_line(t@.refresh_token));
    }
    push_newline(&mut out);
    let e2 = escape_field(&t.token_type);
    out.append(e2.as_str());
    push_newline(&mut out);
    let e3 = render_u64(t.expires_in);
    out.append(e3.as_str());
    push_newline(&mut out);
    let e4 = escape_field(&t.scope);
    out.append(e4.as_str());
    proof {
        assert(out@ =~= render_token_view(t@));
    }
    out
}

/// Append a literal to `out`.
fn push_lit(out: &mut String, lit: &str)
    ensures
        final(out)@ == old(out)@ + lit@,
{
    out.append(lit);
}

/// Append a newline to `out`.
fn push_newline(out: &mut String)
    ensures
        final(out)@ == old(out)@ + seq!['\n'],
{
    proof {
        reveal_strlit("\n");
        assert("\n"@ =~= seq!['\n']);
    }
    out.append("\n");
}

/// Escape one field for its line in the record.
fn escape_field(s: &str) -> (r: String)
    ensures
        r@ == esc(s@),
{
    let n: usize = s.unicode_len();
    let mut out = String::new();
    let mut i: usize = 0;
    while i < n
        invariant
            n == s@.len(),
            i <= n,
            out@ == esc(s@.subrange(0, i as int)),
        decreases n - i,
    {
        let c: char = s.get_char(i);
        if c == '\\' {
            proof {
                reveal_strlit("\\\\");
                assert("\\\\"@ =~= seq!['\\', '\\']);
            }
            out.append("\\\\");
        } else if c == '\n' {
            proof {
                reveal_strlit("\\n");
                assert("\\n"@ =~= seq!['\\', 'n']);
            }
            out.append("\\n");
        } else {
            let piece = s.substring_char(i, i + 1);
            proof {
                assert(piece@ =~= seq![c]);
            }
            out.append(piece);
        }
        proof {
            let pre = s@.subrange(0, i as int);
            let cur = s@.subrange(0, i + 1);
            assert(cur =~= pre + seq![c]);
            lemma_esc_concat(pre, seq![c]);
            assert(seq![c].drop_first() =~= Seq::<char>::empty());
            assert(seq![c][0] == c);
            assert(esc(Seq::<char>::empty()) =~= Seq::<char>::empty());
            assert(esc(seq![c]) =~= esc_char(c) + Seq::<char>::empty());
            assert(esc(seq![c]) =~= esc_char(c));
            assert(out@ =~= esc(cur));
        }
        i = i + 1;
    }
    proof {
        assert(s@.subrange(0, n as int) =~= s@);
    }
    out
}

/// Map an `Option` of unescaped text through concatenation with a
/// prefix: the shape every step of the unescape loop preserves.
pub open spec fn unesc_glue(prefix: Seq<char>, rest: Option<Seq<char>>) -> Option<Seq<char>> {
    match rest {
        Some(r) => Some(prefix + r),
        None => None,
    }
}

/// Undo [`escape_field`].
fn unescape_field(s: &str) -> (r: Option<String>)
    ensures
        match r {
            Some(v) => unesc(s@) == Some(v@),
            None => unesc(s@) is None,
        },
{
    let n: usize = s.unicode_len();
    let mut out = String::new();
    let mut i: usize = 0;
    proof {
        assert(s@.subrange(0, n as int) =~= s@);
        match unesc(s@) {
            Some(r) => {
                assert(Seq::<char>::empty() + r =~= r);
            },
            None => {},
        }
    }
    while i < n
        invariant
            n == s@.len(),
            i <= n,
            unesc(s@) == unesc_glue(out@, unesc(s@.subrange(i as int, n as int))),
        decreases n - i,
    {
        let ghost rem = s@.subrange(i as int, n as int);
        let ghost old_out = out@;
        let c: char = s.get_char(i);
        proof {
            assert(rem[0] == s@[i as int]);
        }
        if c == '\\' {
            if i + 1 >= n {
                proof {
                    assert(rem.len() == 1);
                    assert(unesc(rem) is None);
                }
                return None;
            }
            let c2: char = s.get_char(i + 1);
            proof {
                assert(rem[1] == s@[i + 1]);
            }
            if c2 == '\\' {
                proof {
                    reveal_strlit("\\");
                    assert("\\"@ =~= seq!['\\']);
                }
                out.append("\\");
            } else if c2 == 'n' {
                push_newline(&mut out);
            } else {
                proof {
                    assert(unesc(rem) is None);
                }
                return None;
            }
            proof {
                let decoded: char = if c2 == '\\' {
                    '\\'
                } else {
                    '\n'
                };
                assert(out@ =~= old_out + seq![decoded]);
                let rest = s@.subrange(i + 2, n as int);
                assert(rem.skip(2) =~= rest);
                assert(unesc(rem) == unesc_glue(seq![decoded], unesc(rest)));
                match unesc(rest) {
                    Some(r) => {
                        assert(old_out + (seq![decoded] + r) =~= out@ + r);
                    },
                    None => {},
                }
            }
            i = i + 2;
        } else {
            let piece = s.substring_char(i, i + 1);
            proof {
                assert(piece@ =~= seq![c]);
            }
            out.append(piece);
            proof {
                assert(out@ =~= old_out + seq![c]);
                let rest = s@.subrange(i + 1, n as int);
                assert(rem.skip(1) =~= rest);
                assert(unesc(rem) == unesc_glue(seq![c], unesc(rest)));
                match unesc(rest) {
                    Some(r) => {
                        assert(old_out + (seq![c] + r) =~= out@ + r);
                    },
                    None => {},
                }
            }
            i = i + 1;
        }
    }
    proof {
        assert(s@.subrange(n as int, n as int) =~= Seq::<char>::empty());
        assert(unesc(s@) == Some(out@ + Seq::<char>::empty()));
        assert(out@ + Seq::<char>::empty() =~= out@);
    }
    Some(out)
}

/// Split a record into its lines.
fn split_lines_exec(s: &str) -> (r: Vec<String>)
    ensures
        r.deep_view() == split_lines(s@),
{
    let n: usize = s.unicode_len();
    let mut parts: Vec<String> = Vec::new();
    let mut start: usize = 0;
    proof {
        assert(s@.subrange(0, n as int) =~= s@);
        assert(parts.deep_view() =~= Seq::<Seq<char>>::empty());
        assert(parts.deep_view() + split_lines(s@) =~= split_lines(s@));
    }
    loop
        invariant_except_break
            n == s@.len(),
            start <= n,
            split_lines(s@) == parts.deep_view() + split_lines(
                s@.subrange(start as int, n as int),
            ),
        ensures
            parts.deep_view() == split_lines(s@),
        decreases n - start,
    {
        let ghost rem = s@.subrange(start as int, n as int);
        // scan for the next newline
        let mut i: usize = start;
        while i < n
            invariant_except_break
                n == s@.len(),
                start <= i <= n,
                forall|j: int| start <= j < i ==> s@[j] != '\n',
            ensures
                n == s@.len(),
                start <= i <= n,
                forall|j: int| start <= j < i ==> s@[j] != '\n',
                i < n ==> s@[i as int] == '\n',
            decreases n - i,
        {
            if s.get_char(i) == '\n' {
                break;
            }
            i = i + 1;
        }
        proof {
            assert(forall|j: int| 0 <= j < i - start ==> rem[j] == s@[start + j] && rem[j] != '\n');
            if i < n {
                assert(rem[i - start] == s@[i as int]);
            }
            lemma_first_nl_is(rem, i - start);
        }
        let line = s.substring_char(start, i);
        let ghost old_parts = parts.deep_view();
        parts.push(line.to_owned());
        proof {
            assert(parts.deep_view() =~= old_parts + seq![line@]);
        }
        if i == n {
            proof {
                assert(line@ =~= rem);
                assert(split_lines(rem) =~= seq![rem]);
                assert(parts.deep_view() =~= old_parts + split_lines(rem));
            }
            break;
        }
        proof {
            assert(line@ =~= rem.subrange(0, i - start));
            assert(split_lines(rem) =~= seq![rem.subrange(0, i - start)] + split_lines(
                rem.subrange(i - start + 1, rem.len() as int),
            ));
            assert(rem.subrange(i - start + 1, rem.len() as int) =~= s@.subrange(i + 1, n as int));
            assert(parts.deep_view() + split_lines(s@.subrange(i + 1, n as int)) =~=
                old_parts + split_lines(rem));
        }
        start = i + 1;
    }
    parts
}

/// Parse a persisted record back into a token.
///
/// Returns `Some` exactly on strings of the shape [`render_token_view`]
/// produces: five lines, properly escaped fields, a decimal expiry that
/// fits in a `u64`.
pub fn parse_token(s: &str) -> (r: Option<OAuthToken>)
    ensures
        match r {
            Some(t) => parse_token_view(s@) == Some(t@),
            None => parse_token_view(s@) is None,
        },
{
    let parts = split_lines_exec(s);
    if parts.len() != 5 {
        return None;
    }
    proof {
        assert(parts.deep_view().len() == 5);
        assert(parts.deep_view()[0] == parts@[0]@);
        assert(parts.deep_view()[1] == parts@[1]@);
        assert(parts.deep_view()[2] == parts@[2]@);
        assert(parts.deep_view()[3] == parts@[3]@);
        assert(parts.deep_view()[4] == parts@[4]@);
    }
    let access = match unescape_field(parts[0].as_str()) {
        Some(v) => v,
        None => {
            return None;
        },
    };
    let refresh: Option<String> = {
        let line = parts[1].as_str();
        let ln: usize = line.unicode_len();
        if ln == 0 {
            return None;
        }
        let head = line.get_char(0);
        if head == '-' {
            if ln != 1 {
                return None;
            }
            None
        } else if head == '+' {
            let tail = line.substring_char(1, ln);
            proof {
                assert(tail@ =~= line@.skip(1));
            }
            match unescape_field(tail) {
                Some(v) => Some(v),
                None => {
                    return None;
                },
            }
        } else {
            return None;
        }
    };
    let token_type = match unescape_field(parts[2].as_str()) {
        Some(v) => v,
        None => {
            return None;
        },
    };
    let expires_in = match parse_u64(parts[3].as_str()) {
        Some(v) => v,
        None => {
            return None;
        },
    };
    let scope = match unescape_field(parts[4].as_str()) {
        Some(v) => v,
        None => {
            return None;
        },
    };
    let t = OAuthToken { access_token: access, refresh_token: refresh, token_type, expires_in, scope };
    proof {
        assert(parse_token_view(s@)->Some_0 =~= t@);
    }
    Some(t)
}

} // verus!
