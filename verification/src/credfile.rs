//! Framing the credential file: a canonical JSON rendering of the
//! credential record and a parser for exactly that rendering, proved to
//! round-trip.  Writing and reading the bytes is file I/O outside the
//! library; what gets written, and that reloading it yields the same
//! credential, is decided and proved here.
//!
//! The codec covers credentials whose identity token is textual (absent
//! or the raw JWT): that is what the file format stores.  String fields
//! may carry any characters; quotes and backslashes are escaped.

use vstd::prelude::*;
use vstd::string::StrSliceExecFns;
use vstd::string::StringExecFns;

use crate::auth::{AuthDotJson, IdToken, TokenData};
use crate::profile::opt_string_view;
use crate::strutil::{dec_chars, dec_chars_signed, i64_to_string, match_at};

verus! {

/// The text content of a credential: every field reduced to character
/// sequences and plain values.  `(api_key, tokens, last_refresh)`, with
/// tokens as `(raw_id_token, access, refresh, account_id)`.
pub type TokensView = (Option<Seq<char>>, Seq<char>, Seq<char>, Option<Seq<char>>);

/// The text content of the whole record.
pub type AuthView = (Option<Seq<char>>, Option<TokensView>, Option<int>);

/// Whether a credential's identity token is textual: absent, or the raw
/// JWT string.  Decoded claim records are transient values that the
/// file format does not store.
pub open spec fn id_token_textual(auth: AuthDotJson) -> bool {
    match auth.tokens {
        Some(t) => match t.id_token {
            Some(IdToken::Info(_)) => false,
            _ => true,
        },
        None => true,
    }
}

/// The raw identity-token text, when textual.
pub open spec fn raw_id_view(t: Option<IdToken>) -> Option<Seq<char>> {
    match t {
        Some(IdToken::Raw(s)) => Some(s@),
        _ => None,
    }
}

/// The text content of a credential record.
pub open spec fn auth_view(a: AuthDotJson) -> AuthView {
    (
        opt_string_view(a.openai_api_key),
        match a.tokens {
            Some(t) => Some(
                (
                    raw_id_view(t.id_token),
                    t.access_token@,
                    t.refresh_token@,
                    opt_string_view(t.account_id),
                ),
            ),
            None => None,
        },
        match a.last_refresh {
            Some(n) => Some(n as int),
            None => None,
        },
    )
}

/// One character as it appears inside a JSON string: quotes and
/// backslashes escaped, everything else verbatim.
pub open spec fn esc_char(c: char) -> Seq<char> {
    if c == '"' {
        seq!['\\', '"']
    } else if c == '\\' {
        seq!['\\', '\\']
    } else {
        seq![c]
    }
}

/// A text with its JSON string escapes applied.
pub open spec fn esc_str(s: Seq<char>) -> Seq<char>
    decreases s.len(),
{
    if s.len() == 0 {
        Seq::empty()
    } else {
        esc_char(s[0]) + esc_str(s.skip(1))
    }
}

/// A JSON string literal.
pub open spec fn quoted(s: Seq<char>) -> Seq<char> {
    seq!['"'] + esc_str(s) + seq!['"']
}

/// An optional string value: `null` or a string literal.
pub open spec fn r_opt_str(o: Option<Seq<char>>) -> Seq<char> {
    match o {
        None => "null"@,
        Some(s) => quoted(s),
    }
}

/// The token object of the credential file.
pub open spec fn r_tokens(t: TokensView) -> Seq<char> {
    "{\"id_token\":"@ + r_opt_str(t.0) + ",\"access_token\":"@ + quoted(t.1)
        + ",\"refresh_token\":"@ + quoted(t.2) + ",\"account_id\":"@ + r_opt_str(t.3) + "}"@
}

/// The whole credential file text.
pub open spec fn r_auth(a: AuthView) -> Seq<char> {
    "{\"OPENAI_API_KEY\":"@ + r_opt_str(a.0) + ",\"tokens\":"@ + (match a.1 {
        Some(t) => r_tokens(t),
        None => "null"@,
    }) + ",\"last_refresh\":"@ + (match a.2 {
        Some(n) => dec_chars_signed(n),
        None => "null"@,
    }) + "}"@
}

fn push_escaped(out: &mut String, s: &str)
    ensures
        final(out)@ == old(out)@ + esc_str(s@),
{
    let len = s.unicode_len();
    let mut i: usize = 0;
    while i < len
        invariant
            i <= len,
            len == s@.len(),
            out@ == old(out)@ + esc_str(s@.subrange(0, i as int)),
        decreases len - i,
    {
        let c = s.get_char(i);
        proof {
            assert(s@.skip(i as int)[0] == s@[i as int]);
            assert(s@.skip(i as int).skip(1) =~= s@.skip(i + 1));
            assert(s@.subrange(0, i + 1) =~= s@.subrange(0, i as int).push(s@[i as int]));
            lemma_esc_push(s@.subrange(0, i as int), s@[i as int]);
        }
        if c == '"' {
            out.push('\\');
            out.push('"');
        } else if c == '\\' {
            out.push('\\');
            out.push('\\');
        } else {
            out.push(c);
        }
        assert(out@ =~= old(out)@ + esc_str(s@.subrange(0, i + 1)));
        i += 1;
    }
    proof {
        assert(s@.subrange(0, len as int) =~= s@);
        assert(out@ =~= old(out)@ + esc_str(s@));
    }
}

/// Escaping distributes over appending one character.
proof fn lemma_esc_push(s: Seq<char>, c: char)
    ensures
        esc_str(s.push(c)) == esc_str(s) + esc_char(c),
    decreases s.len(),
{
    if s.len() == 0 {
        assert(s.push(c)[0] == c);
        assert(s.push(c).skip(1) =~= Seq::<char>::empty());
        assert(esc_str(s.push(c).skip(1)) == Seq::<char>::empty());
        assert(esc_str(s.push(c)) == esc_char(c) + Seq::<char>::empty());
        assert(esc_char(c) + Seq::<char>::empty() =~= esc_char(c));
        assert(esc_str(s) + esc_char(c) =~= esc_char(c));
    } else {
        assert(s.push(c)[0] == s[0]);
        assert(s.push(c).skip(1) =~= s.skip(1).push(c));
        lemma_esc_push(s.skip(1), c);
        assert(esc_str(s.push(c)) =~= esc_str(s) + esc_char(c));
    }
}

fn push_quoted(out: &mut String, s: &str)
    ensures
        final(out)@ == old(out)@ + quoted(s@),
{
    out.push('"');
    push_escaped(out, s);
    out.push('"');
    assert(out@ =~= old(out)@ + quoted(s@));
}

fn push_opt_str(out: &mut String, o: &Option<String>)
    ensures
        final(out)@ == old(out)@ + r_opt_str(opt_string_view(*o)),
{
    match o {
        None => {
            out.append("null");
        },
        Some(s) => {
            push_quoted(out, s.as_str());
        },
    }
}

/// Renders a credential record as its canonical file text.
pub fn render_auth(auth: &AuthDotJson) -> (r: String)
    requires
        id_token_textual(*auth),
    ensures
        r@ == r_auth(auth_view(*auth)),
{
    let mut out = String::new();
    out.append("{\"OPENAI_API_KEY\":");
    push_opt_str(&mut out, &auth.openai_api_key);
    out.append(",\"tokens\":");
    match &auth.tokens {
        None => {
            out.append("null");
        },
        Some(t) => {
            out.append("{\"id_token\":");
            match &t.id_token {
                Some(IdToken::Raw(raw)) => {
                    push_quoted(&mut out, raw.as_str());
                },
                _ => {
                    out.append("null");
                },
            }
            out.append(",\"access_token\":");
            push_quoted(&mut out, t.access_token.as_str());
            out.append(",\"refresh_token\":");
            push_quoted(&mut out, t.refresh_token.as_str());
            out.append(",\"account_id\":");
            push_opt_str(&mut out, &t.account_id);
            out.append("}");
        },
    }
    out.append(",\"last_refresh\":");
    match auth.last_refresh {
        None => {
            out.append("null");
        },
        Some(n) => {
            let num = i64_to_string(n);
            out.append(num.as_str());
        },
    }
    out.append("}");
    proof {
        assert(out@ =~= r_auth(auth_view(*auth)));
    }
    out
}

// ---- The parser for exactly the canonical rendering. ----

/// Consumes an exact literal.
pub open spec fn p_lit(s: Seq<char>, i: int, lit: Seq<char>) -> Option<int> {
    if match_at(s, lit, i) {
        Some(i + lit.len())
    } else {
        None
    }
}

/// Consumes a string literal's body after the opening quote,
/// accumulating the unescaped text.
pub open spec fn p_string_body(s: Seq<char>, i: int, acc: Seq<char>) -> Option<(Seq<char>, int)>
    decreases s.len() - i,
{
    if i < 0 || i >= s.len() {
        None
    } else if s[i] == '"' {
        Some((acc, i + 1))
    } else if s[i] == '\\' {
        if i + 1 < s.len() && (s[i + 1] == '"' || s[i + 1] == '\\') {
            p_string_body(s, i + 2, acc.push(s[i + 1]))
        } else {
            None
        }
    } else {
        p_string_body(s, i + 1, acc.push(s[i]))
    }
}

/// Consumes a string literal.
pub open spec fn p_string(s: Seq<char>, i: int) -> Option<(Seq<char>, int)> {
    if 0 <= i < s.len() && s[i] == '"' {
        p_string_body(s, i + 1, Seq::empty())
    } else {
        None
    }
}

/// Consumes `null` or a string literal.
pub open spec fn p_opt_str(s: Seq<char>, i: int) -> Option<(Option<Seq<char>>, int)> {
    if match_at(s, "null"@, i) {
        Some((None, i + 4))
    } else {
        match p_string(s, i) {
            Some((v, j)) => Some((Some(v), j)),
            None => None,
        }
    }
}

/// The end of the digit run starting at `i`.
pub open spec fn digit_run_end(s: Seq<char>, i: int) -> int
    decreases s.len() - i,
{
    if 0 <= i < s.len() && crate::version::spec_is_digit(s[i]) {
        digit_run_end(s, i + 1)
    } else {
        i
    }
}

/// Consumes a canonical signed decimal integer: an optional minus, then
/// digits without a leading zero (zero itself is the single digit `0`).
pub open spec fn p_int(s: Seq<char>, i: int) -> Option<(int, int)> {
    let neg = 0 <= i < s.len() && s[i] == '-';
    let d0 = if neg {
        i + 1
    } else {
        i
    };
    let e = digit_run_end(s, d0);
    if e == d0 {
        None
    } else if s[d0] == '0' && e != d0 + 1 {
        None
    } else if neg && s[d0] == '0' {
        None
    } else {
        let v = crate::version::digits_value(s.subrange(d0, e));
        Some((
            if neg {
                -v
            } else {
                v
            },
            e,
        ))
    }
}

/// Consumes `null` or a canonical integer.
pub open spec fn p_opt_int(s: Seq<char>, i: int) -> Option<(Option<int>, int)> {
    if match_at(s, "null"@, i) {
        Some((None, i + 4))
    } else {
        match p_int(s, i) {
            Some((v, j)) => Some((Some(v), j)),
            None => None,
        }
    }
}

/// Consumes the token object or `null`.
pub open spec fn p_tokens(s: Seq<char>, i: int) -> Option<(Option<TokensView>, int)> {
    if match_at(s, "null"@, i) {
        Some((None, i + 4))
    } else {
        match p_lit(s, i, "{\"id_token\":"@) {
            None => None,
            Some(j1) => match p_opt_str(s, j1) {
                None => None,
                Some((id, j2)) => match p_lit(s, j2, ",\"access_token\":"@) {
                    None => None,
                    Some(j3) => match p_string(s, j3) {
                        None => None,
                        Some((access, j4)) => match p_lit(s, j4, ",\"refresh_token\":"@) {
                            None => None,
                            Some(j5) => match p_string(s, j5) {
                                None => None,
                                Some((refresh, j6)) => match p_lit(s, j6, ",\"account_id\":"@) {
                                    None => None,
                                    Some(j7) => match p_opt_str(s, j7) {
                                        None => None,
                                        Some((account, j8)) => match p_lit(s, j8, "}"@) {
                                            None => None,
                                            Some(j9) => Some(
                                                (Some((id, access, refresh, account)), j9),
                                            ),
                                        },
                                    },
                                },
                            },
                        },
                    },
                },
            },
        }
    }
}

/// Consumes the whole credential record; the text must end with it.
pub open spec fn p_auth(s: Seq<char>) -> Option<AuthView> {
    match p_lit(s, 0, "{\"OPENAI_API_KEY\":"@) {
        None => None,
        Some(j1) => match p_opt_str(s, j1) {
            None => None,
            Some((key, j2)) => match p_lit(s, j2, ",\"tokens\":"@) {
                None => None,
                Some(j3) => match p_tokens(s, j3) {
                    None => None,
                    Some((tokens, j4)) => match p_lit(s, j4, ",\"last_refresh\":"@) {
                        None => None,
                        Some(j5) => match p_opt_int(s, j5) {
                            None => None,
                            Some((last, j6)) => match p_lit(s, j6, "}"@) {
                                None => None,
                                Some(j7) => if j7 == s.len() && (match last {
                                    Some(n) => i64::MIN <= n <= i64::MAX,
                                    None => true,
                                }) {
                                    Some((key, tokens, last))
                                } else {
                                    None
                                },
                            },
                        },
                    },
                },
            },
        },
    }
}


fn e_lit(s: &str, i: usize, lit: &str) -> (r: Option<usize>)
    ensures
        match r {
            Some(j) => p_lit(s@, i as int, lit@) == Some(j as int),
            None => p_lit(s@, i as int, lit@) is None,
        },
{
    let len = s.unicode_len();
    let ll = lit.unicode_len();
    if i <= len && ll <= len - i {
        if crate::strutil::matches_at(s, lit, i) {
            Some(i + ll)
        } else {
            None
        }
    } else {
        proof {
            assert(!match_at(s@, lit@, i as int));
        }
        None
    }
}

fn e_string(s: &str, i: usize) -> (r: Option<(String, usize)>)
    ensures
        match r {
            Some(v) => p_string(s@, i as int) == Some((v.0@, v.1 as int)),
            None => p_string(s@, i as int) is None,
        },
{
    let len = s.unicode_len();
    if i >= len {
        return None;
    }
    if s.get_char(i) != '"' {
        return None;
    }
    let mut acc = String::new();
    let mut k: usize = i + 1;
    while k < len
        invariant
            i + 1 <= k <= len,
            len == s@.len(),
            i < len,
            s@[i as int] == '"',
            p_string_body(s@, i + 1, Seq::empty()) == p_string_body(s@, k as int, acc@),
        decreases len - k,
    {
        let c = s.get_char(k);
        if c == '"' {
            return Some((acc, k + 1));
        }
        if c == '\\' {
            if k + 1 < len {
                let c2 = s.get_char(k + 1);
                if c2 == '"' || c2 == '\\' {
                    acc.push(c2);
                    k += 2;
                    continue ;
                }
            }
            return None;
        }
        acc.push(c);
        k += 1;
    }
    None
}

fn e_opt_str(s: &str, i: usize) -> (r: Option<(Option<String>, usize)>)
    ensures
        match r {
            Some(v) => p_opt_str(s@, i as int) == Some((opt_string_view(v.0), v.1 as int)),
            None => p_opt_str(s@, i as int) is None,
        },
{
    proof {
        reveal_strlit("null");
        assert("null"@.len() == 4);
    }
    match e_lit(s, i, "null") {
        Some(j) => Some((None, j)),
        None => match e_string(s, i) {
            Some((v, j)) => Some((Some(v), j)),
            None => None,
        },
    }
}

proof fn lemma_digit_run_ge(s: Seq<char>, from: int)
    ensures
        digit_run_end(s, from) >= from,
    decreases s.len() - from,
{
    if 0 <= from < s.len() && crate::version::spec_is_digit(s[from]) {
        lemma_digit_run_ge(s, from + 1);
    }
}

proof fn lemma_digit_run(s: Seq<char>, from: int, to: int)
    requires
        0 <= from <= to <= s.len(),
        forall|j: int| from <= j < to ==> crate::version::spec_is_digit(#[trigger] s[j]),
        to == s.len() || !crate::version::spec_is_digit(s[to]),
    ensures
        digit_run_end(s, from) == to,
    decreases to - from,
{
    if from < to {
        lemma_digit_run(s, from + 1, to);
    }
}

fn is_digit(c: char) -> (r: bool)
    ensures
        r == crate::version::spec_is_digit(c),
{
    (c as u32) >= 48 && (c as u32) <= 57
}

fn e_int(s: &str, i: usize) -> (r: Option<(i64, usize)>)
    ensures
        match r {
            Some(v) => p_int(s@, i as int) == Some((v.0 as int, v.1 as int)),
            None => p_int(s@, i as int) is None || (p_int(s@, i as int) matches Some(p)
                && !(i64::MIN <= p.0 <= i64::MAX)),
        },
{
    let len = s.unicode_len();
    let neg = i < len && s.get_char(i) == '-';
    let d0: usize = if neg {
        i + 1
    } else {
        i
    };
    if d0 >= len {
        proof {
            assert(digit_run_end(s@, d0 as int) == d0 as int);
        }
        return None;
    }
    let c0 = s.get_char(d0);
    if !is_digit(c0) {
        proof {
            assert(digit_run_end(s@, d0 as int) == d0 as int);
        }
        return None;
    }
    if c0 == '0' {
        if neg {
            return None;
        }
        let next_is_digit = d0 + 1 < len && is_digit(s.get_char(d0 + 1));
        proof {
            if !next_is_digit {
                lemma_digit_run(s@, d0 as int, d0 + 1);
                let ghost single = s@.subrange(d0 as int, d0 + 1);
                assert(single.len() == 1);
                assert(single.drop_last() =~= Seq::<char>::empty());
                assert(single.last() == '0');
                assert(crate::version::digits_value(single.drop_last()) == 0);
                assert((single.last() as int) - ('0' as int) == 0);
                assert(crate::version::digits_value(single) == crate::version::digits_value(
                    single.drop_last(),
                ) * 10 + ((single.last() as int) - ('0' as int)));
                assert(crate::version::digits_value(single) == 0);
            }
        }
        if next_is_digit {
            proof {
                assert(crate::version::spec_is_digit(s@[d0 + 1]));
                assert(digit_run_end(s@, d0 as int) == digit_run_end(s@, d0 + 1));
                assert(digit_run_end(s@, d0 + 1) == digit_run_end(s@, d0 + 2));
                lemma_digit_run_ge(s@, d0 + 2);
            }
            return None;
        }
        return Some((0, d0 + 1));
    }
    // General case: the first digit is 1..9, so the canonical form has
    // no leading zero to reject.
    let mut k: usize = d0;
    let mut acc: u64 = 0;
    let mut too_big = false;
    while k < len && is_digit(s.get_char(k))
        invariant
            d0 <= k <= len,
            len == s@.len(),
            forall|j: int| d0 <= j < k ==> crate::version::spec_is_digit(#[trigger] s@[j]),
            !too_big ==> acc as int == crate::version::digits_value(
                s@.subrange(d0 as int, k as int),
            ) && acc <= 0x8000_0000_0000_0000u64,
            too_big ==> crate::version::digits_value(s@.subrange(d0 as int, k as int))
                > 0x8000_0000_0000_0000,
            crate::version::digits_value(s@.subrange(d0 as int, k as int)) >= 0,
        decreases len - k,
    {
        let c = s.get_char(k);
        let d: u64 = (c as u32) as u64 - 48;
        let ghost pfx = s@.subrange(d0 as int, k as int);
        let ghost pfx2 = s@.subrange(d0 as int, k + 1);
        proof {
            assert(pfx2.drop_last() =~= pfx);
            assert(pfx2.last() == s@[k as int]);
            assert(crate::version::digits_value(pfx2) == crate::version::digits_value(pfx) * 10
                + ((s@[k as int] as int) - ('0' as int)));
        }
        if too_big {
        } else {
            let wide: u128 = (acc as u128) * 10 + (d as u128);
            if wide > 0x8000_0000_0000_0000u128 {
                too_big = true;
            } else {
                acc = wide as u64;
            }
        }
        k += 1;
    }
    proof {
        lemma_digit_run(s@, d0 as int, k as int);
    }
    if too_big {
        return None;
    }
    if neg {
        if acc > 0x8000_0000_0000_0000u64 {
            return None;
        }
        let v: i64 = if acc == 0x8000_0000_0000_0000u64 {
            i64::MIN
        } else {
            -(acc as i64)
        };
        Some((v, k))
    } else {
        if acc > 0x7FFF_FFFF_FFFF_FFFFu64 {
            return None;
        }
        Some((acc as i64, k))
    }
}

fn e_opt_int(s: &str, i: usize) -> (r: Option<(Option<i64>, usize)>)
    ensures
        match r {
            Some(v) => p_opt_int(s@, i as int) == Some((
                match v.0 {
                    Some(n) => Some(n as int),
                    None => None,
                },
                v.1 as int,
            )),
            None => p_opt_int(s@, i as int) is None || (p_opt_int(s@, i as int) matches Some(p)
                && p.0 matches Some(n) && !(i64::MIN <= n <= i64::MAX)),
        },
{
    proof {
        reveal_strlit("null");
        assert("null"@.len() == 4);
    }
    match e_lit(s, i, "null") {
        Some(j) => Some((None, j)),
        None => match e_int(s, i) {
            Some((v, j)) => Some((Some(v), j)),
            None => None,
        },
    }
}

/// The token-view a parsed token record denotes.
pub open spec fn tokens_opt_view(t: Option<TokenData>) -> Option<TokensView> {
    match t {
        Some(td) => Some(
            (
                raw_id_view(td.id_token),
                td.access_token@,
                td.refresh_token@,
                opt_string_view(td.account_id),
            ),
        ),
        None => None,
    }
}

fn e_tokens(s: &str, i: usize) -> (r: Option<(Option<TokenData>, usize)>)
    ensures
        match r {
            Some(v) => p_tokens(s@, i as int) == Some((tokens_opt_view(v.0), v.1 as int))
                && (v.0 matches Some(td) ==> !(td.id_token matches Some(IdToken::Info(_)))),
            None => p_tokens(s@, i as int) is None,
        },
{
    proof {
        reveal_strlit("null");
        assert("null"@.len() == 4);
    }
    if let Some(j) = e_lit(s, i, "null") {
        return Some((None, j));
    }
    let j1 = match e_lit(s, i, "{\"id_token\":") {
        Some(j) => j,
        None => {
            return None;
        },
    };
    let (id, j2) = match e_opt_str(s, j1) {
        Some(v) => v,
        None => {
            return None;
        },
    };
    let j3 = match e_lit(s, j2, ",\"access_token\":") {
        Some(j) => j,
        None => {
            return None;
        },
    };
    let (access, j4) = match e_string(s, j3) {
        Some(v) => v,
        None => {
            return None;
        },
    };
    let j5 = match e_lit(s, j4, ",\"refresh_token\":") {
        Some(j) => j,
        None => {
            return None;
        },
    };
    let (refresh, j6) = match e_string(s, j5) {
        Some(v) => v,
        None => {
            return None;
        },
    };
    let j7 = match e_lit(s, j6, ",\"account_id\":") {
        Some(j) => j,
        None => {
            return None;
        },
    };
    let (account, j8) = match e_opt_str(s, j7) {
        Some(v) => v,
        None => {
            return None;
        },
    };
    let j9 = match e_lit(s, j8, "}") {
        Some(j) => j,
        None => {
            return None;
        },
    };
    let id_token = match id {
        Some(raw) => Some(IdToken::Raw(raw)),
        None => None,
    };
    Some(
        (
            Some(
                TokenData {
                    id_token,
                    access_token: access,
                    refresh_token: refresh,
                    account_id: account,
                },
            ),
            j9,
        ),
    )
}

/// Parses a credential file's text; only the canonical rendering is
/// accepted, and what is accepted denotes exactly the text parsed.
pub fn parse_auth(s: &str) -> (r: Option<AuthDotJson>)
    ensures
        match r {
            Some(b) => p_auth(s@) == Some(auth_view(b)) && id_token_textual(b),
            None => p_auth(s@) is None,
        },
{
    let len = s.unicode_len();
    let j1 = match e_lit(s, 0, "{\"OPENAI_API_KEY\":") {
        Some(j) => j,
        None => {
            return None;
        },
    };
    let (key, j2) = match e_opt_str(s, j1) {
        Some(v) => v,
        None => {
            return None;
        },
    };
    let j3 = match e_lit(s, j2, ",\"tokens\":") {
        Some(j) => j,
        None => {
            return None;
        },
    };
    let (tokens, j4) = match e_tokens(s, j3) {
        Some(v) => v,
        None => {
            return None;
        },
    };
    let j5 = match e_lit(s, j4, ",\"last_refresh\":") {
        Some(j) => j,
        None => {
            return None;
        },
    };
    let (last, j6) = match e_opt_int(s, j5) {
        Some(v) => v,
        None => {
            return None;
        },
    };
    let j7 = match e_lit(s, j6, "}") {
        Some(j) => j,
        None => {
            return None;
        },
    };
    if j7 != len {
        return None;
    }
    let auth = AuthDotJson { openai_api_key: key, tokens, last_refresh: last };
    proof {
        assert(auth_view(auth) == (opt_string_view(auth.openai_api_key), tokens_opt_view(
            auth.tokens,
        ), match auth.last_refresh {
            Some(n) => Some(n as int),
            None => None::<int>,
        }));
    }
    Some(auth)
}


/// A match against a whole text yields a match against any of its
/// parts, at the shifted position.
proof fn lemma_match_sub(s: Seq<char>, base: int, whole: Seq<char>, off: int, part: Seq<char>)
    requires
        match_at(s, whole, base),
        0 <= off,
        off + part.len() <= whole.len(),
        forall|j: int| 0 <= j < part.len() ==> whole[off + j] == part[j],
    ensures
        match_at(s, part, base + off),
{
    assert forall|j: int| 0 <= j < part.len() implies s[base + off + j] == part[j] by {
        assert(s[base + (off + j)] == whole[off + j]);
    }
}

proof fn lemma_rt_string_body(s: Seq<char>, i: int, c: Seq<char>, acc: Seq<char>)
    requires
        match_at(s, esc_str(c) + seq!['"'], i),
    ensures
        p_string_body(s, i, acc) == Some((acc + c, i + esc_str(c).len() + 1)),
    decreases c.len(),
{
    let e = esc_str(c) + seq!['"'];
    if c.len() == 0 {
        assert(e[0] == '"');
        assert(s[i] == '"');
        assert(acc + c =~= acc);
    } else {
        let c0 = c[0];
        let cr = c.skip(1);
        assert(esc_str(c) == esc_char(c0) + esc_str(cr));
        let e2 = esc_str(cr) + seq!['"'];
        if c0 == '"' || c0 == '\\' {
            assert(e[0] == '\\');
            assert(e[1] == c0);
            assert(s[i] == '\\');
            assert(s[i + 1] == c0);
            assert(i + 2 <= i + e.len() <= s.len());
            assert(forall|j: int| 0 <= j < e2.len() ==> e[2 + j] == e2[j]);
            lemma_match_sub(s, i, e, 2, e2);
            lemma_rt_string_body(s, i + 2, cr, acc.push(c0));
            assert(acc.push(c0) + cr =~= acc + c);
        } else {
            assert(e[0] == c0);
            assert(s[i] == c0);
            assert(forall|j: int| 0 <= j < e2.len() ==> e[1 + j] == e2[j]);
            lemma_match_sub(s, i, e, 1, e2);
            lemma_rt_string_body(s, i + 1, cr, acc.push(c0));
            assert(acc.push(c0) + cr =~= acc + c);
        }
    }
}

proof fn lemma_rt_string(s: Seq<char>, i: int, c: Seq<char>)
    requires
        match_at(s, quoted(c), i),
    ensures
        p_string(s, i) == Some((c, i + quoted(c).len())),
{
    let q = quoted(c);
    assert(q[0] == '"');
    assert(s[i] == '"');
    let e = esc_str(c) + seq!['"'];
    assert(forall|j: int| 0 <= j < e.len() ==> q[1 + j] == e[j]);
    lemma_match_sub(s, i, q, 1, e);
    lemma_rt_string_body(s, i + 1, c, Seq::empty());
    assert(Seq::<char>::empty() + c =~= c);
}

proof fn lemma_rt_opt_str(s: Seq<char>, i: int, o: Option<Seq<char>>)
    requires
        match_at(s, r_opt_str(o), i),
    ensures
        p_opt_str(s, i) == Some((o, i + r_opt_str(o).len())),
{
    reveal_strlit("null");
    match o {
        None => {
        },
        Some(c) => {
            assert(quoted(c)[0] == '"');
            assert(s[i] == '"');
            if match_at(s, "null"@, i) {
                assert(s[i + 0] == "null"@[0]);
                assert("null"@[0] == 'n');
                assert(false);
            }
            lemma_rt_string(s, i, c);
        },
    }
}

proof fn lemma_dec_chars_digits(n: int)
    requires
        n >= 0,
    ensures
        dec_chars(n).len() >= 1,
        forall|j: int|
            0 <= j < dec_chars(n).len() ==> crate::version::spec_is_digit(
                #[trigger] dec_chars(n)[j],
            ),
        crate::version::digits_value(dec_chars(n)) == n,
        n > 0 ==> dec_chars(n)[0] != '0',
        n == 0 ==> dec_chars(n) == seq!['0'],
    decreases n,
{
    if n < 10 {
        let single = dec_chars(n);
        assert(single =~= seq![crate::strutil::dec_digit(n)]);
        assert(single.len() == 1);
        assert(single.drop_last() =~= Seq::<char>::empty());
        assert(single.last() == crate::strutil::dec_digit(n));
        assert(crate::version::digits_value(single.drop_last()) == 0);
        assert(crate::version::digits_value(single) == crate::version::digits_value(
            single.drop_last(),
        ) * 10 + ((single.last() as int) - ('0' as int)));
        assert(crate::version::digits_value(single) == ((crate::strutil::dec_digit(
            n,
        ) as int) - ('0' as int)));
    } else {
        lemma_dec_chars_digits(n / 10);
        let whole = dec_chars(n);
        assert(whole == dec_chars(n / 10).push(crate::strutil::dec_digit(n % 10)));
        assert(whole.drop_last() =~= dec_chars(n / 10));
        assert(whole.last() == crate::strutil::dec_digit(n % 10));
        assert(crate::version::digits_value(whole) == n / 10 * 10 + ((crate::strutil::dec_digit(
            n % 10,
        ) as int) - ('0' as int)));
        assert(whole[0] == dec_chars(n / 10)[0]);
    }
}

proof fn lemma_rt_int(s: Seq<char>, i: int, n: int)
    requires
        i64::MIN <= n <= i64::MAX,
        match_at(s, dec_chars_signed(n), i),
        i + dec_chars_signed(n).len() < s.len(),
        !crate::version::spec_is_digit(s[i + dec_chars_signed(n).len()]),
    ensures
        p_int(s, i) == Some((n, i + dec_chars_signed(n).len())),
{
    if n >= 0 {
        lemma_dec_chars_digits(n);
        let d = dec_chars(n);
        assert(s[i] == d[0]);
        assert(crate::version::spec_is_digit(s[i]));
        assert(s[i] != '-');
        assert forall|j: int| i <= j < i + d.len() implies crate::version::spec_is_digit(
            #[trigger] s[j],
        ) by {
            assert(s[j] == d[j - i]);
        }
        lemma_digit_run(s, i, i + d.len());
        assert(s.subrange(i, i + d.len()) =~= d);
        if n == 0 {
            assert(d.len() == 1);
        } else {
            assert(s[i] != '0');
        }
    } else {
        let m = -n;
        lemma_dec_chars_digits(m);
        let d = dec_chars(m);
        let whole = seq!['-'] + d;
        assert(whole[0] == '-');
        assert(s[i] == '-');
        assert(forall|j: int| 0 <= j < d.len() ==> whole[1 + j] == d[j]);
        lemma_match_sub(s, i, whole, 1, d);
        assert forall|j: int| i + 1 <= j < i + 1 + d.len() implies crate::version::spec_is_digit(
            #[trigger] s[j],
        ) by {
            assert(s[j] == d[j - (i + 1)]);
        }
        lemma_digit_run(s, i + 1, i + 1 + d.len());
        assert(s[i + 1] == d[0]);
        assert(m > 0);
        assert(s[i + 1] != '0');
        assert(s.subrange(i + 1, i + 1 + d.len()) =~= d);
    }
}

proof fn lemma_rt_opt_int(s: Seq<char>, i: int, o: Option<int>)
    requires
        match_at(s, match o {
            Some(n) => dec_chars_signed(n),
            None => "null"@,
        }, i),
        o matches Some(n) ==> i64::MIN <= n <= i64::MAX && i + dec_chars_signed(n).len() < s.len()
            && !crate::version::spec_is_digit(s[i + dec_chars_signed(n).len()]),
    ensures
        p_opt_int(s, i) == Some((o, i + (match o {
            Some(n) => dec_chars_signed(n),
            None => "null"@,
        }).len())),
{
    reveal_strlit("null");
    match o {
        None => {
        },
        Some(n) => {
            if n >= 0 {
                lemma_dec_chars_digits(n);
                assert(s[i + 0] == dec_chars_signed(n)[0]);
                assert(dec_chars_signed(n)[0] == dec_chars(n)[0]);
                assert(crate::version::spec_is_digit(s[i]));
            } else {
                assert(s[i + 0] == dec_chars_signed(n)[0]);
                assert(dec_chars_signed(n)[0] == '-');
                assert(s[i] == '-');
            }
            if match_at(s, "null"@, i) {
                assert(s[i + 0] == "null"@[0]);
                assert("null"@[0] == 'n');
                assert(false);
            }
            lemma_rt_int(s, i, n);
        },
    }
}

/// The pieces of a rendered token object occur in a text wherever the
/// whole rendering does.
#[verifier::rlimit(100)]
#[verifier::spinoff_prover]
proof fn lemma_tokens_pieces(s: Seq<char>, i: int, tv: TokensView)
    requires
        match_at(s, r_tokens(tv), i),
    ensures
        ({
            let a1 = "{\"id_token\":"@;
            let x1 = r_opt_str(tv.0);
            let a2 = ",\"access_token\":"@;
            let x2 = quoted(tv.1);
            let a3 = ",\"refresh_token\":"@;
            let x3 = quoted(tv.2);
            let a4 = ",\"account_id\":"@;
            let x4 = r_opt_str(tv.3);
            let a5 = "}"@;
            &&& match_at(s, a1, i)
            &&& match_at(s, x1, i + a1.len())
            &&& match_at(s, a2, i + a1.len() + x1.len())
            &&& match_at(s, x2, i + a1.len() + x1.len() + a2.len())
            &&& match_at(s, a3, i + a1.len() + x1.len() + a2.len() + x2.len())
            &&& match_at(s, x3, i + a1.len() + x1.len() + a2.len() + x2.len() + a3.len())
            &&& match_at(
                s,
                a4,
                i + a1.len() + x1.len() + a2.len() + x2.len() + a3.len() + x3.len(),
            )
            &&& match_at(
                s,
                x4,
                i + a1.len() + x1.len() + a2.len() + x2.len() + a3.len() + x3.len() + a4.len(),
            )
            &&& match_at(
                s,
                a5,
                i + a1.len() + x1.len() + a2.len() + x2.len() + a3.len() + x3.len() + a4.len()
                    + x4.len(),
            )
        }),
{
    let a1 = "{\"id_token\":"@;
    let x1 = r_opt_str(tv.0);
    let a2 = ",\"access_token\":"@;
    let x2 = quoted(tv.1);
    let a3 = ",\"refresh_token\":"@;
    let x3 = quoted(tv.2);
    let a4 = ",\"account_id\":"@;
    let x4 = r_opt_str(tv.3);
    let a5 = "}"@;
    let whole = r_tokens(tv);
    let o1 = a1.len() as int;
    let o2 = o1 + x1.len();
    let o3 = o2 + a2.len();
    let o4 = o3 + x2.len();
    let o5 = o4 + a3.len();
    let o6 = o5 + x3.len();
    let o7 = o6 + a4.len();
    let o8 = o7 + x4.len();
    assert(whole == a1 + x1 + a2 + x2 + a3 + x3 + a4 + x4 + a5);
    assert(forall|j: int| 0 <= j < a1.len() ==> whole[0 + j] == a1[j]);
    lemma_match_sub(s, i, whole, 0, a1);
    assert(forall|j: int| 0 <= j < x1.len() ==> whole[o1 + j] == x1[j]);
    lemma_match_sub(s, i, whole, o1, x1);
    assert(forall|j: int| 0 <= j < a2.len() ==> whole[o2 + j] == a2[j]);
    lemma_match_sub(s, i, whole, o2, a2);
    assert(forall|j: int| 0 <= j < x2.len() ==> whole[o3 + j] == x2[j]);
    lemma_match_sub(s, i, whole, o3, x2);
    assert(forall|j: int| 0 <= j < a3.len() ==> whole[o4 + j] == a3[j]);
    lemma_match_sub(s, i, whole, o4, a3);
    assert(forall|j: int| 0 <= j < x3.len() ==> whole[o5 + j] == x3[j]);
    lemma_match_sub(s, i, whole, o5, x3);
    assert(forall|j: int| 0 <= j < a4.len() ==> whole[o6 + j] == a4[j]);
    lemma_match_sub(s, i, whole, o6, a4);
    assert(forall|j: int| 0 <= j < x4.len() ==> whole[o7 + j] == x4[j]);
    lemma_match_sub(s, i, whole, o7, x4);
    assert(forall|j: int| 0 <= j < a5.len() ==> whole[o8 + j] == a5[j]);
    lemma_match_sub(s, i, whole, o8, a5);
}

#[verifier::rlimit(100)]
#[verifier::spinoff_prover]
proof fn lemma_rt_tokens(s: Seq<char>, i: int, t: Option<TokensView>)
    requires
        match_at(s, match t {
            Some(tv) => r_tokens(tv),
            None => "null"@,
        }, i),
    ensures
        p_tokens(s, i) == Some((t, i + (match t {
            Some(tv) => r_tokens(tv),
            None => "null"@,
        }).len())),
{
    reveal_strlit("null");
    match t {
        None => {
        },
        Some(tv) => {
            reveal_strlit("{\"id_token\":");
            reveal_strlit(",\"access_token\":");
            reveal_strlit(",\"refresh_token\":");
            reveal_strlit(",\"account_id\":");
            reveal_strlit("}");
            let a1 = "{\"id_token\":"@;
            let x1 = r_opt_str(tv.0);
            let a2 = ",\"access_token\":"@;
            let x2 = quoted(tv.1);
            let a3 = ",\"refresh_token\":"@;
            let x3 = quoted(tv.2);
            let a4 = ",\"account_id\":"@;
            let x4 = r_opt_str(tv.3);
            let whole = r_tokens(tv);
            assert(whole == a1 + x1 + a2 + x2 + a3 + x3 + a4 + x4 + "}"@);
            assert(whole[0] == '{');
            assert(s[i + 0] == whole[0]);
            if match_at(s, "null"@, i) {
                assert(s[i + 0] == "null"@[0]);
                assert("null"@[0] == 'n');
                assert(false);
            }
            lemma_tokens_pieces(s, i, tv);
            let o1 = i + a1.len();
            let o3 = o1 + x1.len() + a2.len();
            let o5 = o3 + x2.len() + a3.len();
            let o7 = o5 + x3.len() + a4.len();
            lemma_rt_opt_str(s, o1, tv.0);
            lemma_rt_string(s, o3, tv.1);
            lemma_rt_string(s, o5, tv.2);
            lemma_rt_opt_str(s, o7, tv.3);
        },
    }
}

/// The pieces of the rendered record occur in it at their offsets.
#[verifier::rlimit(100)]
#[verifier::spinoff_prover]
proof fn lemma_auth_pieces(av: AuthView)
    ensures
        ({
            let a1 = "{\"OPENAI_API_KEY\":"@;
            let x1 = r_opt_str(av.0);
            let a2 = ",\"tokens\":"@;
            let x2 = match av.1 {
                Some(tv) => r_tokens(tv),
                None => "null"@,
            };
            let a3 = ",\"last_refresh\":"@;
            let x3 = match av.2 {
                Some(n) => dec_chars_signed(n),
                None => "null"@,
            };
            let a4 = "}"@;
            let s = r_auth(av);
            &&& match_at(s, a1, 0)
            &&& match_at(s, x1, a1.len() as int)
            &&& match_at(s, a2, a1.len() as int + x1.len())
            &&& match_at(s, x2, a1.len() as int + x1.len() + a2.len())
            &&& match_at(s, a3, a1.len() as int + x1.len() + a2.len() + x2.len())
            &&& match_at(s, x3, a1.len() as int + x1.len() + a2.len() + x2.len() + a3.len())
            &&& match_at(
                s,
                a4,
                a1.len() as int + x1.len() + a2.len() + x2.len() + a3.len() + x3.len(),
            )
            &&& s.len() == a1.len() + x1.len() + a2.len() + x2.len() + a3.len() + x3.len() + 1
        }),
{
    let a1 = "{\"OPENAI_API_KEY\":"@;
    let x1 = r_opt_str(av.0);
    let a2 = ",\"tokens\":"@;
    let x2 = match av.1 {
        Some(tv) => r_tokens(tv),
        None => "null"@,
    };
    let a3 = ",\"last_refresh\":"@;
    let x3 = match av.2 {
        Some(n) => dec_chars_signed(n),
        None => "null"@,
    };
    let a4 = "}"@;
    let s = r_auth(av);
    assert(s == a1 + x1 + a2 + x2 + a3 + x3 + a4);
    reveal_strlit("}");
    assert(a4.len() == 1);
    assert(match_at(s, s, 0)) by {
        assert(forall|j: int| 0 <= j < s.len() ==> s[0 + j] == #[trigger] s[j]);
    }
    let o1 = a1.len() as int;
    let o2 = o1 + x1.len();
    let o3 = o2 + a2.len();
    let o4 = o3 + x2.len();
    let o5 = o4 + a3.len();
    let o6 = o5 + x3.len();
    assert(forall|j: int| 0 <= j < a1.len() ==> s[0 + j] == a1[j]);
    lemma_match_sub(s, 0, s, 0, a1);
    assert(forall|j: int| 0 <= j < x1.len() ==> s[o1 + j] == x1[j]);
    lemma_match_sub(s, 0, s, o1, x1);
    assert(forall|j: int| 0 <= j < a2.len() ==> s[o2 + j] == a2[j]);
    lemma_match_sub(s, 0, s, o2, a2);
    assert(forall|j: int| 0 <= j < x2.len() ==> s[o3 + j] == x2[j]);
    lemma_match_sub(s, 0, s, o3, x2);
    assert(forall|j: int| 0 <= j < a3.len() ==> s[o4 + j] == a3[j]);
    lemma_match_sub(s, 0, s, o4, a3);
    assert(forall|j: int| 0 <= j < x3.len() ==> s[o5 + j] == x3[j]);
    lemma_match_sub(s, 0, s, o5, x3);
    assert(forall|j: int| 0 <= j < a4.len() ==> s[o6 + j] == a4[j]);
    lemma_match_sub(s, 0, s, o6, a4);
}

/// Persisting a credential and reloading it yields the same credential:
/// the canonical rendering parses back to exactly the record it was
/// rendered from, field for field, for every credential the file format
/// stores.
#[verifier::rlimit(100)]
#[verifier::spinoff_prover]
pub proof fn lemma_credential_round_trip(av: AuthView)
    requires
        av.2 matches Some(n) ==> i64::MIN <= n <= i64::MAX,
    ensures
        p_auth(r_auth(av)) == Some(av),
{
    reveal_strlit("{\"OPENAI_API_KEY\":");
    reveal_strlit(",\"tokens\":");
    reveal_strlit(",\"last_refresh\":");
    reveal_strlit("}");
    reveal_strlit("null");
    let a1 = "{\"OPENAI_API_KEY\":"@;
    let x1 = r_opt_str(av.0);
    let a2 = ",\"tokens\":"@;
    let x2 = match av.1 {
        Some(tv) => r_tokens(tv),
        None => "null"@,
    };
    let a3 = ",\"last_refresh\":"@;
    let x3 = match av.2 {
        Some(n) => dec_chars_signed(n),
        None => "null"@,
    };
    let s = r_auth(av);
    lemma_auth_pieces(av);
    let o1 = a1.len() as int;
    let o3 = o1 + x1.len() + a2.len();
    let o5 = o3 + x2.len() + a3.len();
    let o6 = o5 + x3.len();
    lemma_rt_opt_str(s, o1, av.0);
    lemma_rt_tokens(s, o3, av.1);
    match av.2 {
        Some(n) => {
            assert(match_at(s, "}"@, o6));
            assert(s[o6 + 0] == "}"@[0]);
            assert(s[o6] == '}');
            lemma_rt_opt_int(s, o5, av.2);
        },
        None => {
            lemma_rt_opt_int(s, o5, av.2);
        },
    }
    assert(o6 + 1 == s.len());
}

} // verus!
