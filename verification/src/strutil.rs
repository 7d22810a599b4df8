//! Verified helpers for character sequences: decimal formatting,
//! lexicographic ordering, substring search, and string building.

use vstd::prelude::*;
use vstd::string::StrSliceExecFns;

verus! {

/// Relies on `String::push` from std: appends the given character to the
/// end of the string.
pub assume_specification[ String::push ](s: &mut String, c: char)
    ensures
        final(s)@ == old(s)@.push(c),
;

/// The decimal digit character for a value below ten.
pub open spec fn dec_digit(d: int) -> char {
    if d == 0 {
        '0'
    } else if d == 1 {
        '1'
    } else if d == 2 {
        '2'
    } else if d == 3 {
        '3'
    } else if d == 4 {
        '4'
    } else if d == 5 {
        '5'
    } else if d == 6 {
        '6'
    } else if d == 7 {
        '7'
    } else if d == 8 {
        '8'
    } else {
        '9'
    }
}

/// The decimal representation of a non-negative integer, most significant
/// digit first, with no leading zeros (a single `'0'` for zero).
pub open spec fn dec_chars(n: int) -> Seq<char>
    decreases n,
{
    if n < 10 {
        seq![dec_digit(n)]
    } else {
        dec_chars(n / 10).push(dec_digit(n % 10))
    }
}

/// The decimal representation of a signed integer: a leading `'-'` for
/// negative values, then the digits of the magnitude.
pub open spec fn dec_chars_signed(n: int) -> Seq<char> {
    if n < 0 {
        seq!['-'] + dec_chars(-n)
    } else {
        dec_chars(n)
    }
}

fn digit_char(d: u64) -> (c: char)
    requires
        d < 10,
    ensures
        c == dec_digit(d as int),
{
    if d == 0 {
        '0'
    } else if d == 1 {
        '1'
    } else if d == 2 {
        '2'
    } else if d == 3 {
        '3'
    } else if d == 4 {
        '4'
    } else if d == 5 {
        '5'
    } else if d == 6 {
        '6'
    } else if d == 7 {
        '7'
    } else if d == 8 {
        '8'
    } else {
        '9'
    }
}

fn push_u64_decimal(s: &mut String, n: u64)
    ensures
        final(s)@ == old(s)@ + dec_chars(n as int),
    decreases n,
{
    if n < 10 {
        s.push(digit_char(n));
    } else {
        push_u64_decimal(s, n / 10);
        s.push(digit_char(n % 10));
    }
    assert(s@ =~= old(s)@ + dec_chars(n as int));
}

/// Formats a non-negative integer in decimal.
pub fn u64_to_string(n: u64) -> (r: String)
    ensures
        r@ == dec_chars(n as int),
{
    let mut s = String::new();
    push_u64_decimal(&mut s, n);
    assert(s@ =~= dec_chars(n as int));
    s
}

/// Formats a signed integer in decimal, with a leading minus sign for
/// negative values.
pub fn i64_to_string(n: i64) -> (r: String)
    ensures
        r@ == dec_chars_signed(n as int),
{
    if n >= 0 {
        u64_to_string(n as u64)
    } else {
        let mut s = String::new();
        s.push('-');
        let magnitude: u64 = if n == i64::MIN {
            9223372036854775808u64
        } else {
            (-n) as u64
        };
        push_u64_decimal(&mut s, magnitude);
        assert(s@ =~= dec_chars_signed(n as int));
        s
    }
}

/// Lexicographic order on character sequences, by code point, with a
/// proper prefix ordered before its extensions.  This is the order in
/// which std compares `str` values.
pub open spec fn lex_le(a: Seq<char>, b: Seq<char>) -> bool
    decreases a.len(),
{
    if a.len() == 0 {
        true
    } else if b.len() == 0 {
        false
    } else if a[0] == b[0] {
        lex_le(a.skip(1), b.skip(1))
    } else {
        (a[0] as int) < (b[0] as int)
    }
}

pub proof fn lemma_lex_le_total(a: Seq<char>, b: Seq<char>)
    ensures
        lex_le(a, b) || lex_le(b, a),
    decreases a.len(),
{
    if a.len() == 0 || b.len() == 0 {
    } else if a[0] == b[0] {
        lemma_lex_le_total(a.skip(1), b.skip(1));
    }
}

pub proof fn lemma_lex_le_antisymmetric(a: Seq<char>, b: Seq<char>)
    requires
        lex_le(a, b),
        lex_le(b, a),
    ensures
        a =~= b,
    decreases a.len(),
{
    if a.len() == 0 {
        assert(b.len() == 0);
    } else {
        assert(b.len() > 0);
        assert(a[0] == b[0]);
        lemma_lex_le_antisymmetric(a.skip(1), b.skip(1));
        assert(a =~= seq![a[0]] + a.skip(1));
        assert(b =~= seq![b[0]] + b.skip(1));
    }
}

pub proof fn lemma_lex_le_transitive(a: Seq<char>, b: Seq<char>, c: Seq<char>)
    requires
        lex_le(a, b),
        lex_le(b, c),
    ensures
        lex_le(a, c),
    decreases a.len(),
{
    if a.len() == 0 || b.len() == 0 || c.len() == 0 {
    } else if a[0] == b[0] && b[0] == c[0] {
        lemma_lex_le_transitive(a.skip(1), b.skip(1), c.skip(1));
    }
}

fn str_le_from(a: &str, b: &str, i: usize) -> (r: bool)
    requires
        i <= a@.len(),
        i <= b@.len(),
    ensures
        r == lex_le(a@.skip(i as int), b@.skip(i as int)),
    decreases a@.len() - i,
{
    let a_len = a.unicode_len();
    let b_len = b.unicode_len();
    if i == a_len {
        assert(a@.skip(i as int).len() == 0);
        true
    } else if i == b_len {
        assert(b@.skip(i as int).len() == 0);
        assert(a@.skip(i as int).len() > 0);
        false
    } else {
        let ca = a.get_char(i);
        let cb = b.get_char(i);
        assert(a@.skip(i as int)[0] == ca);
        assert(b@.skip(i as int)[0] == cb);
        if ca == cb {
            let r = str_le_from(a, b, i + 1);
            assert(a@.skip(i as int).skip(1) =~= a@.skip(i + 1));
            assert(b@.skip(i as int).skip(1) =~= b@.skip(i + 1));
            r
        } else {
            let lt = (ca as u32) < (cb as u32);
            assert(lt == ((ca as int) < (cb as int)));
            lt
        }
    }
}

/// Compares two strings in the lexicographic order that std uses.
pub fn str_le(a: &str, b: &str) -> (r: bool)
    ensures
        r == lex_le(a@, b@),
{
    let r = str_le_from(a, b, 0);
    assert(a@.skip(0) =~= a@);
    assert(b@.skip(0) =~= b@);
    r
}

/// Compares two strings for equality of their character sequences.
pub fn str_eq(a: &str, b: &str) -> (r: bool)
    ensures
        r == (a@ == b@),
{
    let a_len = a.unicode_len();
    let b_len = b.unicode_len();
    if a_len != b_len {
        return false;
    }
    let mut i: usize = 0;
    while i < a_len
        invariant
            i <= a_len,
            a_len == a@.len(),
            a_len == b@.len(),
            forall|j: int| 0 <= j < i ==> a@[j] == b@[j],
        decreases a_len - i,
    {
        if a.get_char(i) != b.get_char(i) {
            return false;
        }
        i += 1;
    }
    assert(a@ =~= b@);
    true
}

/// Whether `sub` occurs in `s` starting at index `i`.
pub open spec fn match_at(s: Seq<char>, sub: Seq<char>, i: int) -> bool {
    &&& 0 <= i
    &&& i + sub.len() <= s.len()
    &&& forall|j: int| 0 <= j < sub.len() ==> s[i + j] == sub[j]
}

/// Whether `sub` occurs anywhere in `s`.
pub open spec fn contains_sub(s: Seq<char>, sub: Seq<char>) -> bool {
    exists|i: int| match_at(s, sub, i)
}

/// Whether `sub` occurs in `s` at exactly index `i`.
pub fn matches_at(s: &str, sub: &str, i: usize) -> (r: bool)
    requires
        i + sub@.len() <= s@.len(),
    ensures
        r == match_at(s@, sub@, i as int),
{
    let s_len = s.unicode_len();
    let sub_len = sub.unicode_len();
    let mut j: usize = 0;
    while j < sub_len
        invariant
            j <= sub_len,
            sub_len == sub@.len(),
            s_len == s@.len(),
            i + sub@.len() <= s@.len(),
            forall|k: int| 0 <= k < j ==> s@[i + k] == sub@[k],
        decreases sub_len - j,
    {
        if s.get_char(i + j) != sub.get_char(j) {
            return false;
        }
        j += 1;
    }
    true
}

/// Finds the first index at which `sub` occurs in `s`.
pub fn find_sub(s: &str, sub: &str) -> (r: Option<usize>)
    ensures
        match r {
            Some(i) => match_at(s@, sub@, i as int) && forall|k: int|
                0 <= k < i ==> !match_at(s@, sub@, k),
            None => !contains_sub(s@, sub@),
        },
{
    let s_len = s.unicode_len();
    let sub_len = sub.unicode_len();
    if sub_len > s_len {
        assert forall|i: int| !match_at(s@, sub@, i) by {}
        return None;
    }
    let mut i: usize = 0;
    while i <= s_len - sub_len
        invariant
            sub_len == sub@.len(),
            s_len == s@.len(),
            sub_len <= s_len,
            i <= s_len - sub_len + 1,
            forall|k: int| 0 <= k < i ==> !match_at(s@, sub@, k),
        decreases s_len + 1 - i,
    {
        if matches_at(s, sub, i) {
            return Some(i);
        }
        i += 1;
    }
    assert forall|k: int| !match_at(s@, sub@, k) by {
        if 0 <= k < i {
        }
    }
    None
}

/// The least index at or after `from` where `sub` occurs in `s`, if any.
pub open spec fn find_first(s: Seq<char>, sub: Seq<char>, from: int) -> Option<int>
    decreases s.len() - from,
{
    if from < 0 || from + sub.len() > s.len() {
        None
    } else if match_at(s, sub, from) {
        Some(from)
    } else {
        find_first(s, sub, from + 1)
    }
}

/// `find_first` names the least match index at or after `from`.
pub proof fn lemma_find_first_characterizes(s: Seq<char>, sub: Seq<char>, from: int)
    requires
        0 <= from,
    ensures
        match find_first(s, sub, from) {
            Some(i) => from <= i && match_at(s, sub, i) && forall|k: int|
                from <= k < i ==> !match_at(s, sub, k),
            None => forall|k: int| from <= k ==> !match_at(s, sub, k),
        },
    decreases s.len() - from,
{
    if from + sub.len() > s.len() {
    } else if match_at(s, sub, from) {
    } else {
        lemma_find_first_characterizes(s, sub, from + 1);
    }
}

/// Whether `sub` occurs anywhere in `s`.
pub fn str_contains(s: &str, sub: &str) -> (r: bool)
    ensures
        r == contains_sub(s@, sub@),
{
    find_sub(s, sub).is_some()
}

/// Whether `s` begins with `prefix`.
pub fn str_starts_with(s: &str, prefix: &str) -> (r: bool)
    ensures
        r == match_at(s@, prefix@, 0),
{
    if prefix.unicode_len() > s.unicode_len() {
        return false;
    }
    matches_at(s, prefix, 0)
}

/// The pieces of `s` split at every occurrence of `sep`, as `str::split`
/// yields them: adjacent separators and separators at either end yield
/// empty pieces, and a sequence with no separator is one piece.
pub open spec fn spec_split_char(s: Seq<char>, sep: char) -> Seq<Seq<char>>
    decreases s.len(),
{
    if s.len() == 0 {
        seq![s]
    } else if s[0] == sep {
        seq![Seq::<char>::empty()] + spec_split_char(s.skip(1), sep)
    } else {
        let rest = spec_split_char(s.skip(1), sep);
        seq![seq![s[0]] + rest[0]] + rest.skip(1)
    }
}

/// Splitting yields at least one piece.
pub proof fn lemma_split_char_len(s: Seq<char>, sep: char)
    ensures
        spec_split_char(s, sep).len() >= 1,
    decreases s.len(),
{
    if s.len() > 0 {
        lemma_split_char_len(s.skip(1), sep);
    }
}

fn split_char_from(s: &str, i: usize, sep: char) -> (r: Vec<String>)
    requires
        i <= s@.len(),
    ensures
        r@.len() == spec_split_char(s@.skip(i as int), sep).len(),
        forall|k: int|
            0 <= k < r@.len() ==> #[trigger] r@[k]@ == spec_split_char(s@.skip(i as int), sep)[k],
    decreases s@.len() - i,
{
    let len = s.unicode_len();
    let ghost suffix = s@.skip(i as int);
    if i == len {
        assert(suffix.len() == 0);
        let mut r: Vec<String> = Vec::new();
        r.push(String::new());
        return r;
    }
    let c = s.get_char(i);
    proof {
        assert(suffix[0] == s@[i as int]);
        assert(suffix.skip(1) =~= s@.skip(i + 1));
        lemma_split_char_len(s@.skip(i + 1), sep);
    }
    let mut rest = split_char_from(s, i + 1, sep);
    if c == sep {
        rest.insert(0, String::new());
        assert(rest@[0]@ =~= Seq::<char>::empty());
        rest
    } else {
        let ghost rest_spec = spec_split_char(s@.skip(i + 1), sep);
        let head = rest.remove(0);
        let mut h = String::new();
        h.push(c);
        h.append(head.as_str());
        assert(h@ =~= seq![s@[i as int]] + rest_spec[0]);
        rest.insert(0, h);
        proof {
            let out = spec_split_char(suffix, sep);
            assert(out == seq![seq![suffix[0]] + rest_spec[0]] + rest_spec.skip(1));
            assert forall|k: int| 0 <= k < rest@.len() implies #[trigger] rest@[k]@ == out[k] by {
                if k > 0 {
                    assert(rest@[k]@ == rest_spec[k]);
                    assert(out[k] == rest_spec.skip(1)[k - 1]);
                }
            }
        }
        rest
    }
}

/// Splits `s` at every occurrence of `sep`, as `str::split` does.
pub fn split_char(s: &str, sep: char) -> (r: Vec<String>)
    ensures
        r@.len() == spec_split_char(s@, sep).len(),
        forall|k: int| 0 <= k < r@.len() ==> #[trigger] r@[k]@ == spec_split_char(s@, sep)[k],
        r@.len() >= 1,
{
    proof {
        assert(s@.skip(0) =~= s@);
        lemma_split_char_len(s@, sep);
    }
    split_char_from(s, 0, sep)
}

/// What `char::is_whitespace` returns: whether the character has the
/// Unicode `White_Space` property.  The result depends on the character
/// alone.
pub uninterp spec fn char_is_whitespace(c: char) -> bool;

/// Relies on `char::is_whitespace` from std: tests the Unicode
/// `White_Space` property of the character.
pub assume_specification[ char::is_whitespace ](c: char) -> (r: bool)
    ensures
        r == char_is_whitespace(c),
;

/// `s` without its leading whitespace characters.
pub open spec fn trim_start_ws(s: Seq<char>) -> Seq<char>
    decreases s.len(),
{
    if s.len() > 0 && char_is_whitespace(s[0]) {
        trim_start_ws(s.skip(1))
    } else {
        s
    }
}

/// `s` without its trailing whitespace characters.
pub open spec fn trim_end_ws(s: Seq<char>) -> Seq<char>
    decreases s.len(),
{
    if s.len() > 0 && char_is_whitespace(s[s.len() - 1]) {
        trim_end_ws(s.drop_last())
    } else {
        s
    }
}

/// `s` without leading and trailing whitespace, as `str::trim` strips it.
pub open spec fn trim_ws(s: Seq<char>) -> Seq<char> {
    trim_end_ws(trim_start_ws(s))
}

proof fn lemma_trim_start_ws_subrange(s: Seq<char>, f: int)
    requires
        0 <= f <= s.len(),
        forall|j: int| 0 <= j < f ==> char_is_whitespace(s[j]),
    ensures
        trim_start_ws(s) == trim_start_ws(s.subrange(f, s.len() as int)),
    decreases f,
{
    if f > 0 {
        assert(s.len() > 0 && char_is_whitespace(s[0]));
        assert(s.skip(1) =~= s.subrange(1, s.len() as int));
        let t = s.subrange(1, s.len() as int);
        assert(forall|j: int| 0 <= j < f - 1 ==> t[j] == s[j + 1]);
        lemma_trim_start_ws_subrange(t, f - 1);
        assert(t.subrange(f - 1, t.len() as int) =~= s.subrange(f, s.len() as int));
    } else {
        assert(s.subrange(0, s.len() as int) =~= s);
    }
}

proof fn lemma_trim_end_ws_subrange(s: Seq<char>, l: int)
    requires
        0 <= l <= s.len(),
        forall|j: int| l <= j < s.len() ==> char_is_whitespace(s[j]),
    ensures
        trim_end_ws(s) == trim_end_ws(s.subrange(0, l)),
    decreases s.len() - l,
{
    if l < s.len() {
        assert(char_is_whitespace(s[s.len() - 1]));
        assert(s.drop_last() =~= s.subrange(0, s.len() - 1));
        lemma_trim_end_ws_subrange(s.subrange(0, s.len() - 1), l);
        assert(s.subrange(0, s.len() - 1).subrange(0, l) =~= s.subrange(0, l));
    } else {
        assert(s.subrange(0, l) =~= s);
    }
}

/// Strips leading and trailing whitespace, as `str::trim` does.
pub fn trim_chars(s: &str) -> (r: String)
    ensures
        r@ == trim_ws(s@),
{
    let len = s.unicode_len();
    let mut f: usize = 0;
    while f < len && s.get_char(f).is_whitespace()
        invariant
            f <= len,
            len == s@.len(),
            forall|j: int| 0 <= j < f ==> char_is_whitespace(s@[j]),
        decreases len - f,
    {
        f += 1;
    }
    let mut l: usize = len;
    while l > f && s.get_char(l - 1).is_whitespace()
        invariant
            f <= l <= len,
            len == s@.len(),
            forall|j: int| l <= j < len ==> char_is_whitespace(s@[j]),
        decreases l,
    {
        l -= 1;
    }
    let ghost mid = s@.subrange(f as int, len as int);
    proof {
        lemma_trim_start_ws_subrange(s@, f as int);
        if f < len {
            assert(!char_is_whitespace(s@[f as int]));
            assert(mid[0] == s@[f as int]);
            assert(trim_start_ws(mid) == mid);
        } else {
            assert(mid.len() == 0);
            assert(trim_start_ws(mid) == mid);
        }
        lemma_trim_end_ws_subrange(mid, l - f);
        if l > f {
            assert(!char_is_whitespace(s@[l - 1]));
            assert(mid.subrange(0, l - f)[l - f - 1] == s@[l - 1]);
            assert(trim_end_ws(mid.subrange(0, l - f)) == mid.subrange(0, l - f));
        } else {
            assert(mid.subrange(0, l - f).len() == 0);
        }
    }
    let mut out = String::new();
    let mut i: usize = f;
    while i < l
        invariant
            f <= i <= l <= len,
            len == s@.len(),
            out@ == s@.subrange(f as int, i as int),
        decreases l - i,
    {
        out.push(s.get_char(i));
        assert(out@ =~= s@.subrange(f as int, i + 1));
        i += 1;
    }
    assert(s@.subrange(f as int, l as int) =~= s@.subrange(f as int, len as int).subrange(
        0,
        l - f,
    ));
    out
}

/// Appends every character of `other` to `s`.
pub fn push_str_chars(s: &mut String, other: &str)
    ensures
        final(s)@ == old(s)@ + other@,
{
    let len = other.unicode_len();
    let mut i: usize = 0;
    while i < len
        invariant
            i <= len,
            len == other@.len(),
            s@ == old(s)@ + other@.subrange(0, i as int),
        decreases len - i,
    {
        s.push(other.get_char(i));
        assert(s@ =~= old(s)@ + other@.subrange(0, i + 1));
        i += 1;
    }
    assert(s@ =~= old(s)@ + other@);
}

} // verus!
