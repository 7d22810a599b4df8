//! Parsing the login tool's console output: finding the URL the user
//! must open and the one-time code they must enter, across colored
//! (ANSI-escaped) output arriving line by line.

use vstd::prelude::*;
use vstd::string::StrSliceExecFns;
use vstd::string::StringExecFns;

use crate::strutil::{
    char_is_whitespace, find_first, lemma_find_first_characterizes, match_at, trim_chars, trim_ws,
};

verus! {

/// What the login output has revealed so far.
#[derive(Debug, Default, PartialEq, Eq)]
pub struct LoginOutput {
    pub url: Option<String>,
    pub code: Option<String>,
}

impl Clone for LoginOutput {
    /// An exact copy.
    fn clone(&self) -> (r: Self)
        ensures
            r == *self,
    {
        LoginOutput {
            url: crate::quota::clone_opt_string(&self.url),
            code: crate::quota::clone_opt_string(&self.code),
        }
    }
}

/// A text with its ANSI color sequences (`ESC [ ... m`) removed; an
/// escape that is not a color sequence passes through.
pub open spec fn spec_strip_ansi(s: Seq<char>) -> Seq<char>
    decreases s.len(), 1int,
{
    if s.len() == 0 {
        Seq::empty()
    } else if s[0] == '\u{1b}' && s.len() >= 2 && s[1] == '[' {
        strip_ansi_in_escape(s.skip(2))
    } else {
        seq![s[0]] + spec_strip_ansi(s.skip(1))
    }
}

/// The tail of an ANSI color sequence: everything up to and including
/// the terminating `m` is dropped.
pub open spec fn strip_ansi_in_escape(s: Seq<char>) -> Seq<char>
    decreases s.len(), 0int,
{
    if s.len() == 0 {
        Seq::empty()
    } else if s[0] == 'm' {
        spec_strip_ansi(s.skip(1))
    } else {
        strip_ansi_in_escape(s.skip(1))
    }
}

fn strip_ansi_plain(s: &str, i: usize, out: &mut String)
    requires
        i <= s@.len(),
    ensures
        final(out)@ == old(out)@ + spec_strip_ansi(s@.skip(i as int)),
    decreases s@.len() - i, 1int,
{
    let len = s.unicode_len();
    if i == len {
        assert(s@.skip(i as int).len() == 0);
        assert(out@ =~= out@ + spec_strip_ansi(s@.skip(i as int)));
        return ;
    }
    let c = s.get_char(i);
    proof {
        assert(s@.skip(i as int)[0] == s@[i as int]);
        assert(s@.skip(i as int).skip(1) =~= s@.skip(i + 1));
    }
    if c == '\u{1b}' && i + 1 < len && s.get_char(i + 1) == '[' {
        proof {
            assert(s@.skip(i as int)[1] == s@[i + 1]);
            assert(s@.skip(i as int).skip(2) =~= s@.skip(i + 2));
        }
        strip_ansi_escape(s, i + 2, out);
    } else {
        out.push(c);
        strip_ansi_plain(s, i + 1, out);
        assert(out@ =~= old(out)@ + spec_strip_ansi(s@.skip(i as int)));
    }
}

fn strip_ansi_escape(s: &str, i: usize, out: &mut String)
    requires
        i <= s@.len(),
    ensures
        final(out)@ == old(out)@ + strip_ansi_in_escape(s@.skip(i as int)),
    decreases s@.len() - i, 0int,
{
    let len = s.unicode_len();
    if i == len {
        assert(s@.skip(i as int).len() == 0);
        assert(out@ =~= out@ + strip_ansi_in_escape(s@.skip(i as int)));
        return ;
    }
    let c = s.get_char(i);
    proof {
        assert(s@.skip(i as int)[0] == s@[i as int]);
        assert(s@.skip(i as int).skip(1) =~= s@.skip(i + 1));
    }
    if c == 'm' {
        strip_ansi_plain(s, i + 1, out);
    } else {
        strip_ansi_escape(s, i + 1, out);
    }
}

/// Removes ANSI color sequences from a line.
pub fn strip_ansi(raw: &str) -> (r: String)
    ensures
        r@ == spec_strip_ansi(raw@),
{
    let mut out = String::new();
    proof {
        assert(raw@.skip(0) =~= raw@);
    }
    strip_ansi_plain(raw, 0, &mut out);
    out
}

/// The prefix of `s` up to (not including) its first whitespace.
pub open spec fn take_until_ws(s: Seq<char>) -> Seq<char>
    decreases s.len(),
{
    if s.len() == 0 || char_is_whitespace(s[0]) {
        Seq::empty()
    } else {
        seq![s[0]] + take_until_ws(s.skip(1))
    }
}

/// Whether URLs drop this character from their tail: sentence
/// punctuation and closing brackets stuck to a printed URL.
pub open spec fn is_url_trailing_punct(c: char) -> bool {
    c == '.' || c == ',' || c == ';' || c == ':' || c == ')' || c == ']' || c == '}'
}

/// `s` without its trailing URL punctuation.
pub open spec fn rstrip_url_punct(s: Seq<char>) -> Seq<char>
    decreases s.len(),
{
    if s.len() > 0 && is_url_trailing_punct(s.last()) {
        rstrip_url_punct(s.drop_last())
    } else {
        s
    }
}

/// Where a URL begins in a line: the earlier of the first `http://` and
/// the first `https://`.
pub open spec fn spec_url_start(line: Seq<char>) -> Option<int> {
    match (find_first(line, "http://"@, 0), find_first(line, "https://"@, 0)) {
        (Some(a), Some(b)) => Some(
            if a <= b {
                a
            } else {
                b
            },
        ),
        (Some(a), None) => Some(a),
        (None, Some(b)) => Some(b),
        (None, None) => None,
    }
}

/// The URL a line carries: from the first scheme marker up to the next
/// whitespace, with trailing punctuation dropped.
pub open spec fn spec_extract_url(line: Seq<char>) -> Option<Seq<char>> {
    match spec_url_start(line) {
        Some(st) => Some(rstrip_url_punct(take_until_ws(line.skip(st)))),
        None => None,
    }
}

proof fn lemma_take_until_ws_subrange(s: Seq<char>, e: int)
    requires
        0 <= e <= s.len(),
        forall|j: int| 0 <= j < e ==> !char_is_whitespace(s[j]),
        e == s.len() || char_is_whitespace(s[e]),
    ensures
        take_until_ws(s) == s.subrange(0, e),
    decreases e,
{
    if s.len() == 0 {
        assert(s.subrange(0, e) =~= s);
    } else if e == 0 {
        assert(char_is_whitespace(s[0]));
        assert(s.subrange(0, 0) =~= Seq::<char>::empty());
    } else {
        assert(!char_is_whitespace(s[0]));
        let t = s.skip(1);
        assert(forall|j: int| 0 <= j < e - 1 ==> t[j] == s[j + 1]);
        lemma_take_until_ws_subrange(t, e - 1);
        assert(seq![s[0]] + t.subrange(0, e - 1) =~= s.subrange(0, e));
    }
}

proof fn lemma_rstrip_subrange(s: Seq<char>, l: int)
    requires
        0 <= l <= s.len(),
        forall|j: int| l <= j < s.len() ==> is_url_trailing_punct(s[j]),
    ensures
        rstrip_url_punct(s) == rstrip_url_punct(s.subrange(0, l)),
    decreases s.len() - l,
{
    if l < s.len() {
        assert(is_url_trailing_punct(s[s.len() - 1]));
        assert(s.drop_last() =~= s.subrange(0, s.len() - 1));
        lemma_rstrip_subrange(s.subrange(0, s.len() - 1), l);
        assert(s.subrange(0, s.len() - 1).subrange(0, l) =~= s.subrange(0, l));
    } else {
        assert(s.subrange(0, l) =~= s);
    }
}

/// Finds the URL a line carries, if any.
pub fn extract_url(line: &str) -> (r: Option<String>)
    ensures
        match r {
            Some(u) => spec_extract_url(line@) == Some(u@),
            None => spec_extract_url(line@) is None,
        },
{
    let h = crate::strutil::find_sub(line, "http://");
    let hs = crate::strutil::find_sub(line, "https://");
    proof {
        lemma_find_first_characterizes(line@, "http://"@, 0);
        lemma_find_first_characterizes(line@, "https://"@, 0);
        match find_first(line@, "http://"@, 0) {
            Some(i) => {},
            None => {},
        }
    }
    let start: usize = match (h, hs) {
        (Some(a), Some(b)) => if a <= b {
            a
        } else {
            b
        },
        (Some(a), None) => a,
        (None, Some(b)) => b,
        (None, None) => {
            proof {
                match (find_first(line@, "http://"@, 0), find_first(line@, "https://"@, 0)) {
                    (Some(i), _) => {
                        assert(match_at(line@, "http://"@, i));
                    },
                    (_, Some(i)) => {
                        assert(match_at(line@, "https://"@, i));
                    },
                    _ => {},
                }
            }
            return None;
        },
    };
    proof {
        match find_first(line@, "http://"@, 0) {
            Some(i) => {
                assert(match_at(line@, "http://"@, i));
            },
            None => {},
        }
        match find_first(line@, "https://"@, 0) {
            Some(i) => {
                assert(match_at(line@, "https://"@, i));
            },
            None => {},
        }
        assert(spec_url_start(line@) == Some(start as int));
    }
    let len = line.unicode_len();
    let mut e: usize = start;
    while e < len && !line.get_char(e).is_whitespace()
        invariant
            start <= e <= len,
            len == line@.len(),
            forall|j: int| start <= j < e ==> !char_is_whitespace(line@[j]),
        decreases len - e,
    {
        e += 1;
    }
    let ghost tail = line@.skip(start as int);
    proof {
        assert(forall|j: int| 0 <= j < e - start ==> tail[j] == line@[start + j]);
        if e < len {
            assert(tail[e - start] == line@[e as int]);
        }
        lemma_take_until_ws_subrange(tail, e - start);
    }
    let mut l: usize = e;
    while l > start && is_trailing_punct(line.get_char(l - 1))
        invariant
            start <= l <= e <= len,
            len == line@.len(),
            forall|j: int| l <= j < e ==> is_url_trailing_punct(line@[j]),
        decreases l,
    {
        l -= 1;
    }
    let ghost token = tail.subrange(0, e - start);
    proof {
        assert(forall|j: int| 0 <= j < e - start ==> token[j] == line@[start + j]);
        lemma_rstrip_subrange(token, l - start);
        if l > start {
            assert(token.subrange(0, l - start).last() == line@[l - 1]);
            assert(rstrip_url_punct(token.subrange(0, l - start)) == token.subrange(
                0,
                l - start,
            ));
        } else {
            assert(token.subrange(0, 0).len() == 0);
        }
    }
    let mut out = String::new();
    let mut k: usize = start;
    while k < l
        invariant
            start <= k <= l <= len,
            len == line@.len(),
            out@ == line@.subrange(start as int, k as int),
        decreases l - k,
    {
        out.push(line.get_char(k));
        assert(out@ =~= line@.subrange(start as int, k + 1));
        k += 1;
    }
    proof {
        assert(line@.subrange(start as int, l as int) =~= token.subrange(0, l - start));
    }
    Some(out)
}

fn is_trailing_punct(c: char) -> (r: bool)
    ensures
        r == is_url_trailing_punct(c),
{
    c == '.' || c == ',' || c == ';' || c == ':' || c == ')' || c == ']' || c == '}'
}

/// Whether a line looks like a one-time login code: dashed groups of
/// ASCII capitals and digits, between 6 and 24 characters, with at
/// least one character besides the dashes.
pub open spec fn spec_looks_like_code(line: Seq<char>) -> bool {
    &&& (exists|i: int| 0 <= i < line.len() && line[i] == '-')
    &&& !(exists|i: int| 0 <= i < line.len() && line[i] == ' ')
    &&& (forall|i: int|
        0 <= i < line.len() && line[i] != '-' ==> (('A' as int) <= (#[trigger] line[i] as int)
            <= ('Z' as int) || ('0' as int) <= (line[i] as int) <= ('9' as int)))
    &&& (exists|i: int| 0 <= i < line.len() && line[i] != '-')
    &&& 6 <= line.len() <= 24
}

/// Tests whether a line looks like a one-time login code.
pub fn looks_like_code(line: &str) -> (r: bool)
    ensures
        r == spec_looks_like_code(line@),
{
    let len = line.unicode_len();
    if len < 6 || len > 24 {
        return false;
    }
    let mut has_dash = false;
    let mut has_payload = false;
    let mut i: usize = 0;
    while i < len
        invariant
            i <= len,
            len == line@.len(),
            has_dash == exists|j: int| 0 <= j < i && line@[j] == '-',
            has_payload == exists|j: int| 0 <= j < i && line@[j] != '-',
            forall|j: int| 0 <= j < i ==> #[trigger] line@[j] != ' ',
            forall|j: int|
                0 <= j < i && line@[j] != '-' ==> (('A' as int) <= (#[trigger] line@[j] as int)
                    <= ('Z' as int) || ('0' as int) <= (line@[j] as int) <= ('9' as int)),
        decreases len - i,
    {
        let c = line.get_char(i);
        if c == ' ' {
            return false;
        }
        if c == '-' {
            has_dash = true;
        } else {
            let u = c as u32;
            let upper = u >= 65 && u <= 90;
            let digit = u >= 48 && u <= 57;
            if !upper && !digit {
                return false;
            }
            has_payload = true;
        }
        i += 1;
    }
    has_dash && has_payload
}

/// The console text split into lines as `str::lines` yields them: at
/// every newline, with a carriage return before a newline dropped, and
/// no final empty line.
pub open spec fn spec_lines(s: Seq<char>) -> Seq<Seq<char>>
    decreases s.len(),
{
    if s.len() == 0 {
        Seq::empty()
    } else if s[0] == '\n' {
        seq![Seq::<char>::empty()] + spec_lines(s.skip(1))
    } else if s[0] == '\r' && s.len() >= 2 && s[1] == '\n' {
        seq![Seq::<char>::empty()] + spec_lines(s.skip(2))
    } else {
        let rest = spec_lines(s.skip(1));
        if rest.len() == 0 {
            seq![seq![s[0]]]
        } else {
            seq![seq![s[0]] + rest[0]] + rest.skip(1)
        }
    }
}

fn split_lines_from(s: &str, i: usize) -> (r: Vec<String>)
    requires
        i <= s@.len(),
    ensures
        r@.len() == spec_lines(s@.skip(i as int)).len(),
        forall|k: int|
            0 <= k < r@.len() ==> #[trigger] r@[k]@ == spec_lines(s@.skip(i as int))[k],
    decreases s@.len() - i,
{
    let len = s.unicode_len();
    let ghost suffix = s@.skip(i as int);
    if i == len {
        assert(suffix.len() == 0);
        return Vec::new();
    }
    let c = s.get_char(i);
    proof {
        assert(suffix[0] == s@[i as int]);
        assert(suffix.skip(1) =~= s@.skip(i + 1));
    }
    if c == '\n' {
        let mut rest = split_lines_from(s, i + 1);
        rest.insert(0, String::new());
        assert(rest@[0]@ =~= Seq::<char>::empty());
        rest
    } else if c == '\r' && i + 1 < len && s.get_char(i + 1) == '\n' {
        proof {
            assert(suffix[1] == s@[i + 1]);
            assert(suffix.skip(2) =~= s@.skip(i + 2));
        }
        let mut rest = split_lines_from(s, i + 2);
        rest.insert(0, String::new());
        assert(rest@[0]@ =~= Seq::<char>::empty());
        rest
    } else {
        let ghost rest_spec = spec_lines(s@.skip(i + 1));
        let mut rest = split_lines_from(s, i + 1);
        if rest.len() == 0 {
            let mut first = String::new();
            first.push(c);
            let mut out: Vec<String> = Vec::new();
            out.push(first);
            assert(out@[0]@ =~= seq![s@[i as int]]);
            out
        } else {
            let head = rest.remove(0);
            let mut h = String::new();
            h.push(c);
            h.append(head.as_str());
            assert(h@ =~= seq![s@[i as int]] + rest_spec[0]);
            rest.insert(0, h);
            proof {
                let out = spec_lines(suffix);
                assert(out == seq![seq![suffix[0]] + rest_spec[0]] + rest_spec.skip(1));
                assert forall|k: int| 0 <= k < rest@.len() implies #[trigger] rest@[k]@
                    == out[k] by {
                    if k > 0 {
                        assert(rest@[k]@ == rest_spec[k]);
                        assert(out[k] == rest_spec.skip(1)[k - 1]);
                    }
                }
            }
            rest
        }
    }
}

/// Splits console text into lines as `str::lines` does.
pub fn split_lines(s: &str) -> (r: Vec<String>)
    ensures
        r@.len() == spec_lines(s@).len(),
        forall|k: int| 0 <= k < r@.len() ==> #[trigger] r@[k]@ == spec_lines(s@)[k],
{
    proof {
        assert(s@.skip(0) =~= s@);
    }
    split_lines_from(s, 0)
}

/// One line's effect on what the login output has revealed: a cleaned,
/// non-empty line may contribute a URL (a longer URL replaces a shorter
/// one) and the first code-shaped line is kept.
pub open spec fn spec_login_step(
    st: (Option<Seq<char>>, Option<Seq<char>>),
    line: Seq<char>,
) -> (Option<Seq<char>>, Option<Seq<char>>) {
    let clean = trim_ws(spec_strip_ansi(line));
    if clean.len() == 0 {
        st
    } else {
        let url = match (st.0, spec_extract_url(clean)) {
            (None, Some(u)) => Some(u),
            (Some(existing), Some(u)) => if u.len() > existing.len() {
                Some(u)
            } else {
                Some(existing)
            },
            (prev, None) => prev,
        };
        let code = if st.1 is None && spec_looks_like_code(clean) {
            Some(clean)
        } else {
            st.1
        };
        (url, code)
    }
}

/// The fold of `spec_login_step` over the remaining lines.
pub open spec fn spec_login_fold(
    lines: Seq<Seq<char>>,
    i: int,
    st: (Option<Seq<char>>, Option<Seq<char>>),
) -> (Option<Seq<char>>, Option<Seq<char>>)
    decreases lines.len() - i,
{
    if i < 0 || i >= lines.len() {
        st
    } else {
        spec_login_fold(lines, i + 1, spec_login_step(st, lines[i]))
    }
}

/// The views of a parse state.
pub open spec fn login_output_view(o: LoginOutput) -> (Option<Seq<char>>, Option<Seq<char>>) {
    (
        match o.url {
            Some(u) => Some(u@),
            None => None,
        },
        match o.code {
            Some(c) => Some(c@),
            None => None,
        },
    )
}

/// Parses a chunk of login console output: every line is stripped of
/// color sequences and trimmed; the longest URL seen and the first
/// code-shaped line are kept.
pub fn parse_login_output(raw: &str) -> (r: LoginOutput)
    ensures
        login_output_view(r) == spec_login_fold(spec_lines(raw@), 0, (None, None)),
{
    let lines = split_lines(raw);
    let ghost lviews = spec_lines(raw@);
    let mut output = LoginOutput { url: None, code: None };
    let mut i: usize = 0;
    while i < lines.len()
        invariant
            i <= lines@.len(),
            lines@.len() == lviews.len(),
            forall|k: int| 0 <= k < lines@.len() ==> #[trigger] lines@[k]@ == lviews[k],
            spec_login_fold(lviews, 0, (None, None)) == spec_login_fold(
                lviews,
                i as int,
                login_output_view(output),
            ),
        decreases lines@.len() - i,
    {
        let ghost st = login_output_view(output);
        let stripped = strip_ansi(lines[i].as_str());
        let clean = trim_chars(stripped.as_str());
        if clean.unicode_len() == 0 {
            proof {
                assert(spec_login_step(st, lviews[i as int]) == st);
            }
        } else {
            match extract_url(clean.as_str()) {
                Some(url) => {
                    let replace = match &output.url {
                        None => true,
                        Some(existing) => url.as_str().unicode_len()
                            > existing.as_str().unicode_len(),
                    };
                    if replace {
                        output.url = Some(url);
                    }
                },
                None => {},
            }
            if output.code.is_none() && looks_like_code(clean.as_str()) {
                output.code = Some(clean);
            }
            proof {
                assert(login_output_view(output) == spec_login_step(st, lviews[i as int]));
            }
        }
        i += 1;
    }
    output
}

} // verus!
