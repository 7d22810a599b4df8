//! Comparing version strings such as `v20.10.0`, numerically per
//! dot-separated component; components that are not plain numbers are
//! ignored, and a shorter version that is a prefix of a longer one
//! orders before it.

use core::cmp::Ordering;
use vstd::prelude::*;
use vstd::string::StrSliceExecFns;

use crate::strutil::{spec_split_char, split_char};

verus! {

/// Whether `c` is a decimal digit.
pub open spec fn spec_is_digit(c: char) -> bool {
    ('0' as int) <= (c as int) <= ('9' as int)
}

/// The value of a digit string, most significant digit first.
pub open spec fn digits_value(s: Seq<char>) -> int
    decreases s.len(),
{
    if s.len() == 0 {
        0
    } else {
        digits_value(s.drop_last()) * 10 + ((s.last() as int) - ('0' as int))
    }
}

/// A version component with its optional leading plus removed.
pub open spec fn spec_u32_body(s: Seq<char>) -> Seq<char> {
    if s.len() > 0 && s[0] == '+' {
        s.skip(1)
    } else {
        s
    }
}

/// Whether every character is a decimal digit.
pub open spec fn all_digits(s: Seq<char>) -> bool {
    forall|i: int| 0 <= i < s.len() ==> spec_is_digit(#[trigger] s[i])
}

/// What `str::parse::<u32>` accepts of a version component: an optional
/// leading plus, then one or more digits, denoting a value that fits.
pub open spec fn spec_parse_u32(s: Seq<char>) -> Option<int> {
    let body = spec_u32_body(s);
    if body.len() > 0 && all_digits(body) && digits_value(body) <= u32::MAX {
        Some(digits_value(body))
    } else {
        None
    }
}

/// The numeric components of a split version string, with unparsable
/// components dropped.
pub open spec fn spec_version_key(parts: Seq<Seq<char>>) -> Seq<int>
    decreases parts.len(),
{
    if parts.len() == 0 {
        Seq::empty()
    } else {
        spec_version_key(parts.drop_last()) + (match spec_parse_u32(parts.last()) {
            Some(v) => seq![v],
            None => Seq::empty(),
        })
    }
}

/// A version string without its leading `v` markers.
pub open spec fn spec_trim_v(s: Seq<char>) -> Seq<char>
    decreases s.len(),
{
    if s.len() > 0 && s[0] == 'v' {
        spec_trim_v(s.skip(1))
    } else {
        s
    }
}

/// The numeric key a version string compares by.
pub open spec fn spec_version_nums(s: Seq<char>) -> Seq<int> {
    spec_version_key(spec_split_char(spec_trim_v(s), '.').map_values(|p: Seq<char>| p))
}

/// Lexicographic comparison of numeric keys, with a proper prefix
/// ordering before its extensions.
pub open spec fn lex_cmp_nums(a: Seq<int>, b: Seq<int>) -> Ordering
    decreases a.len(),
{
    if a.len() == 0 && b.len() == 0 {
        Ordering::Equal
    } else if a.len() == 0 {
        Ordering::Less
    } else if b.len() == 0 {
        Ordering::Greater
    } else if a[0] < b[0] {
        Ordering::Less
    } else if a[0] > b[0] {
        Ordering::Greater
    } else {
        lex_cmp_nums(a.skip(1), b.skip(1))
    }
}

fn is_digit_char(c: char) -> (r: bool)
    ensures
        r == spec_is_digit(c),
{
    (c as u32) >= 48 && (c as u32) <= 57
}

/// Parses one version component as `str::parse::<u32>` would.
pub fn parse_u32_part(s: &str) -> (r: Option<u32>)
    ensures
        match r {
            Some(v) => spec_parse_u32(s@) == Some(v as int),
            None => spec_parse_u32(s@) is None,
        },
{
    let len = s.unicode_len();
    let start: usize = if len > 0 && s.get_char(0) == '+' {
        1
    } else {
        0
    };
    let ghost body = spec_u32_body(s@);
    proof {
        assert(body =~= s@.subrange(start as int, len as int));
    }
    if start == len {
        return None;
    }
    let mut acc: u64 = 0;
    let mut i: usize = start;
    while i < len
        invariant
            start <= i <= len,
            len == s@.len(),
            start < len,
            body == spec_u32_body(s@),
            body == s@.subrange(start as int, len as int),
            forall|j: int| start <= j < i ==> spec_is_digit(#[trigger] s@[j]),
            digits_value(body.subrange(0, i - start)) <= u32::MAX ==> acc == digits_value(
                body.subrange(0, i - start),
            ),
            digits_value(body.subrange(0, i - start)) > u32::MAX ==> acc == 0x1_0000_0000u64,
            acc <= 0x1_0000_0000u64,
            digits_value(body.subrange(0, i - start)) >= 0,
        decreases len - i,
    {
        let c = s.get_char(i);
        if !is_digit_char(c) {
            proof {
                assert(body[i - start] == s@[i as int]);
                assert(!spec_is_digit(body[i - start]));
                assert(!all_digits(body));
            }
            return None;
        }
        let d: u64 = (c as u32) as u64 - 48;
        let ghost pfx = body.subrange(0, i - start);
        let ghost pfx2 = body.subrange(0, i + 1 - start);
        proof {
            assert(pfx2.drop_last() =~= pfx);
            assert(pfx2.last() == s@[i as int]);
            assert(digits_value(pfx2) == digits_value(pfx) * 10 + ((s@[i as int] as int) - ('0'
                as int)));
        }
        let next = acc * 10 + d;
        if next > 0xFFFF_FFFFu64 {
            acc = 0x1_0000_0000u64;
        } else {
            acc = next;
        }
        i += 1;
    }
    proof {
        assert(body.subrange(0, (len - start) as int) =~= body);
        assert forall|j: int| 0 <= j < body.len() implies spec_is_digit(#[trigger] body[j]) by {
            assert(body[j] == s@[start + j]);
        }
        assert(all_digits(body));
    }
    if acc > 0xFFFF_FFFFu64 {
        None
    } else {
        Some(acc as u32)
    }
}

fn lex_cmp_from(a: &Vec<u32>, b: &Vec<u32>, i: usize) -> (r: Ordering)
    requires
        i <= a@.len(),
        i <= b@.len(),
    ensures
        r == lex_cmp_nums(
            a@.map_values(|v: u32| v as int).skip(i as int),
            b@.map_values(|v: u32| v as int).skip(i as int),
        ),
    decreases a@.len() - i,
{
    let ghost am = a@.map_values(|v: u32| v as int);
    let ghost bm = b@.map_values(|v: u32| v as int);
    if i == a.len() && i == b.len() {
        Ordering::Equal
    } else if i == a.len() {
        Ordering::Less
    } else if i == b.len() {
        Ordering::Greater
    } else if a[i] < b[i] {
        assert(am.skip(i as int)[0] == am[i as int]);
        assert(bm.skip(i as int)[0] == bm[i as int]);
        Ordering::Less
    } else if a[i] > b[i] {
        Ordering::Greater
    } else {
        let r = lex_cmp_from(a, b, i + 1);
        proof {
            assert(am.skip(i as int)[0] == am[i as int]);
            assert(bm.skip(i as int)[0] == bm[i as int]);
            assert(am.skip(i as int).skip(1) =~= am.skip(i + 1));
            assert(bm.skip(i as int).skip(1) =~= bm.skip(i + 1));
        }
        r
    }
}

/// The numeric key of a version string.
fn version_key(s: &str) -> (r: Vec<u32>)
    ensures
        r@.map_values(|v: u32| v as int) == spec_version_nums(s@),
{
    let len = s.unicode_len();
    proof {
        assert(s@.skip(0) =~= s@);
    }
    let mut f: usize = 0;
    while f < len && s.get_char(f) == 'v'
        invariant
            f <= len,
            len == s@.len(),
            spec_trim_v(s@) == spec_trim_v(s@.skip(f as int)),
            forall|j: int| 0 <= j < f ==> s@[j] == 'v',
        decreases len - f,
    {
        proof {
            assert(s@.skip(f as int)[0] == s@[f as int]);
            assert(s@.skip(f as int).skip(1) =~= s@.skip(f + 1));
        }
        f += 1;
    }
    let trimmed = s.substring_char(f, len);
    proof {
        assert(trimmed@ =~= s@.skip(f as int));
        if f < len {
            assert(s@.skip(f as int)[0] == s@[f as int]);
        }
        assert(spec_trim_v(s@.skip(f as int)) == s@.skip(f as int));
    }
    let parts = split_char(trimmed, '.');
    let ghost part_views = spec_split_char(trimmed@, '.').map_values(|p: Seq<char>| p);
    let mut key: Vec<u32> = Vec::new();
    let mut k: usize = 0;
    proof {
        assert(part_views.subrange(0, 0) =~= Seq::<Seq<char>>::empty());
        assert(key@.map_values(|v: u32| v as int) =~= spec_version_key(
            part_views.subrange(0, 0),
        ));
    }
    while k < parts.len()
        invariant
            k <= parts@.len(),
            parts@.len() == part_views.len(),
            forall|j: int| 0 <= j < parts@.len() ==> #[trigger] parts@[j]@ == part_views[j],
            key@.map_values(|v: u32| v as int) == spec_version_key(
                part_views.subrange(0, k as int),
            ),
        decreases parts@.len() - k,
    {
        let ghost pre = part_views.subrange(0, k as int);
        let ghost pre2 = part_views.subrange(0, k + 1);
        proof {
            assert(pre2.drop_last() =~= pre);
            assert(pre2.last() == part_views[k as int]);
        }
        match parse_u32_part(parts[k].as_str()) {
            Some(v) => {
                key.push(v);
                assert(key@.map_values(|v: u32| v as int) =~= spec_version_key(pre2));
            },
            None => {
                assert(key@.map_values(|v: u32| v as int) =~= spec_version_key(pre2));
            },
        }
        k += 1;
    }
    proof {
        assert(part_views.subrange(0, part_views.len() as int) =~= part_views);
    }
    key
}

/// Compares two version strings by their numeric components, as the
/// binary-probing logic orders installed tool versions.
pub fn version_cmp(a: &str, b: &str) -> (r: Ordering)
    ensures
        r == lex_cmp_nums(spec_version_nums(a@), spec_version_nums(b@)),
{
    let ka = version_key(a);
    let kb = version_key(b);
    proof {
        assert(ka@.map_values(|v: u32| v as int).skip(0) =~= spec_version_nums(a@));
        assert(kb@.map_values(|v: u32| v as int).skip(0) =~= spec_version_nums(b@));
    }
    lex_cmp_from(&ka, &kb, 0)
}

} // verus!
