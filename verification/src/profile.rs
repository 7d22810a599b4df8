//! Account profiles: the registry entries that routing decisions read.

use vstd::multiset::Multiset;
use vstd::prelude::*;
use vstd::string::StrSliceExecFns;
use vstd::string::StringExecFns;

use crate::auth::{AuthDotJson, IdToken};
use crate::quota::QuotaInfo;
use crate::strutil::{
    dec_chars, lemma_lex_le_total, lemma_lex_le_transitive, lex_le,
    str_eq, str_le, u64_to_string,
};

verus! {

/// One configured account as the router sees it: its name, the e-mail of
/// the credential if known, whether it is the current (mirrored) profile,
/// whether its credential is still believed valid, and its last-known
/// quota snapshot.  An account with no snapshot is in an unknown state
/// and is never routed to.
#[derive(Debug, PartialEq)]
pub struct ProfileSummary {
    pub name: String,
    pub email: Option<String>,
    pub is_current: bool,
    pub is_valid: bool,
    pub quota: Option<QuotaInfo>,
}

impl Clone for ProfileSummary {
    /// An exact copy of the profile entry.
    fn clone(&self) -> (r: Self)
        ensures
            r == *self,
    {
        ProfileSummary {
            name: self.name.clone(),
            email: crate::quota::clone_opt_string(&self.email),
            is_current: self.is_current,
            is_valid: self.is_valid,
            quota: match &self.quota {
                Some(q) => Some(q.clone()),
                None => None,
            },
        }
    }
}

/// What saving the active credential as a profile did: created a new
/// profile, overwrote an existing profile of the same account whose
/// tokens changed, or found an identical profile already present.
#[derive(Debug, Clone, PartialEq, Eq)]
pub enum SaveProfileOutcome {
    Created { name: String },
    Updated { name: String },
    AlreadyExists { name: String },
}


/// The identity-token text a fingerprint folds in: the raw JWT when one
/// is at hand, else nothing.
pub open spec fn spec_id_token_part(id_token: Option<IdToken>) -> Seq<char> {
    match id_token {
        Some(IdToken::Raw(raw)) => raw@,
        Some(IdToken::Info(info)) => match info.raw_jwt {
            Some(j) => j@,
            None => Seq::empty(),
        },
        None => Seq::empty(),
    }
}

/// What identifies a credential when deciding whether a profile already
/// holds it: the API key itself, or `access|refresh|id` of the token
/// triple; an empty credential has no fingerprint.
pub open spec fn spec_token_fingerprint(auth: AuthDotJson) -> Option<Seq<char>> {
    match auth.openai_api_key {
        Some(k) => Some(k@),
        None => match auth.tokens {
            None => None,
            Some(t) => Some(
                t.access_token@ + seq!['|'] + t.refresh_token@ + seq!['|'] + spec_id_token_part(
                    t.id_token,
                ),
            ),
        },
    }
}

/// Computes the credential's fingerprint.
pub fn token_fingerprint(auth: &AuthDotJson) -> (r: Option<String>)
    ensures
        match r {
            Some(s) => spec_token_fingerprint(*auth) == Some(s@),
            None => spec_token_fingerprint(*auth) is None,
        },
{
    if let Some(key) = &auth.openai_api_key {
        return Some(key.clone());
    }
    let tokens = match &auth.tokens {
        Some(t) => t,
        None => {
            return None;
        },
    };
    let mut out = String::new();
    out.append(tokens.access_token.as_str());
    out.push('|');
    out.append(tokens.refresh_token.as_str());
    out.push('|');
    match &tokens.id_token {
        Some(IdToken::Raw(raw)) => {
            out.append(raw.as_str());
        },
        Some(IdToken::Info(info)) => {
            match &info.raw_jwt {
                Some(j) => {
                    out.append(j.as_str());
                },
                None => {},
            }
        },
        None => {},
    }
    assert(out@ =~= tokens.access_token@ + seq!['|'] + tokens.refresh_token@ + seq!['|']
        + spec_id_token_part(tokens.id_token));
    Some(out)
}

/// The ASCII lowercase form of a capital letter.
pub open spec fn spec_ascii_lower(c: char) -> char {
    (((c as u8) + 32) as char)
}

/// One character's effect on a name being sanitized: lowercase letters,
/// digits and underscores pass through; capitals are lowercased; a dash
/// or any other character collapses into at most one separating dash,
/// never at the front.
pub open spec fn spec_sanitize_step(st: (Seq<char>, bool), c: char) -> (Seq<char>, bool) {
    if (('a' as int) <= (c as int) <= ('z' as int)) || (('0' as int) <= (c as int) <= ('9'
        as int)) || c == '_' {
        (st.0.push(c), false)
    } else if ('A' as int) <= (c as int) <= ('Z' as int) {
        (st.0.push(spec_ascii_lower(c)), false)
    } else {
        if !st.1 && st.0.len() > 0 {
            (st.0.push('-'), true)
        } else {
            (st.0, true)
        }
    }
}

/// The fold of `spec_sanitize_step` over the remaining input.
pub open spec fn spec_sanitize_fold(s: Seq<char>, i: int, st: (Seq<char>, bool)) -> (
    Seq<char>,
    bool,
)
    decreases s.len() - i,
{
    if i < 0 || i >= s.len() {
        st
    } else {
        spec_sanitize_fold(s, i + 1, spec_sanitize_step(st, s[i]))
    }
}

/// A sanitized text without its trailing dashes.
pub open spec fn spec_rstrip_dash(s: Seq<char>) -> Seq<char>
    decreases s.len(),
{
    if s.len() > 0 && s.last() == '-' {
        spec_rstrip_dash(s.drop_last())
    } else {
        s
    }
}

/// A profile name fit for a directory: the sanitizing fold, trailing
/// dashes dropped, and `profile` for anything that sanitized away.
pub open spec fn spec_sanitize_name(s: Seq<char>) -> Seq<char> {
    let folded = spec_sanitize_fold(s, 0, (Seq::empty(), false)).0;
    let stripped = spec_rstrip_dash(folded);
    if stripped.len() == 0 {
        "profile"@
    } else {
        stripped
    }
}

proof fn lemma_rstrip_dash_subrange(s: Seq<char>, l: int)
    requires
        0 <= l <= s.len(),
        forall|j: int| l <= j < s.len() ==> s[j] == '-',
    ensures
        spec_rstrip_dash(s) == spec_rstrip_dash(s.subrange(0, l)),
    decreases s.len() - l,
{
    if l < s.len() {
        assert(s.last() == '-');
        assert(s.drop_last() =~= s.subrange(0, s.len() - 1));
        lemma_rstrip_dash_subrange(s.subrange(0, s.len() - 1), l);
        assert(s.subrange(0, s.len() - 1).subrange(0, l) =~= s.subrange(0, l));
    } else {
        assert(s.subrange(0, l) =~= s);
    }
}

/// Sanitizes a suggested profile name into a directory-safe one.
pub fn sanitize_profile_name(input: &str) -> (r: String)
    ensures
        r@ == spec_sanitize_name(input@),
{
    let len = input.unicode_len();
    let mut out = String::new();
    let mut prev_dash = false;
    let mut i: usize = 0;
    while i < len
        invariant
            i <= len,
            len == input@.len(),
            spec_sanitize_fold(input@, 0, (Seq::empty(), false)) == spec_sanitize_fold(
                input@,
                i as int,
                (out@, prev_dash),
            ),
        decreases len - i,
    {
        let c = input.get_char(i);
        let u = c as u32;
        if (u >= 97 && u <= 122) || (u >= 48 && u <= 57) || c == '_' {
            out.push(c);
            prev_dash = false;
        } else if u >= 65 && u <= 90 {
            let lowered = ((u + 32) as u8) as char;
            proof {
                assert(lowered == spec_ascii_lower(c));
            }
            out.push(lowered);
            prev_dash = false;
        } else {
            if !prev_dash && out.as_str().unicode_len() > 0 {
                out.push('-');
            }
            prev_dash = true;
        }
        i += 1;
    }
    let out_len = out.as_str().unicode_len();
    let mut l: usize = out_len;
    while l > 0 && out.as_str().get_char(l - 1) == '-'
        invariant
            l <= out_len,
            out_len == out@.len(),
            forall|j: int| l <= j < out_len ==> out@[j] == '-',
        decreases l,
    {
        l -= 1;
    }
    proof {
        lemma_rstrip_dash_subrange(out@, l as int);
        if l > 0 {
            assert(out@.subrange(0, l as int).last() == out@[l - 1]);
            assert(spec_rstrip_dash(out@.subrange(0, l as int)) == out@.subrange(0, l as int));
        } else {
            assert(out@.subrange(0, 0).len() == 0);
        }
    }
    if l == 0 {
        let mut fallback = String::new();
        fallback.append("profile");
        assert(fallback@ =~= "profile"@);
        fallback
    } else {
        let mut trimmed = String::new();
        let mut k: usize = 0;
        while k < l
            invariant
                k <= l <= out@.len(),
                trimmed@ == out@.subrange(0, k as int),
            decreases l - k,
        {
            trimmed.push(out.as_str().get_char(k));
            assert(trimmed@ =~= out@.subrange(0, k + 1));
            k += 1;
        }
        trimmed
    }
}

/// The candidate name for a numbered attempt: the base name itself
/// first, then `base-2`, `base-3`, and so on.
pub open spec fn spec_attempt_name(base: Seq<char>, attempt: int) -> Seq<char> {
    if attempt == 0 {
        base
    } else {
        base + seq!['-'] + dec_chars(attempt + 1)
    }
}

/// Builds the candidate name for a numbered attempt.
pub fn attempt_name(base: &str, attempt: u64) -> (r: String)
    requires
        attempt < 100,
    ensures
        r@ == spec_attempt_name(base@, attempt as int),
{
    if attempt == 0 {
        let mut s = String::new();
        s.append(base);
        assert(s@ =~= base@);
        s
    } else {
        let mut s = String::new();
        s.append(base);
        s.push('-');
        let num = u64_to_string(attempt + 1);
        s.append(num.as_str());
        assert(s@ =~= base@ + seq!['-'] + dec_chars(attempt + 1));
        s
    }
}

/// Whether a name collides with an already-taken one.
pub open spec fn spec_name_taken(taken: Seq<Seq<char>>, name: Seq<char>) -> bool {
    exists|i: int| 0 <= i < taken.len() && taken[i] == name
}

fn name_taken(taken: &Vec<String>, name: &str) -> (r: bool)
    ensures
        r == spec_name_taken(taken@.map_values(|t: String| t@), name@),
{
    let ghost views = taken@.map_values(|t: String| t@);
    let mut i: usize = 0;
    while i < taken.len()
        invariant
            i <= taken@.len(),
            views == taken@.map_values(|t: String| t@),
            forall|j: int| 0 <= j < i ==> #[trigger] views[j] != name@,
        decreases taken@.len() - i,
    {
        if str_eq(taken[i].as_str(), name) {
            assert(views[i as int] == name@);
            return true;
        }
        i += 1;
    }
    false
}

/// The first numbered candidate below one hundred attempts that no
/// existing profile has taken, if any.
pub open spec fn spec_pick_name(base: Seq<char>, taken: Seq<Seq<char>>, attempt: int) -> Option<
    Seq<char>,
>
    decreases 100 - attempt,
{
    if attempt < 0 || attempt >= 100 {
        None
    } else if !spec_name_taken(taken, spec_attempt_name(base, attempt)) {
        Some(spec_attempt_name(base, attempt))
    } else {
        spec_pick_name(base, taken, attempt + 1)
    }
}

/// Picks the first free numbered name for a new profile directory.
pub fn pick_profile_name(base: &str, taken: &Vec<String>) -> (r: Option<String>)
    ensures
        match r {
            Some(s) => spec_pick_name(base@, taken@.map_values(|t: String| t@), 0) == Some(s@),
            None => spec_pick_name(base@, taken@.map_values(|t: String| t@), 0) is None,
        },
{
    let ghost views = taken@.map_values(|t: String| t@);
    let mut attempt: u64 = 0;
    while attempt < 100
        invariant
            attempt <= 100,
            views == taken@.map_values(|t: String| t@),
            spec_pick_name(base@, views, 0) == spec_pick_name(base@, views, attempt as int),
        decreases 100 - attempt,
    {
        let candidate = attempt_name(base, attempt);
        if !name_taken(taken, candidate.as_str()) {
            return Some(candidate);
        }
        attempt += 1;
    }
    None
}

/// One existing profile as the save decision reads it: its name, the
/// account its credential belongs to, and the credential's fingerprint.
#[derive(Debug, PartialEq)]
pub struct ProfileRecord {
    pub name: String,
    pub account_id: Option<String>,
    pub fingerprint: Option<String>,
}

/// The plan for saving a credential as a profile.
#[derive(Debug, PartialEq)]
pub enum SavePlan {
    /// A profile of the same account already holds exactly this
    /// credential: nothing to write.
    AlreadyExists { name: String },
    /// A profile of the same account holds an older credential:
    /// overwrite its file.
    Overwrite { name: String },
    /// No profile matches the account: create a directory under this
    /// free name.
    CreateNew { name: String },
    /// Every candidate name was taken.
    NoFreeName,
}

/// The character-level view of an optional string.
pub open spec fn opt_string_view(o: Option<String>) -> Option<Seq<char>> {
    match o {
        Some(s) => Some(s@),
        None => None,
    }
}

/// The view of an existing-profile record.
pub open spec fn record_view(r: ProfileRecord) -> (Seq<char>, Option<Seq<char>>, Option<
    Seq<char>,
>) {
    (
        r.name@,
        match r.account_id {
            Some(a) => Some(a@),
            None => None,
        },
        match r.fingerprint {
            Some(f) => Some(f@),
            None => None,
        },
    )
}

/// The first existing profile whose credential belongs to the same
/// account, scanned in order.
pub open spec fn spec_match_account(
    records: Seq<(Seq<char>, Option<Seq<char>>, Option<Seq<char>>)>,
    account: Seq<char>,
    i: int,
) -> Option<int>
    decreases records.len() - i,
{
    if i < 0 || i >= records.len() {
        None
    } else if records[i].1 == Some(account) {
        Some(i)
    } else {
        spec_match_account(records, account, i + 1)
    }
}

/// The save plan, over the views: with a known account, the first
/// profile of that account is reused (untouched when the fingerprints
/// agree, overwritten when they differ); otherwise the first free
/// numbered name is used.
pub open spec fn spec_save_plan(
    incoming_account: Option<Seq<char>>,
    incoming_fp: Option<Seq<char>>,
    records: Seq<(Seq<char>, Option<Seq<char>>, Option<Seq<char>>)>,
    base: Seq<char>,
    plan: SavePlan,
) -> bool {
    let matched = match incoming_account {
        Some(a) => spec_match_account(records, a, 0),
        None => None,
    };
    match matched {
        Some(i) => if records[i].2 == incoming_fp {
            plan matches SavePlan::AlreadyExists { name } && name@ == records[i].0
        } else {
            plan matches SavePlan::Overwrite { name } && name@ == records[i].0
        },
        None => {
            let names = records.map_values(
                |r: (Seq<char>, Option<Seq<char>>, Option<Seq<char>>)| r.0,
            );
            match spec_pick_name(base, names, 0) {
                Some(n) => plan matches SavePlan::CreateNew { name } && name@ == n,
                None => plan == SavePlan::NoFreeName,
            }
        },
    }
}

fn opt_str_eq(a: &Option<String>, b: &Option<String>) -> (r: bool)
    ensures
        r == (match (a, b) {
            (Some(x), Some(y)) => x@ == y@,
            (None, None) => true,
            _ => false,
        }),
{
    match (a, b) {
        (Some(x), Some(y)) => str_eq(x.as_str(), y.as_str()),
        (None, None) => true,
        _ => false,
    }
}

/// Decides how to save a credential as a profile, given the existing
/// profiles (in directory order), the credential's account and
/// fingerprint, and the sanitized base name for a fresh directory.
pub fn plan_profile_save(
    incoming_account: &Option<String>,
    incoming_fp: &Option<String>,
    records: &Vec<ProfileRecord>,
    base: &str,
) -> (plan: SavePlan)
    ensures
        spec_save_plan(
            opt_string_view(*incoming_account),
            opt_string_view(*incoming_fp),
            records@.map_values(|r: ProfileRecord| record_view(r)),
            base@,
            plan,
        ),
{
    let ghost views = records@.map_values(|r: ProfileRecord| record_view(r));
    if let Some(account) = incoming_account {
        let mut i: usize = 0;
        while i < records.len()
            invariant
                i <= records@.len(),
                views == records@.map_values(|r: ProfileRecord| record_view(r)),
                *incoming_account == Some(*account),
                spec_match_account(views, account@, 0) == spec_match_account(
                    views,
                    account@,
                    i as int,
                ),
            decreases records@.len() - i,
        {
            let entry_account = &records[i].account_id;
            let matches_account = match entry_account {
                Some(a) => str_eq(a.as_str(), account.as_str()),
                None => false,
            };
            proof {
                assert(views[i as int] == record_view(records@[i as int]));
            }
            if matches_account {
                proof {
                    assert(views[i as int].1 == Some(account@));
                    assert(spec_match_account(views, account@, i as int) == Some(i as int));
                    assert(spec_match_account(views, account@, 0) == Some(i as int));
                }
                let ghost fpv = opt_string_view(*incoming_fp);
                let fp_same = opt_str_eq(&records[i].fingerprint, incoming_fp);
                let name = records[i].name.clone();
                proof {
                    assert(name@ == views[i as int].0);
                }
                let plan = if fp_same {
                    proof {
                        assert(views[i as int].2 == fpv);
                    }
                    SavePlan::AlreadyExists { name }
                } else {
                    proof {
                        assert(views[i as int].2 != fpv);
                    }
                    SavePlan::Overwrite { name }
                };
                return plan;
            }
            proof {
                assert(views[i as int].1 != Some(account@));
            }
            i += 1;
        }
    }
    let mut taken: Vec<String> = Vec::new();
    let mut k: usize = 0;
    while k < records.len()
        invariant
            k <= records@.len(),
            views == records@.map_values(|r: ProfileRecord| record_view(r)),
            taken@.len() == k,
            forall|j: int| 0 <= j < k ==> #[trigger] taken@[j]@ == views[j].0,
        decreases records@.len() - k,
    {
        taken.push(records[k].name.clone());
        k += 1;
    }
    proof {
        assert(taken@.map_values(|t: String| t@) =~= views.map_values(
            |r: (Seq<char>, Option<Seq<char>>, Option<Seq<char>>)| r.0,
        ));
    }
    match pick_profile_name(base, &taken) {
        Some(name) => SavePlan::CreateNew { name },
        None => SavePlan::NoFreeName,
    }
}

/// Whether a profile may be deleted: never the current one.
pub fn can_delete_profile(name: &str, current: Option<&str>) -> (r: bool)
    ensures
        current is None ==> r,
        current matches Some(c) ==> r == (c@ != name@),
{
    match current {
        None => true,
        Some(c) => !str_eq(c, name),
    }
}

/// Order on profiles by name alone, for directory listings.
pub open spec fn name_le(a: ProfileSummary, b: ProfileSummary) -> bool {
    lex_le(a.name@, b.name@)
}

/// Whether a listing is sorted by name.
pub open spec fn name_sorted(s: Seq<ProfileSummary>) -> bool {
    forall|i: int, j: int| 0 <= i < j < s.len() ==> #[trigger] name_le(s[i], s[j])
}

fn insert_by_name(v: &mut Vec<ProfileSummary>, x: ProfileSummary)
    requires
        name_sorted(old(v)@),
    ensures
        name_sorted(final(v)@),
        final(v)@.to_multiset() == old(v)@.to_multiset().insert(x),
        final(v)@.len() == old(v)@.len() + 1,
{
    let ghost orig = v@;
    let mut idx: usize = 0;
    while idx < v.len() && str_le(v[idx].name.as_str(), x.name.as_str())
        invariant
            idx <= v@.len(),
            v@ == orig,
            forall|j: int| 0 <= j < idx ==> name_le(#[trigger] orig[j], x),
        decreases v@.len() - idx,
    {
        idx += 1;
    }
    proof {
        assert forall|j: int| idx <= j < orig.len() implies name_le(x, #[trigger] orig[j]) by {
            lemma_lex_le_total(orig[idx as int].name@, x.name@);
            if j > idx {
                assert(name_le(orig[idx as int], orig[j]));
                lemma_lex_le_transitive(x.name@, orig[idx as int].name@, orig[j].name@);
            }
        }
    }
    v.insert(idx, x);
    proof {
        let r = v@;
        assert forall|i: int, j: int| 0 <= i < j < r.len() implies #[trigger] name_le(
            r[i],
            r[j],
        ) by {
            if j < idx {
                assert(name_le(orig[i], orig[j]));
            } else if i > idx {
                assert(name_le(orig[i - 1], orig[j - 1]));
            } else if i == idx && j > idx {
                assert(name_le(x, orig[j - 1]));
            } else if i < idx && j == idx {
                assert(name_le(orig[i], x));
            } else if i < idx && j > idx {
                assert(name_le(orig[i], orig[j - 1]));
            }
        }
        broadcast use vstd::seq_lib::group_to_multiset_ensures;

        assert(r.remove(idx as int) =~= orig);
        assert(r.remove(idx as int).to_multiset() =~= r.to_multiset().remove(r[idx as int]));
        assert(r.to_multiset().contains(x));
        assert(r.to_multiset() =~= orig.to_multiset().insert(x)) by {
            assert(orig.to_multiset() =~= r.to_multiset().remove(x));
        }
    }
}

/// The summary a directory entry becomes: current when its name matches
/// the marker, valid until a sweep says otherwise, no snapshot yet.
pub open spec fn spec_entry_summary(
    entry: (String, Option<String>),
    current: Option<String>,
) -> ProfileSummary {
    ProfileSummary {
        name: entry.0,
        email: entry.1,
        is_current: match current {
            Some(c) => c@ == entry.0@,
            None => false,
        },
        is_valid: true,
        quota: None,
    }
}

/// Builds the profile listing from directory entries (name and the
/// credential's e-mail, in any order) and the current-profile marker:
/// one summary per entry, sorted by name, marked current where the
/// marker matches.
pub fn summarize_profiles(entries: Vec<(String, Option<String>)>, current: Option<String>) -> (r:
    Vec<ProfileSummary>)
    ensures
        name_sorted(r@),
        r@.to_multiset() == entries@.map_values(
            |e: (String, Option<String>)| spec_entry_summary(e, current),
        ).to_multiset(),
{
    let ghost mapped = entries@.map_values(
        |e: (String, Option<String>)| spec_entry_summary(e, current),
    );
    let mut out: Vec<ProfileSummary> = Vec::new();
    let ghost mut i: int = 0;
    proof {
        broadcast use vstd::seq_lib::group_to_multiset_ensures;

        assert(mapped.subrange(0, 0) =~= Seq::<ProfileSummary>::empty());
        assert(out@.to_multiset() =~= mapped.subrange(0, 0).to_multiset());
    }
    let mut remaining = entries;
    while remaining.len() > 0
        invariant
            name_sorted(out@),
            0 <= i,
            remaining@.len() + i == mapped.len(),
            i <= mapped.len(),
            forall|j: int|
                0 <= j < remaining@.len() ==> spec_entry_summary(#[trigger] remaining@[j], current)
                    == mapped[i + j],
            out@.to_multiset() == mapped.subrange(0, i).to_multiset(),
        decreases remaining@.len(),
    {
        let ghost before = remaining@;
        let (name, email) = remaining.remove(0);
        let is_current = match &current {
            Some(c) => str_eq(c.as_str(), name.as_str()),
            None => false,
        };
        let summary = ProfileSummary { name, email, is_current, is_valid: true, quota: None };
        proof {
            assert(spec_entry_summary(before[0], current) == mapped[i]);
            assert(summary == mapped[i]);
        }
        insert_by_name(&mut out, summary);
        proof {
            broadcast use vstd::seq_lib::group_to_multiset_ensures;

            assert(mapped.subrange(0, i + 1) =~= mapped.subrange(0, i).push(mapped[i]));
            assert(mapped.subrange(0, i + 1).to_multiset() =~= mapped.subrange(
                0,
                i,
            ).to_multiset().insert(mapped[i]));
            assert forall|j: int|
                0 <= j < remaining@.len() implies spec_entry_summary(
                #[trigger] remaining@[j],
                current,
            ) == mapped[i + 1 + j] by {
                assert(remaining@[j] == before[j + 1]);
            }
            i = i + 1;
        }
    }
    proof {
        assert(mapped.subrange(0, mapped.len() as int) =~= mapped);
    }
    out
}



/// The base name suggested for a credential's profile: the local part
/// of its e-mail, else its account identifier, else `profile`, then
/// sanitized.
pub fn suggested_profile_name(auth: &AuthDotJson) -> (r: String)
    ensures
        exists|base: Seq<char>| r@ == #[trigger] spec_sanitize_name(base),
        auth.tokens matches Some(t) ==> (t.id_token matches Some(crate::auth::IdToken::Info(
            info,
        )) ==> (info.email matches Some(e) ==> r@ == spec_sanitize_name(
            crate::strutil::spec_split_char(e@, '@')[0],
        ))),
{
    let raw: String = match crate::auth::get_email(auth) {
        Some(email) => {
            let parts = crate::strutil::split_char(email.as_str(), '@');
            parts[0].clone()
        },
        None => match crate::auth::get_account_id(auth) {
            Some(a) => a,
            None => {
                let mut s = String::new();
                s.append("profile");
                s
            },
        },
    };
    let out = sanitize_profile_name(raw.as_str());
    proof {
        assert(out@ == spec_sanitize_name(raw@));
    }
    out
}


/// Whether a finished login must set the current-profile marker: only
/// when no profile is marked current yet (the marker is absent or
/// blank).  Logging in never steals the current slot from an existing
/// profile.
pub fn needs_current_profile_marker(marker: Option<&str>) -> (r: bool)
    ensures
        marker is None ==> r,
        marker matches Some(m) ==> r == (crate::strutil::trim_ws(m@).len() == 0),
{
    match marker {
        None => true,
        Some(contents) => {
            let trimmed = crate::strutil::trim_chars(contents);
            trimmed.as_str().unicode_len() == 0
        },
    }
}

} // verus!
