//! Quota snapshot normalization: the pure half of the quota client.
//!
//! The upstream reports each rate window's usage as a (possibly fractional,
//! possibly out-of-range) percentage and its reset time in one of three
//! shapes: an ISO 8601 string, an epoch value in seconds or milliseconds,
//! or a relative `reset_after_seconds`.  Everything here normalizes those
//! shapes into the canonical `QuotaInfo` record.  The HTTP fetch itself
//! lives outside the library; it hands these functions plain values, with
//! fractional percentages scaled to thousandths of a percent.

use vstd::prelude::*;
use vstd::string::StrSliceExecFns;
use vstd::string::StringExecFns;

use crate::auth::AuthDotJson;
use crate::jsonval::{json_as_u64, json_get, json_index};
use crate::strutil::{
    char_is_whitespace, contains_sub, dec_chars_signed, i64_to_string, push_str_chars,
    str_contains, str_eq, trim_chars, trim_ws,
};

verus! {

/// One account's normalized quota snapshot, replaced wholesale on every
/// successful fetch.  Used and total units are percentages on a fixed
/// reference scale of 100; a window with no data is absent, not zero.
#[derive(Debug, PartialEq)]
pub struct QuotaInfo {
    pub account_id: String,
    pub email: String,
    pub plan_type: String,
    pub used_requests: Option<u64>,
    pub total_requests: Option<u64>,
    pub used_tokens: Option<u64>,
    pub total_tokens: Option<u64>,
    pub reset_date: Option<String>,
    pub secondary_reset_date: Option<String>,
}

/// Copies an optional string, preserving its value.
pub fn clone_opt_string(s: &Option<String>) -> (r: Option<String>)
    ensures
        r == *s,
{
    match s {
        Some(v) => Some(v.clone()),
        None => None,
    }
}

impl Clone for QuotaInfo {
    /// An exact copy of the snapshot.
    fn clone(&self) -> (r: Self)
        ensures
            r == *self,
    {
        QuotaInfo {
            account_id: self.account_id.clone(),
            email: self.email.clone(),
            plan_type: self.plan_type.clone(),
            used_requests: self.used_requests,
            total_requests: self.total_requests,
            used_tokens: self.used_tokens,
            total_tokens: self.total_tokens,
            reset_date: clone_opt_string(&self.reset_date),
            secondary_reset_date: clone_opt_string(&self.secondary_reset_date),
        }
    }
}

/// A quota window's usage is well formed when its used units, if known,
/// are within the fixed reference scale.
pub open spec fn quota_info_wf(q: QuotaInfo) -> bool {
    &&& (q.used_requests matches Some(u) ==> u <= 100)
    &&& (q.used_tokens matches Some(u) ==> u <= 100)
    &&& (q.used_requests is Some <==> q.total_requests is Some)
    &&& (q.used_tokens is Some <==> q.total_tokens is Some)
    &&& (q.total_requests matches Some(t) ==> t == 100)
    &&& (q.total_tokens matches Some(t) ==> t == 100)
}

/// The credential itself was rejected by the upstream; distinct from a
/// transient network failure.
#[derive(Debug, Clone, PartialEq, Eq, Structural)]
pub enum AuthError {
    Expired,
}

impl AuthError {
    /// The display text of this error.
    pub fn message(&self) -> (r: String)
        ensures
            r@ == "Token expired"@,
    {
        String::from_str("Token expired")
    }
}

/// The upstream's reset time for one window, as it arrives: either an ISO
/// 8601 string passed through verbatim, or an epoch value.
#[derive(Debug, Clone, PartialEq)]
pub enum CodexResetAt {
    IsoString(String),
    EpochSeconds(i64),
}

/// One rate window as the upstream reports it.  `used_percent_milli` is
/// the upstream's fractional `used_percent` scaled to thousandths of a
/// percent, so that `12.345%` arrives as `12345`.
#[derive(Debug, Clone, PartialEq)]
pub struct CodexRateLimitWindowSnapshot {
    pub used_percent_milli: Option<i64>,
    pub reset_at: Option<CodexResetAt>,
    pub reset_after_seconds: Option<i64>,
}

/// The upstream's rate-limit block: a primary (request-rate) and a
/// secondary (token-budget) window, each optional.
#[derive(Debug, Clone, PartialEq)]
pub struct CodexRateLimitStatus {
    pub primary_window: Option<CodexRateLimitWindowSnapshot>,
    pub secondary_window: Option<CodexRateLimitWindowSnapshot>,
}

/// The upstream's credit block, used only to annotate the plan label.
#[derive(Debug, Clone, PartialEq)]
pub struct CodexCreditStatus {
    pub unlimited: Option<bool>,
    pub balance: Option<String>,
}

/// The usage payload of the token-auth quota endpoint, already
/// deserialized into plain values.
#[derive(Debug, Clone, PartialEq)]
pub struct CodexUsagePayload {
    pub plan_type: Option<String>,
    pub rate_limit: Option<CodexRateLimitStatus>,
    pub credits: Option<CodexCreditStatus>,
}

/// A percentage in thousandths, clamped to `[0, 100000]` and rounded half
/// up to the nearest whole percent.
pub open spec fn spec_clamp_percent(milli: int) -> int {
    if milli < 0 {
        0
    } else if milli > 100_000 {
        100
    } else {
        (milli + 500) / 1000
    }
}

/// Clamps a used-percentage (in thousandths of a percent) to `[0, 100]`
/// whole percent, rounding half up.  Out-of-range upstream reports are
/// clamped, never rejected.
pub fn clamp_used_percent(milli: i64) -> (r: u64)
    ensures
        r == spec_clamp_percent(milli as int),
        r <= 100,
{
    if milli < 0 {
        0
    } else if milli > 100_000 {
        100
    } else {
        ((milli + 500) / 1000) as u64
    }
}

/// Epoch values at or above 10^12 are taken as milliseconds and reduced
/// to seconds; smaller values are already seconds.
pub open spec fn spec_normalize_epoch(raw: int) -> int {
    if raw >= 1_000_000_000_000 {
        raw / 1000
    } else {
        raw
    }
}

/// Detects epoch-millisecond values and reduces them to seconds.
pub fn normalize_epoch(raw: i64) -> (r: i64)
    ensures
        r == spec_normalize_epoch(raw as int),
{
    if raw >= 1_000_000_000_000 {
        raw / 1000
    } else {
        raw
    }
}

/// An epoch instant denotes the same normalized timestamp whether it is
/// expressed in seconds or in milliseconds, for any instant whose
/// millisecond form reaches the detection threshold.
pub proof fn lemma_epoch_units_agree(secs: int)
    requires
        1_000_000_000 <= secs < 1_000_000_000_000,
    ensures
        spec_normalize_epoch(secs * 1000) == spec_normalize_epoch(secs),
{
    assert(secs * 1000 >= 1_000_000_000_000) by (nonlinear_arith)
        requires
            secs >= 1_000_000_000,
    ;
    assert(secs * 1000 / 1000 == secs) by (nonlinear_arith);
}

/// What chrono's seconds-precision UTC RFC 3339 formatting returns for an
/// in-range epoch-second timestamp.  The result depends on the timestamp
/// alone.
pub uninterp spec fn rfc3339_utc_of(secs: int) -> Seq<char>;

/// Relies on chrono's `DateTime::<Utc>::from_timestamp` and
/// `to_rfc3339_opts(SecondsFormat::Secs, true)`: formats an epoch-second
/// timestamp as a seconds-precision UTC RFC 3339 string ending in `Z`.
/// chrono's source returns `None` only when the timestamp's day count
/// leaves the supported calendar range, which holds no timestamp within
/// 10^12 seconds of the epoch.
#[verifier::external_body]
fn epoch_to_rfc3339(secs: i64) -> (r: Option<String>)
    ensures
        r matches Some(s) ==> s@ == rfc3339_utc_of(secs as int),
        -1_000_000_000_000 <= secs <= 1_000_000_000_000 ==> r is Some,
{
    chrono::DateTime::<chrono::Utc>::from_timestamp(secs, 0)
        .map(|dt| dt.to_rfc3339_opts(chrono::SecondsFormat::Secs, true))
}

/// What the current wall clock reads, as epoch seconds.
///
/// Relies on chrono's `Utc::now` and `timestamp`.  Nothing useful can be
/// promised of the clock's value; callers must hold for every reading.
#[verifier::external_body]
pub(crate) fn now_epoch_seconds() -> (r: i64) {
    chrono::Utc::now().timestamp()
}

/// Formats an upstream epoch value (seconds, or milliseconds at or above
/// the detection threshold) as a UTC RFC 3339 string; falls back to the
/// bare normalized number if the calendar cannot express it.
pub fn epoch_seconds_to_rfc3339(raw: i64) -> (r: String)
    ensures
        ({
            let norm = spec_normalize_epoch(raw as int);
            r@ == rfc3339_utc_of(norm) || r@ == dec_chars_signed(norm)
        }),
        -1_000_000_000_000 <= spec_normalize_epoch(raw as int) <= 1_000_000_000_000 ==> r@
            == rfc3339_utc_of(spec_normalize_epoch(raw as int)),
{
    let seconds = normalize_epoch(raw);
    match epoch_to_rfc3339(seconds) {
        Some(s) => s,
        None => i64_to_string(seconds),
    }
}

impl CodexResetAt {
    /// The reset time as a display string: ISO strings pass through
    /// verbatim; epoch values are normalized and formatted as UTC
    /// RFC 3339.
    pub fn as_rfc3339(&self) -> (r: String)
        ensures
            self matches CodexResetAt::IsoString(v) ==> r@ == v@,
            self matches CodexResetAt::EpochSeconds(e) ==> (r@ == rfc3339_utc_of(
                spec_normalize_epoch(e as int),
            ) || r@ == dec_chars_signed(spec_normalize_epoch(e as int))),
    {
        match self {
            CodexResetAt::IsoString(value) => value.clone(),
            CodexResetAt::EpochSeconds(value) => epoch_seconds_to_rfc3339(*value),
        }
    }
}

/// Whether `t` is an acceptable rendering of the absolute reset time
/// `at`: ISO strings verbatim, epoch values normalized and formatted.
pub open spec fn spec_reset_at_text(at: CodexResetAt, t: Seq<char>) -> bool {
    match at {
        CodexResetAt::IsoString(v) => t == v@,
        CodexResetAt::EpochSeconds(e) => t == rfc3339_utc_of(spec_normalize_epoch(e as int))
            || t == dec_chars_signed(spec_normalize_epoch(e as int)),
    }
}

/// The reset timestamp for one window, given the wall clock reading
/// `now`: a relative `reset_after_seconds` is preferred and yields
/// exactly `now + seconds` in RFC 3339; otherwise the absolute `reset_at`
/// is normalized.
pub fn reset_time_with_now(
    now: i64,
    reset_at: Option<&CodexResetAt>,
    reset_after_seconds: Option<i64>,
) -> (r: Option<String>)
    requires
        reset_after_seconds matches Some(s) ==> -9_223_372_036_854 <= s <= 9_223_372_036_854
            && -9_223_372_036_854 <= now <= 9_223_372_036_854,
    ensures
        reset_after_seconds matches Some(s) ==> r matches Some(t) && (t@ == rfc3339_utc_of(
            spec_normalize_epoch(now + s),
        ) || t@ == dec_chars_signed(spec_normalize_epoch(now + s))),
        reset_after_seconds is None && reset_at is None ==> r is None,
        (reset_after_seconds is None && reset_at is Some) ==> r is Some,
        (reset_after_seconds is None && reset_at is Some && r is Some) ==> spec_reset_at_text(
            *reset_at->Some_0,
            r->Some_0@,
        ),
{
    if let Some(seconds) = reset_after_seconds {
        let future = now + seconds;
        Some(epoch_seconds_to_rfc3339(future))
    } else {
        match reset_at {
            Some(at) => Some(at.as_rfc3339()),
            None => None,
        }
    }
}

/// The reset timestamp for one window, read against the current wall
/// clock.  Whatever the clock read, a relative `reset_after_seconds`
/// yields a timestamp and an absolute `reset_at` is normalized as
/// `CodexResetAt::as_rfc3339` states.  Readings and offsets beyond what
/// the calendar can express are clamped rather than overflowed.
pub fn calculate_reset_time(
    reset_at: Option<&CodexResetAt>,
    reset_after_seconds: Option<i64>,
) -> (r: Option<String>)
    ensures
        reset_after_seconds is Some ==> r is Some,
        reset_after_seconds is None && reset_at is None ==> r is None,
        (reset_after_seconds is None && reset_at is Some) ==> r is Some,
        (reset_after_seconds is None && reset_at is Some && r is Some) ==> spec_reset_at_text(
            *reset_at->Some_0,
            r->Some_0@,
        ),
{
    if let Some(seconds) = reset_after_seconds {
        let now = now_epoch_seconds();
        let clamped_now = clamp_epoch_arg(now);
        let clamped_seconds = clamp_epoch_arg(seconds);
        reset_time_with_now(clamped_now, reset_at, Some(clamped_seconds))
    } else {
        reset_time_with_now(0, reset_at, None)
    }
}

fn clamp_epoch_arg(v: i64) -> (r: i64)
    ensures
        -9_223_372_036_854i64 <= r <= 9_223_372_036_854i64,
{
    if v < -9_223_372_036_854i64 {
        -9_223_372_036_854i64
    } else if v > 9_223_372_036_854i64 {
        9_223_372_036_854i64
    } else {
        v
    }
}

/// The plan label annotated with the credit balance: `"<plan> (credits:
/// unlimited)"`, `"<plan> (credits: <balance>)"`, or the bare plan when
/// there is nothing to annotate.
pub open spec fn spec_plan_with_credits(plan: Seq<char>, credits: Option<CodexCreditStatus>) -> Seq<
    char,
> {
    match credits {
        None => plan,
        Some(c) => {
            if c.unlimited == Some(true) {
                plan + " (credits: unlimited)"@
            } else {
                match c.balance {
                    None => plan,
                    Some(b) => plan + " (credits: "@ + b@ + ")"@,
                }
            }
        },
    }
}

/// Annotates a plan label with the upstream's credit report.
pub fn format_plan_type_with_credits(plan_type: String, credits: Option<&CodexCreditStatus>) -> (r:
    String)
    ensures
        r@ == spec_plan_with_credits(plan_type@, match credits {
            Some(c) => Some(*c),
            None => None,
        }),
{
    let credits = match credits {
        Some(c) => c,
        None => {
            return plan_type;
        },
    };
    let unlimited = match credits.unlimited {
        Some(b) => b,
        None => false,
    };
    if unlimited {
        let mut out = plan_type;
        push_str_chars(&mut out, " (credits: unlimited)");
        return out;
    }
    match &credits.balance {
        None => plan_type,
        Some(balance) => {
            let mut out = plan_type;
            push_str_chars(&mut out, " (credits: ");
            push_str_chars(&mut out, balance.as_str());
            push_str_chars(&mut out, ")");
            assert(out@ =~= plan_type@ + " (credits: "@ + balance@ + ")"@);
            out
        },
    }
}


/// One window's clamped used units, if the upstream reported any.
pub open spec fn spec_window_used(w: Option<CodexRateLimitWindowSnapshot>) -> Option<int> {
    match w {
        Some(win) => match win.used_percent_milli {
            Some(m) => Some(spec_clamp_percent(m as int)),
            None => None,
        },
        None => None,
    }
}

/// The primary window of a payload, if reported.
pub open spec fn spec_primary_window(p: CodexUsagePayload) -> Option<
    CodexRateLimitWindowSnapshot,
> {
    match p.rate_limit {
        Some(rl) => rl.primary_window,
        None => None,
    }
}

/// The secondary window of a payload, if reported.
pub open spec fn spec_secondary_window(p: CodexUsagePayload) -> Option<
    CodexRateLimitWindowSnapshot,
> {
    match p.rate_limit {
        Some(rl) => rl.secondary_window,
        None => None,
    }
}

fn window_used(w: &Option<CodexRateLimitWindowSnapshot>) -> (r: Option<u64>)
    ensures
        r == match spec_window_used(*w) {
            Some(v) => Some(v as u64),
            None => None::<u64>,
        },
        r matches Some(v) ==> v <= 100,
{
    match w {
        Some(win) => match win.used_percent_milli {
            Some(m) => Some(clamp_used_percent(m)),
            None => None,
        },
        None => None,
    }
}

fn window_reset(w: &Option<CodexRateLimitWindowSnapshot>) -> (r: Option<String>)
    ensures
        w is None ==> r is None,
        w matches Some(win) ==> (win.reset_after_seconds is Some ==> r is Some),
        w matches Some(win) ==> (win.reset_after_seconds is None && win.reset_at is None ==> r
            is None),
{
    match w {
        Some(win) => calculate_reset_time(win.reset_at.as_ref(), win.reset_after_seconds),
        None => None,
    }
}

/// Normalizes a usage payload into the canonical snapshot for one
/// account: window percentages clamped into `[0, 100]` on the fixed
/// scale of 100, reset times normalized, the plan label taken from the
/// payload (else the credential, else `Unknown`) and annotated with
/// credits, and identity fields read from the credential.
pub fn codex_payload_to_quota_info(auth: &AuthDotJson, payload: CodexUsagePayload) -> (r:
    QuotaInfo)
    ensures
        quota_info_wf(r),
        r.used_requests == match spec_window_used(spec_primary_window(payload)) {
            Some(v) => Some(v as u64),
            None => None::<u64>,
        },
        r.used_tokens == match spec_window_used(spec_secondary_window(payload)) {
            Some(v) => Some(v as u64),
            None => None::<u64>,
        },
        spec_primary_window(payload) is None ==> r.reset_date is None,
        spec_secondary_window(payload) is None ==> r.secondary_reset_date is None,
        spec_primary_window(payload) matches Some(w) ==> (w.reset_after_seconds is Some ==> r
            .reset_date is Some),
        spec_secondary_window(payload) matches Some(w) ==> (w.reset_after_seconds is Some ==> r
            .secondary_reset_date is Some),
        payload.plan_type matches Some(p) ==> r.plan_type@ == spec_plan_with_credits(
            p@,
            payload.credits,
        ),
        auth.tokens matches Some(t) ==> (t.account_id matches Some(a) ==> r.account_id == a),
        auth.tokens is None ==> r.account_id@ == Seq::<char>::empty() && r.email@ == Seq::<
            char,
        >::empty(),
        auth.tokens matches Some(t) ==> (t.id_token matches Some(
            crate::auth::IdToken::Info(info),
        ) ==> (payload.plan_type is None ==> r.plan_type@ == spec_plan_with_credits(
            match crate::auth::spec_plan_from_info(info) {
                Some(p) => p@,
                None => "Unknown"@,
            },
            payload.credits,
        ))),
{
    let (primary_window, secondary_window) = match &payload.rate_limit {
        Some(rl) => (&rl.primary_window, &rl.secondary_window),
        None => (&None, &None),
    };
    let primary_used = window_used(primary_window);
    let secondary_used = window_used(secondary_window);
    let reset_date = window_reset(primary_window);
    let secondary_reset_date = window_reset(secondary_window);

    let plan_base: String = match payload.plan_type {
        Some(p) => p,
        None => match crate::auth::get_plan_type(auth) {
            Some(p) => p,
            None => {
                let mut s = String::new();
                push_str_chars(&mut s, "Unknown");
                s
            },
        },
    };
    let plan_type = format_plan_type_with_credits(plan_base, payload.credits.as_ref());

    let account_id = match crate::auth::get_account_id(auth) {
        Some(a) => a,
        None => String::new(),
    };
    let email = match crate::auth::get_email(auth) {
        Some(e) => e,
        None => String::new(),
    };

    let total_requests: Option<u64> = match primary_used {
        Some(_) => Some(100),
        None => None,
    };
    let total_tokens: Option<u64> = match secondary_used {
        Some(_) => Some(100),
        None => None,
    };
    QuotaInfo {
        account_id,
        email,
        plan_type,
        used_requests: primary_used,
        total_requests,
        used_tokens: secondary_used,
        total_tokens,
        reset_date,
        secondary_reset_date,
    }
}

/// `s` without its trailing slashes.
pub open spec fn strip_trailing_slashes(s: Seq<char>) -> Seq<char>
    decreases s.len(),
{
    if s.len() > 0 && s[s.len() - 1] == '/' {
        strip_trailing_slashes(s.drop_last())
    } else {
        s
    }
}

/// `s` without its leading slashes.
pub open spec fn strip_leading_slashes(s: Seq<char>) -> Seq<char>
    decreases s.len(),
{
    if s.len() > 0 && s[0] == '/' {
        strip_leading_slashes(s.skip(1))
    } else {
        s
    }
}

/// A base URL and a path joined with exactly one slash between them.
pub open spec fn spec_join_url(base: Seq<char>, path: Seq<char>) -> Seq<char> {
    strip_trailing_slashes(base) + seq!['/'] + strip_leading_slashes(path)
}

proof fn lemma_strip_trailing_subrange(s: Seq<char>, l: int)
    requires
        0 <= l <= s.len(),
        forall|j: int| l <= j < s.len() ==> s[j] == '/',
    ensures
        strip_trailing_slashes(s) == strip_trailing_slashes(s.subrange(0, l)),
    decreases s.len() - l,
{
    if l < s.len() {
        assert(s[s.len() - 1] == '/');
        assert(s.drop_last() =~= s.subrange(0, s.len() - 1));
        lemma_strip_trailing_subrange(s.subrange(0, s.len() - 1), l);
        assert(s.subrange(0, s.len() - 1).subrange(0, l) =~= s.subrange(0, l));
    } else {
        assert(s.subrange(0, l) =~= s);
    }
}

proof fn lemma_strip_leading_subrange(s: Seq<char>, f: int)
    requires
        0 <= f <= s.len(),
        forall|j: int| 0 <= j < f ==> s[j] == '/',
    ensures
        strip_leading_slashes(s) == strip_leading_slashes(s.subrange(f, s.len() as int)),
    decreases f,
{
    if f > 0 {
        assert(s.len() > 0 && s[0] == '/');
        assert(s.skip(1) =~= s.subrange(1, s.len() as int));
        let t = s.subrange(1, s.len() as int);
        lemma_strip_leading_subrange(t, f - 1);
        assert(t.subrange(f - 1, t.len() as int) =~= s.subrange(f, s.len() as int));
    } else {
        assert(s.subrange(0, s.len() as int) =~= s);
    }
}

/// Joins a base URL and a path with exactly one slash, however many
/// slashes either side brings.
pub fn join_url(base: &str, path: &str) -> (r: String)
    ensures
        r@ == spec_join_url(base@, path@),
{
    let base_len = base.unicode_len();
    let mut l: usize = base_len;
    while l > 0 && base.get_char(l - 1) == '/'
        invariant
            l <= base_len,
            base_len == base@.len(),
            forall|j: int| l <= j < base_len ==> base@[j] == '/',
        decreases l,
    {
        l -= 1;
    }
    let path_len = path.unicode_len();
    let mut f: usize = 0;
    while f < path_len && path.get_char(f) == '/'
        invariant
            f <= path_len,
            path_len == path@.len(),
            forall|j: int| 0 <= j < f ==> path@[j] == '/',
        decreases path_len - f,
    {
        f += 1;
    }
    proof {
        lemma_strip_trailing_subrange(base@, l as int);
        if l > 0 {
            assert(base@.subrange(0, l as int).last() == base@[l - 1]);
            assert(strip_trailing_slashes(base@.subrange(0, l as int)) == base@.subrange(
                0,
                l as int,
            ));
        }
        lemma_strip_leading_subrange(path@, f as int);
        if f < path_len {
            assert(path@.subrange(f as int, path_len as int)[0] == path@[f as int]);
            assert(strip_leading_slashes(path@.subrange(f as int, path_len as int)) == path@
                .subrange(f as int, path_len as int));
        }
    }
    let mut out = String::new();
    let mut i: usize = 0;
    while i < l
        invariant
            i <= l <= base_len,
            base_len == base@.len(),
            out@ == base@.subrange(0, i as int),
        decreases l - i,
    {
        out.push(base.get_char(i));
        assert(out@ =~= base@.subrange(0, i + 1));
        i += 1;
    }
    out.push('/');
    let mut k: usize = f;
    while k < path_len
        invariant
            f <= k <= path_len,
            path_len == path@.len(),
            out@ == base@.subrange(0, l as int) + seq!['/'] + path@.subrange(f as int, k as int),
        decreases path_len - k,
    {
        out.push(path.get_char(k));
        assert(out@ =~= base@.subrange(0, l as int) + seq!['/'] + path@.subrange(
            f as int,
            k + 1,
        ));
        k += 1;
    }
    proof {
        if f == path_len {
            assert(path@.subrange(f as int, path_len as int).len() == 0);
        }
        assert(out@ =~= spec_join_url(base@, path@));
    }
    out
}

/// Appends a URL unless the list already holds it.
pub open spec fn spec_add_unique(urls: Seq<Seq<char>>, u: Seq<char>) -> Seq<Seq<char>> {
    if exists|i: int| 0 <= i < urls.len() && urls[i] == u {
        urls
    } else {
        urls.push(u)
    }
}

/// The candidate URLs for the token-auth usage endpoint: for each base
/// host the shorter path first, then the `/api/`-prefixed path, each
/// URL kept once.  A configured override (trimmed, if non-empty)
/// replaces the two default hosts.
pub open spec fn spec_usage_urls(configured: Option<Seq<char>>) -> Seq<Seq<char>> {
    let chosen = match configured {
        Some(v) => if trim_ws(v).len() > 0 {
            Some(trim_ws(v))
        } else {
            None
        },
        None => None,
    };
    match chosen {
        Some(b) => spec_add_unique(
            spec_add_unique(Seq::empty(), spec_join_url(b, "/codex/usage"@)),
            spec_join_url(b, "/api/codex/usage"@),
        ),
        None => spec_add_unique(
            spec_add_unique(
                spec_add_unique(
                    spec_add_unique(
                        Seq::empty(),
                        spec_join_url("https://chatgpt.com/backend-api"@, "/codex/usage"@),
                    ),
                    spec_join_url("https://chatgpt.com/backend-api"@, "/api/codex/usage"@),
                ),
                spec_join_url("https://chat.openai.com/backend-api"@, "/codex/usage"@),
            ),
            spec_join_url("https://chat.openai.com/backend-api"@, "/api/codex/usage"@),
        ),
    }
}

/// Whether the list already holds this URL.
fn url_list_contains(urls: &Vec<String>, url: &str) -> (r: bool)
    ensures
        r == exists|i: int| 0 <= i < urls@.len() && #[trigger] urls@[i]@ == url@,
{
    let mut i: usize = 0;
    while i < urls.len()
        invariant
            i <= urls@.len(),
            forall|j: int| 0 <= j < i ==> #[trigger] urls@[j]@ != url@,
        decreases urls@.len() - i,
    {
        if str_eq(urls[i].as_str(), url) {
            return true;
        }
        i += 1;
    }
    false
}

/// Pushes a URL unless the list already holds it, mirroring
/// `spec_add_unique` over the views.
fn push_unique(urls: &mut Vec<String>, url: String)
    ensures
        final(urls)@.map_values(|u: String| u@) == spec_add_unique(
            old(urls)@.map_values(|u: String| u@),
            url@,
        ),
{
    let ghost before = urls@.map_values(|u: String| u@);
    if !url_list_contains(urls, url.as_str()) {
        proof {
            assert forall|i: int| 0 <= i < before.len() implies before[i] != url@ by {
                assert(old(urls)@[i]@ != url@);
            }
        }
        urls.push(url);
        assert(urls@.map_values(|u: String| u@) =~= before.push(url@));
    } else {
        let ghost k = choose|i: int| 0 <= i < urls@.len() && urls@[i]@ == url@;
        proof {
            assert(before[k] == url@);
        }
    }
}

/// Builds the ordered candidate URLs for the usage endpoint from the
/// resolved base-URL override, preferring the shorter path for each
/// base and keeping each URL once.
pub fn codex_usage_urls(configured: Option<String>) -> (r: Vec<String>)
    ensures
        r@.map_values(|u: String| u@) == spec_usage_urls(match configured {
            Some(c) => Some(c@),
            None => None::<Seq<char>>,
        }),
{
    let trimmed: Option<String> = match &configured {
        Some(v) => {
            let t = trim_chars(v.as_str());
            if t.unicode_len() > 0 {
                Some(t)
            } else {
                None
            }
        },
        None => None,
    };
    let mut urls: Vec<String> = Vec::new();
    proof {
        assert(urls@.map_values(|u: String| u@) =~= Seq::<Seq<char>>::empty());
    }
    match trimmed {
        Some(b) => {
            let first = join_url(b.as_str(), "/codex/usage");
            let second = join_url(b.as_str(), "/api/codex/usage");
            push_unique(&mut urls, first);
            push_unique(&mut urls, second);
        },
        None => {
            let b1 = "https://chatgpt.com/backend-api";
            let b2 = "https://chat.openai.com/backend-api";
            let u1 = join_url(b1, "/codex/usage");
            let u2 = join_url(b1, "/api/codex/usage");
            let u3 = join_url(b2, "/codex/usage");
            let u4 = join_url(b2, "/api/codex/usage");
            push_unique(&mut urls, u1);
            push_unique(&mut urls, u2);
            push_unique(&mut urls, u3);
            push_unique(&mut urls, u4);
        },
    }
    urls
}

/// Whether a 401 body names an invalid API key: the defensive fallback
/// condition for deployments where the token path is not provisioned.
pub open spec fn spec_should_fallback(body: Seq<char>) -> bool {
    contains_sub(body, "\"invalid_api_key\""@) || contains_sub(
        body,
        "Incorrect API key provided"@,
    )
}

/// Whether an unauthorized response's body names an invalid API key.
pub fn should_fallback_on_unauthorized(body: &str) -> (r: bool)
    ensures
        r == spec_should_fallback(body@),
{
    str_contains(body, "\"invalid_api_key\"") || str_contains(
        body,
        "Incorrect API key provided",
    )
}

/// What `String::from_utf8_lossy` yields for these bytes: the text with
/// invalid UTF-8 sequences replaced.  The result depends on the bytes
/// alone.
pub uninterp spec fn utf8_lossy_of(bytes: Seq<u8>) -> Seq<char>;

/// Relies on `String::from_utf8_lossy` from std: decodes bytes as UTF-8,
/// substituting the replacement character for invalid sequences; empty
/// input stays empty.
#[verifier::external_body]
fn utf8_lossy(bytes: &[u8]) -> (r: String)
    ensures
        r@ == utf8_lossy_of(bytes@),
        bytes@.len() == 0 ==> r@.len() == 0,
{
    String::from_utf8_lossy(bytes).into_owned()
}

/// One character of a body preview: carriage returns and newlines are
/// spelled out as two-character escapes.
pub open spec fn spec_escape_char(c: char) -> Seq<char> {
    if c == '\r' {
        seq!['\\', 'r']
    } else if c == '\n' {
        seq!['\\', 'n']
    } else {
        seq![c]
    }
}

/// A text with its line breaks spelled out.
pub open spec fn spec_escape_breaks(s: Seq<char>) -> Seq<char>
    decreases s.len(),
{
    if s.len() == 0 {
        Seq::empty()
    } else {
        spec_escape_breaks(s.drop_last()) + spec_escape_char(s.last())
    }
}

/// The first bytes of an upstream body, decoded leniently, with line
/// breaks spelled out and surrounding whitespace trimmed: the preview
/// that a parse failure carries for diagnosis.
pub open spec fn spec_body_preview(bytes: Seq<u8>) -> Seq<char> {
    let cut = if bytes.len() <= 256 {
        bytes
    } else {
        bytes.take(256)
    };
    trim_ws(spec_escape_breaks(utf8_lossy_of(cut)))
}

/// Builds the bounded, sanitized preview of a response body.
pub fn body_preview(bytes: &[u8]) -> (r: String)
    ensures
        r@ == spec_body_preview(bytes@),
{
    let total = bytes.len();
    let n: usize = if total <= 256 {
        total
    } else {
        256
    };
    let mut cut: Vec<u8> = Vec::new();
    let mut i: usize = 0;
    while i < n
        invariant
            i <= n <= bytes@.len(),
            cut@ == bytes@.take(n as int).take(i as int),
        decreases n - i,
    {
        let b = bytes[i];
        cut.push(b);
        assert(cut@ =~= bytes@.take(n as int).take(i + 1));
        i += 1;
    }
    proof {
        assert(cut@ =~= bytes@.take(n as int));
        if bytes@.len() <= 256 {
            assert(bytes@.take(n as int) =~= bytes@);
        }
    }
    let text = utf8_lossy(cut.as_slice());
    let text_len = text.as_str().unicode_len();
    let mut escaped = String::new();
    let mut k: usize = 0;
    while k < text_len
        invariant
            k <= text_len,
            text_len == text@.len(),
            escaped@ == spec_escape_breaks(text@.subrange(0, k as int)),
        decreases text_len - k,
    {
        let c = text.as_str().get_char(k);
        proof {
            assert(text@.subrange(0, k + 1).drop_last() =~= text@.subrange(0, k as int));
            assert(text@.subrange(0, k + 1).last() == text@[k as int]);
        }
        if c == '\r' {
            escaped.push('\\');
            escaped.push('r');
        } else if c == '\n' {
            escaped.push('\\');
            escaped.push('n');
        } else {
            escaped.push(c);
        }
        assert(escaped@ =~= spec_escape_breaks(text@.subrange(0, k + 1)));
        k += 1;
    }
    proof {
        assert(text@.subrange(0, text_len as int) =~= text@);
    }
    trim_chars(escaped.as_str())
}

/// The legacy usage endpoint's snapshot: counters read from the nested
/// `data.usage[0]` object of an opaque document, no totals and no reset
/// times, identity and plan from the credential.
pub fn parse_quota_response(auth: &AuthDotJson, data: &serde_json::Value) -> (r: QuotaInfo)
    ensures
        r.total_requests is None,
        r.total_tokens is None,
        r.reset_date is None,
        r.secondary_reset_date is None,
        auth.tokens matches Some(t) ==> (t.account_id matches Some(a) ==> r.account_id == a),
        auth.tokens is None ==> r.account_id@ == Seq::<char>::empty() && r.email@ == Seq::<
            char,
        >::empty(),
{
    let usage_entry = match json_get(data, "data") {
        Some(d) => match json_get(d, "usage") {
            Some(u) => json_index(u, 0),
            None => None,
        },
        None => None,
    };
    let (used_requests, used_tokens): (Option<u64>, Option<u64>) = match usage_entry {
        Some(entry) => {
            let reqs = match json_get(entry, "n_requests") {
                Some(v) => json_as_u64(v),
                None => None,
            };
            let toks = match json_get(entry, "n_tokens") {
                Some(v) => json_as_u64(v),
                None => None,
            };
            (reqs, toks)
        },
        None => (None, None),
    };
    QuotaInfo {
        account_id: match crate::auth::get_account_id(auth) {
            Some(a) => a,
            None => String::new(),
        },
        email: match crate::auth::get_email(auth) {
            Some(e) => e,
            None => String::new(),
        },
        plan_type: match crate::auth::get_plan_type(auth) {
            Some(p) => p,
            None => {
                let mut s = String::new();
                push_str_chars(&mut s, "Unknown");
                s
            },
        },
        used_requests,
        total_requests: None,
        used_tokens,
        total_tokens: None,
        reset_date: None,
        secondary_reset_date: None,
    }
}

/// The empty best-effort snapshot substituted when detailed usage is not
/// available: identity and plan from the credential, no counters at all.
pub fn get_fallback_quota(auth: &AuthDotJson) -> (r: QuotaInfo)
    ensures
        r.used_requests is None,
        r.total_requests is None,
        r.used_tokens is None,
        r.total_tokens is None,
        r.reset_date is None,
        r.secondary_reset_date is None,
        quota_info_wf(r),
        auth.tokens matches Some(t) ==> (t.account_id matches Some(a) ==> r.account_id == a),
        auth.tokens matches Some(t) ==> (t.id_token matches Some(crate::auth::IdToken::Info(
            info,
        )) ==> r.plan_type@ == (match crate::auth::spec_plan_from_info(info) {
            Some(p) => p@,
            None => "Unknown"@,
        })),
{
    QuotaInfo {
        account_id: match crate::auth::get_account_id(auth) {
            Some(a) => a,
            None => String::new(),
        },
        email: match crate::auth::get_email(auth) {
            Some(e) => e,
            None => String::new(),
        },
        plan_type: match crate::auth::get_plan_type(auth) {
            Some(p) => p,
            None => {
                let mut s = String::new();
                push_str_chars(&mut s, "Unknown");
                s
            },
        },
        used_requests: None,
        total_requests: None,
        used_tokens: None,
        total_tokens: None,
        reset_date: None,
        secondary_reset_date: None,
    }
}

/// How one quota endpoint's error response is classified: substitute the
/// empty fallback snapshot, treat the credential as expired, or report
/// an upstream error and move on.
#[derive(Debug, Clone, PartialEq, Eq, Structural)]
pub enum ErrorClass {
    UseFallback,
    Expired,
    Upstream,
}

/// Classifies a non-success quota response: a 401 means the credential
/// expired, unless the body blames an invalid API key while tokens were
/// used (a soft failure answered with the empty snapshot); anything
/// else is an upstream error for the caller to report.
pub fn classify_error_response(status: u16, tokens_flow: bool, body: &str) -> (r: ErrorClass)
    ensures
        status == 401 && tokens_flow && spec_should_fallback(body@) ==> r
            == ErrorClass::UseFallback,
        status == 401 && !(tokens_flow && spec_should_fallback(body@)) ==> r
            == ErrorClass::Expired,
        status != 401 ==> r == ErrorClass::Upstream,
{
    if status == 401 {
        if tokens_flow && should_fallback_on_unauthorized(body) {
            ErrorClass::UseFallback
        } else {
            ErrorClass::Expired
        }
    } else {
        ErrorClass::Upstream
    }
}

/// What the identity provider's token endpoint returned on success.
#[derive(Debug, PartialEq)]
pub struct RefreshResponse {
    pub _id_token: Option<String>,
    pub access_token: Option<String>,
    pub refresh_token: Option<String>,
}

impl Clone for RefreshResponse {
    /// An exact copy of the response.
    fn clone(&self) -> (r: Self)
        ensures
            r == *self,
    {
        RefreshResponse {
            _id_token: clone_opt_string(&self._id_token),
            access_token: clone_opt_string(&self.access_token),
            refresh_token: clone_opt_string(&self.refresh_token),
        }
    }
}

/// Why a token refresh failed: the refresh token itself was rejected, the
/// endpoint failed with some status, or a success body could not be
/// parsed.
#[derive(Debug, PartialEq)]
pub enum RefreshError {
    ExpiredOrInvalid(String),
    Failed(u16, String),
    ParseFailed,
}

/// Classifies the token endpoint's response: a 2xx with a parsed body
/// succeeds; a 401 is a hard "expired or invalid" failure; any other
/// status is a hard failure carrying the status and body.
pub fn refresh_outcome(status: u16, parsed: Option<RefreshResponse>, body: String) -> (r: Result<
    RefreshResponse,
    RefreshError,
>)
    ensures
        200 <= status < 300 ==> r == match parsed {
            Some(p) => Ok::<RefreshResponse, RefreshError>(p),
            None => Err(RefreshError::ParseFailed),
        },
        status == 401 ==> r == Err::<RefreshResponse, RefreshError>(
            RefreshError::ExpiredOrInvalid(body),
        ),
        !(200 <= status < 300) && status != 401 ==> r == Err::<RefreshResponse, RefreshError>(
            RefreshError::Failed(status, body),
        ),
{
    if 200 <= status && status < 300 {
        match parsed {
            Some(p) => Ok(p),
            None => Err(RefreshError::ParseFailed),
        }
    } else if status == 401 {
        Err(RefreshError::ExpiredOrInvalid(body))
    } else {
        Err(RefreshError::Failed(status, body))
    }
}



/// One failed attempt against a quota endpoint: either the credential
/// was rejected there, or the attempt failed with this message.
#[derive(Debug, PartialEq)]
pub enum FetchFailure {
    AuthExpired,
    Message(String),
}

/// The verdict after every candidate endpoint failed: nothing was
/// configured, the credential is expired, or all endpoints failed for
/// other reasons (with the collected messages).
#[derive(Debug, PartialEq)]
pub enum QuotaFetchError {
    NoEndpoints,
    Expired,
    AllFailed(String),
}

/// The failure messages joined with newlines.
pub open spec fn spec_join_messages(failures: Seq<FetchFailure>) -> Seq<char>
    decreases failures.len(),
{
    if failures.len() == 0 {
        Seq::empty()
    } else {
        let line = match failures[0] {
            FetchFailure::AuthExpired => "Token expired"@,
            FetchFailure::Message(m) => m@,
        };
        if failures.len() == 1 {
            line
        } else {
            line + seq!['\n'] + spec_join_messages(failures.skip(1))
        }
    }
}

/// Whether any attempt saw the credential rejected.
pub open spec fn spec_any_expired(failures: Seq<FetchFailure>) -> bool {
    exists|i: int| 0 <= i < failures.len() && failures[i] == FetchFailure::AuthExpired
}

/// Condenses the failures of a full sweep over the candidate endpoints:
/// no attempts means no endpoints were configured; any rejection of the
/// credential dominates (the caller then refreshes); otherwise every
/// message is reported, headed by a fixed line.
pub fn summarize_fetch_failures(failures: &Vec<FetchFailure>) -> (r: QuotaFetchError)
    ensures
        failures@.len() == 0 ==> r == QuotaFetchError::NoEndpoints,
        failures@.len() > 0 && spec_any_expired(failures@) ==> r == QuotaFetchError::Expired,
        failures@.len() > 0 && !spec_any_expired(failures@) ==> (r matches
            QuotaFetchError::AllFailed(msg) && msg@ == "All quota endpoints failed:\n"@
            + spec_join_messages(failures@)),
{
    if failures.len() == 0 {
        return QuotaFetchError::NoEndpoints;
    }
    let mut i: usize = 0;
    while i < failures.len()
        invariant
            i <= failures@.len(),
            forall|j: int| 0 <= j < i ==> failures@[j] != FetchFailure::AuthExpired,
        decreases failures@.len() - i,
    {
        if matches!(&failures[i], FetchFailure::AuthExpired) {
            assert(failures@[i as int] == FetchFailure::AuthExpired);
            return QuotaFetchError::Expired;
        }
        assert(failures@[i as int] != FetchFailure::AuthExpired);
        i += 1;
    }
    let mut acc = String::new();
    let mut k: usize = failures.len();
    proof {
        assert(failures@.skip(failures@.len() as int).len() == 0);
    }
    while k > 0
        invariant
            k <= failures@.len(),
            acc@ == spec_join_messages(failures@.skip(k as int)),
        decreases k,
    {
        k -= 1;
        let ghost tail = failures@.skip(k + 1);
        let line: String = match &failures[k] {
            FetchFailure::AuthExpired => {
                let mut t = String::new();
                push_str_chars(&mut t, "Token expired");
                assert(t@ =~= "Token expired"@);
                t
            },
            FetchFailure::Message(m) => m.clone(),
        };
        let mut next = line;
        if k + 1 < failures.len() {
            next.push('\n');
            next.append(acc.as_str());
        }
        proof {
            let cur = failures@.skip(k as int);
            assert(cur[0] == failures@[k as int]);
            assert(cur.skip(1) =~= tail);
            assert(next@ =~= spec_join_messages(cur));
        }
        acc = next;
    }
    proof {
        assert(failures@.skip(0) =~= failures@);
    }
    let mut msg = String::new();
    push_str_chars(&mut msg, "All quota endpoints failed:\n");
    msg.append(acc.as_str());
    QuotaFetchError::AllFailed(msg)
}

} // verus!
