//! The request router's pure half: normalizing the inbound request,
//! translating it into the upstream's shape, walking the ordered
//! candidate list, and shaping the terminal errors.  The HTTP handler
//! outside the library performs the network calls and streams bodies;
//! it asks these functions what to send and whom to try next.

use vstd::prelude::*;
use vstd::string::StrSliceExecFns;
use vstd::string::StringExecFns;

use crate::auth::AuthDotJson;
use crate::codex_types::{ContentPart, Reasoning, ResponseItem, ResponsesApiRequest};
use crate::strutil::{contains_sub, match_at, push_str_chars, str_contains, str_eq};

verus! {

/// One inbound chat message, already reduced to its role and text.
#[derive(Debug, PartialEq)]
pub struct ChatMessage {
    pub role: String,
    pub content: String,
}

impl Clone for ChatMessage {
    /// An exact copy of the message.
    fn clone(&self) -> (r: Self)
        ensures
            r == *self,
    {
        ChatMessage { role: self.role.clone(), content: self.content.clone() }
    }
}

/// The inbound completions request, reduced to what routing reads:
/// the model, the optional reasoning effort, and the message list.
/// Fields the router does not read pass through outside the library.
#[derive(Debug, PartialEq)]
pub struct ChatRequest {
    pub model: String,
    pub reasoning_effort: Option<String>,
    pub messages: Vec<ChatMessage>,
}

/// What `str::to_lowercase` returns.  The result depends on the
/// characters alone.
pub uninterp spec fn lower_of(s: Seq<char>) -> Seq<char>;

/// Relies on `str::to_lowercase` from std: the Unicode lowercase form
/// of the text; empty input stays empty.
#[verifier::external_body]
fn to_lowercase(s: &str) -> (r: String)
    ensures
        r@ == lower_of(s@),
        s@.len() == 0 ==> r@.len() == 0,
{
    s.to_lowercase()
}

/// Whether a model name names a mini variant: its lowercase form
/// contains `mini`.
pub open spec fn spec_is_mini_model(model: Seq<char>) -> bool {
    contains_sub(lower_of(model), "mini"@)
}

/// The effort setting a request carries, with absence read as medium.
pub open spec fn spec_current_effort(effort: Option<String>) -> Seq<char> {
    match effort {
        Some(e) => e@,
        None => "medium"@,
    }
}

/// Coerces the reasoning effort for mini model variants: those do not
/// support the extremes upstream, so `low` and `xhigh` become `medium`;
/// every other combination passes through untouched.
pub fn normalize_reasoning_effort(model: &str, effort: Option<String>) -> (r: Option<String>)
    ensures
        spec_is_mini_model(model@) && (spec_current_effort(effort) == "low"@
            || spec_current_effort(effort) == "xhigh"@) ==> (r matches Some(e) && e@
            == "medium"@),
        !(spec_is_mini_model(model@) && (spec_current_effort(effort) == "low"@
            || spec_current_effort(effort) == "xhigh"@)) ==> r == effort,
{
    proof {
        reveal_strlit("medium");
        reveal_strlit("low");
        reveal_strlit("xhigh");
        assert("medium"@.len() == 6);
        assert("low"@.len() == 3);
        assert("xhigh"@.len() == 5);
        assert("medium"@ != "low"@);
        assert("medium"@ != "xhigh"@);
    }
    let lower = to_lowercase(model);
    if str_contains(lower.as_str(), "mini") {
        let is_extreme = match &effort {
            Some(e) => str_eq(e.as_str(), "low") || str_eq(e.as_str(), "xhigh"),
            None => false,
        };
        if is_extreme {
            let mut m = String::new();
            m.append("medium");
            assert(m@ =~= "medium"@);
            Some(m)
        } else {
            effort
        }
    } else {
        effort
    }
}

/// What formatting a fresh v4 UUID in its simple form returns.
///
/// Relies on uuid's `Uuid::new_v4` and `simple`: a random identifier
/// formatted as exactly 32 hexadecimal digits.  The value is random;
/// only its shape is promised.
#[verifier::external_body]
fn fresh_message_suffix() -> (r: String)
    ensures
        r@.len() == 32,
{
    uuid::Uuid::new_v4().simple().to_string()
}

/// The instructions of a message list: the content of its last system
/// message, or empty text.
pub open spec fn spec_instructions(msgs: Seq<ChatMessage>) -> Seq<char>
    decreases msgs.len(),
{
    if msgs.len() == 0 {
        Seq::empty()
    } else if msgs.last().role@ == "system"@ {
        msgs.last().content@
    } else {
        spec_instructions(msgs.drop_last())
    }
}

/// The ordered non-system messages of a message list.
pub open spec fn spec_input_messages(msgs: Seq<ChatMessage>) -> Seq<ChatMessage> {
    msgs.filter(|m: ChatMessage| m.role@ != "system"@)
}

/// Whether an input item carries this message: same role, its content a
/// single text part with the message's text, and a synthetic identifier
/// of the shape `msg_` plus 32 digits.
pub open spec fn spec_item_carries(item: ResponseItem, m: ChatMessage) -> bool {
    item matches ResponseItem::Message { id, role, content } && {
        &&& role == m.role
        &&& content@.len() == 1
        &&& content@[0] matches ContentPart::Text { text } && text == m.content
        &&& id matches Some(s) && match_at(s@, "msg_"@, 0) && s@.len() == 36
    }
}

/// Translates the inbound request into the upstream's structured shape:
/// the last system message becomes top-level instructions, the other
/// messages become ordered input items with synthetic identifiers, the
/// model and effort pass through, and streaming is requested
/// unconditionally.
pub fn build_responses_request(
    model: String,
    reasoning_effort: Option<String>,
    messages: Vec<ChatMessage>,
) -> (r: ResponsesApiRequest)
    ensures
        r.model == model,
        r.instructions@ == spec_instructions(messages@),
        r.input@.len() == spec_input_messages(messages@).len(),
        forall|k: int|
            0 <= k < r.input@.len() ==> spec_item_carries(
                #[trigger] r.input@[k],
                spec_input_messages(messages@)[k],
            ),
        r.tools@.len() == 0,
        r.tool_choice@ == "auto"@,
        !r.parallel_tool_calls,
        r.reasoning == match reasoning_effort {
            Some(e) => Some(Reasoning { effort: e }),
            None => None::<Reasoning>,
        },
        !r.store,
        r.stream,
        r.output_fields@.len() == 0,
        r.prompt_cache_key is None,
        r.text is None,
{
    let ghost msgs = messages@;
    let mut instructions = String::new();
    let mut input: Vec<ResponseItem> = Vec::new();
    let mut found_system = false;
    let mut i: usize = 0;
    proof {
        reveal(Seq::filter);
        assert(msgs.subrange(0, 0) =~= Seq::<ChatMessage>::empty());
        assert(spec_input_messages(msgs.subrange(0, 0)) =~= Seq::<ChatMessage>::empty());
    }
    while i < messages.len()
        invariant
            i <= msgs.len(),
            messages@ == msgs,
            !found_system ==> instructions@ == Seq::<char>::empty(),
            (found_system || instructions@ == Seq::<char>::empty()) && instructions@
                == spec_instructions(msgs.subrange(0, i as int)),
            input@.len() == spec_input_messages(msgs.subrange(0, i as int)).len(),
            forall|k: int|
                0 <= k < input@.len() ==> spec_item_carries(
                    #[trigger] input@[k],
                    spec_input_messages(msgs.subrange(0, i as int))[k],
                ),
        decreases msgs.len() - i,
    {
        let ghost pre = msgs.subrange(0, i as int);
        let ghost pre2 = msgs.subrange(0, i + 1);
        proof {
            reveal(Seq::filter);
            assert(pre2.drop_last() =~= pre);
            assert(pre2.last() == msgs[i as int]);
        }
        let msg = messages[i].clone();
        if str_eq(msg.role.as_str(), "system") {
            instructions = msg.content;
            found_system = true;
            proof {
                assert(spec_instructions(pre2) == msgs[i as int].content@);
                assert(spec_input_messages(pre2) =~= spec_input_messages(pre));
            }
        } else {
            let suffix = fresh_message_suffix();
            let mut id = String::new();
            id.append("msg_");
            id.append(suffix.as_str());
            proof {
                reveal_strlit("msg_");
                assert(id@.len() == 36);
                assert forall|j: int| 0 <= j < "msg_"@.len() implies id@[j] == "msg_"@[j] by {}
                assert(match_at(id@, "msg_"@, 0));
            }
            let item = ResponseItem::Message {
                id: Some(id),
                role: msg.role,
                content: vec![ContentPart::Text { text: msg.content }],
            };
            input.push(item);
            proof {
                assert(spec_input_messages(pre2) =~= spec_input_messages(pre).push(
                    msgs[i as int],
                ));
                assert(spec_instructions(pre2) == spec_instructions(pre));
            }
        }
        i += 1;
    }
    proof {
        assert(msgs.subrange(0, msgs.len() as int) =~= msgs);
    }
    let mut tool_choice = String::new();
    tool_choice.append("auto");
    ResponsesApiRequest {
        model,
        instructions,
        input,
        tools: Vec::new(),
        tool_choice,
        parallel_tool_calls: false,
        reasoning: match reasoning_effort {
            Some(effort) => Some(Reasoning { effort }),
            None => None,
        },
        store: false,
        stream: true,
        output_fields: Vec::new(),
        prompt_cache_key: None,
        text: None,
    }
}

/// The bearer token a candidate's upstream call uses: the access token
/// of the token pair, else the API key, else nothing (the candidate is
/// skipped).
pub fn resolve_bearer_token(auth: &AuthDotJson) -> (r: Option<String>)
    ensures
        auth.tokens matches Some(t) ==> r == Some(t.access_token),
        auth.tokens is None ==> r == auth.openai_api_key,
{
    match &auth.tokens {
        Some(t) => Some(t.access_token.clone()),
        None => crate::quota::clone_opt_string(&auth.openai_api_key),
    }
}

/// The structured body of a terminal routing failure.
#[derive(Debug, PartialEq)]
pub struct ServiceError {
    pub error: String,
    pub hint: Option<String>,
    pub profiles_missing_quota: Option<usize>,
}

/// The terminal error when policy filtering left no candidate: it
/// distinguishes "accounts exist but their quota data is missing" (a
/// hint and a count guide the user toward refreshing) from plain
/// ineligibility.
pub fn no_candidates_error(profiles_missing_quota: usize) -> (r: ServiceError)
    ensures
        r.error@ == "No available accounts with quota"@,
        profiles_missing_quota > 0 ==> (r.hint matches Some(h) && h@
            == "Some profiles are missing quota. Refresh quotas (or re-login) and try again."@
            && r.profiles_missing_quota == Some(profiles_missing_quota)),
        profiles_missing_quota == 0 ==> r.hint is None && r.profiles_missing_quota is None,
{
    let mut error = String::new();
    error.append("No available accounts with quota");
    if profiles_missing_quota > 0 {
        let mut hint = String::new();
        hint.append("Some profiles are missing quota. Refresh quotas (or re-login) and try again.");
        ServiceError {
            error,
            hint: Some(hint),
            profiles_missing_quota: Some(profiles_missing_quota),
        }
    } else {
        ServiceError { error, hint: None, profiles_missing_quota: None }
    }
}

/// The terminal error when every candidate was tried and failed.
pub fn all_failed_error() -> (r: ServiceError)
    ensures
        r.error@ == "All accounts failed or exhausted"@,
        r.hint is None,
        r.profiles_missing_quota is None,
{
    let mut error = String::new();
    error.append("All accounts failed or exhausted");
    ServiceError { error, hint: None, profiles_missing_quota: None }
}

/// The walk over the ordered candidate list: which candidate to try
/// next.  One inbound request owns one walk; a candidate failure simply
/// advances it.
#[derive(Debug, PartialEq, Eq, Structural)]
pub struct RouteWalk {
    pub next_index: usize,
}

/// What the walk says to do.
#[derive(Debug, PartialEq, Eq, Structural)]
pub enum RouteStep {
    /// Try the candidate at this position of the ordered list.
    Attempt(usize),
    /// Every candidate was tried: answer with the terminal error.
    Exhausted,
}

impl RouteWalk {
    /// A walk that has tried nobody yet.
    pub fn start() -> (r: Self)
        ensures
            r.next_index == 0,
    {
        RouteWalk { next_index: 0 }
    }

    /// The next candidate to try among `total`, advancing the walk; or
    /// exhaustion once every candidate was tried.
    pub fn next_step(&mut self, total: usize) -> (r: RouteStep)
        ensures
            old(self).next_index < total ==> r == RouteStep::Attempt(old(self).next_index)
                && final(self).next_index == old(self).next_index + 1,
            old(self).next_index >= total ==> r == RouteStep::Exhausted && *final(self) == *old(
                self),
    {
        if self.next_index < total {
            let idx = self.next_index;
            self.next_index = idx + 1;
            RouteStep::Attempt(idx)
        } else {
            RouteStep::Exhausted
        }
    }
}

/// The candidate whose upstream call the router answers with: the first
/// position whose attempt succeeded, after attempting exactly the
/// failing positions before it; `None` when every attempt failed.
pub fn first_success(outcomes: &Vec<bool>) -> (r: Option<usize>)
    ensures
        match r {
            Some(i) => i < outcomes@.len() && outcomes@[i as int] && forall|k: int|
                0 <= k < i ==> !outcomes@[k],
            None => forall|k: int| 0 <= k < outcomes@.len() ==> !outcomes@[k],
        },
{
    let mut i: usize = 0;
    while i < outcomes.len()
        invariant
            i <= outcomes@.len(),
            forall|k: int| 0 <= k < i ==> !outcomes@[k],
        decreases outcomes@.len() - i,
    {
        if outcomes[i] {
            return Some(i);
        }
        i += 1;
    }
    None
}

} // verus!
