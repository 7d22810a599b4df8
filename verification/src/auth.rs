//! The credential record and what can be read from it: the account
//! identifier, e-mail and plan carried in the identity token's claims.
//! Loading and saving the credential file is file I/O outside the
//! library; the bytes themselves are framed by `credfile`.

use vstd::prelude::*;
use vstd::string::StrSliceExecFns;
use vstd::string::StringExecFns;

use crate::jsonval::{json_as_str, json_get, json_parse};
use crate::quota::clone_opt_string;
use crate::strutil::split_char;

verus! {

/// A credential: either a long-lived API key, or an OAuth token triple
/// with an optional upstream account identifier.  Both may be absent
/// only for a not-yet-authenticated account.  `last_refresh` is the
/// epoch second of the last successful token refresh.
#[derive(Debug, PartialEq)]
pub struct AuthDotJson {
    pub openai_api_key: Option<String>,
    pub tokens: Option<TokenData>,
    pub last_refresh: Option<i64>,
}

/// The OAuth token triple.
#[derive(Debug, PartialEq)]
pub struct TokenData {
    pub id_token: Option<IdToken>,
    pub access_token: String,
    pub refresh_token: String,
    pub account_id: Option<String>,
}

/// The identity token: either the raw JWT text, or its already-decoded
/// claims.
#[derive(Debug, PartialEq)]
pub enum IdToken {
    Raw(String),
    Info(IdTokenInfo),
}

/// The claims read from an identity token.
#[derive(Debug, PartialEq)]
pub struct IdTokenInfo {
    pub email: Option<String>,
    pub chatgpt_plan_type: Option<String>,
    pub chatgpt_account_id: Option<String>,
    pub openai_auth: Option<OpenAiAuthClaims>,
    pub raw_jwt: Option<String>,
}

/// What a completed interactive login hands back: the fresh token pair
/// and, when the provider sent one, the identity token.
#[derive(Debug, PartialEq)]
pub struct AuthResult {
    pub access_token: String,
    pub refresh_token: String,
    pub id_token: Option<String>,
}

/// The nested claim block some identity providers use.
#[derive(Debug, PartialEq)]
pub struct OpenAiAuthClaims {
    pub chatgpt_plan_type: Option<String>,
    pub chatgpt_account_id: Option<String>,
}

impl Clone for OpenAiAuthClaims {
    /// An exact copy of the claims.
    fn clone(&self) -> (r: Self)
        ensures
            r == *self,
    {
        OpenAiAuthClaims {
            chatgpt_plan_type: clone_opt_string(&self.chatgpt_plan_type),
            chatgpt_account_id: clone_opt_string(&self.chatgpt_account_id),
        }
    }
}

impl Clone for IdTokenInfo {
    /// An exact copy of the claims record.
    fn clone(&self) -> (r: Self)
        ensures
            r == *self,
    {
        IdTokenInfo {
            email: clone_opt_string(&self.email),
            chatgpt_plan_type: clone_opt_string(&self.chatgpt_plan_type),
            chatgpt_account_id: clone_opt_string(&self.chatgpt_account_id),
            openai_auth: match &self.openai_auth {
                Some(a) => Some(a.clone()),
                None => None,
            },
            raw_jwt: clone_opt_string(&self.raw_jwt),
        }
    }
}

impl Clone for IdToken {
    /// An exact copy of the identity token.
    fn clone(&self) -> (r: Self)
        ensures
            r == *self,
    {
        match self {
            IdToken::Raw(s) => IdToken::Raw(s.clone()),
            IdToken::Info(info) => IdToken::Info(info.clone()),
        }
    }
}

impl Clone for TokenData {
    /// An exact copy of the token triple.
    fn clone(&self) -> (r: Self)
        ensures
            r == *self,
    {
        TokenData {
            id_token: match &self.id_token {
                Some(t) => Some(t.clone()),
                None => None,
            },
            access_token: self.access_token.clone(),
            refresh_token: self.refresh_token.clone(),
            account_id: clone_opt_string(&self.account_id),
        }
    }
}

impl Clone for AuthDotJson {
    /// An exact copy of the credential record.
    fn clone(&self) -> (r: Self)
        ensures
            r == *self,
    {
        AuthDotJson {
            openai_api_key: clone_opt_string(&self.openai_api_key),
            tokens: match &self.tokens {
                Some(t) => Some(t.clone()),
                None => None,
            },
            last_refresh: self.last_refresh,
        }
    }
}

/// What base64 URL-safe unpadded decoding yields for a text, when the
/// text is valid base64.  The result depends on the text alone.
pub uninterp spec fn b64url_no_pad_decoding(s: Seq<char>) -> Option<Seq<u8>>;

/// Relies on base64's `URL_SAFE_NO_PAD` engine `decode`: decodes
/// URL-safe unpadded base64 text, failing on text that is not valid
/// base64.
#[verifier::external_body]
fn b64url_decode(s: &str) -> (r: Option<Vec<u8>>)
    ensures
        (r is Some) == (b64url_no_pad_decoding(s@) is Some),
        r matches Some(v) ==> Some(v@) == b64url_no_pad_decoding(s@),
{
    base64::Engine::decode(&base64::engine::general_purpose::URL_SAFE_NO_PAD, s).ok()
}

/// Decodes the claims of a JWT: splits off the payload segment between
/// the first two dots, base64-decodes it and reads the e-mail and the
/// provider's claim block out of the JSON.  Any malformed stage yields
/// nothing.  A decoded record carries the original JWT text and folds
/// the nested claim block into the top-level plan and account fields.
pub fn decode_jwt_claims(raw_jwt: &str) -> (r: Option<IdTokenInfo>)
    ensures
        r matches Some(info) ==> {
            &&& info.raw_jwt matches Some(j) && j@ == raw_jwt@
            &&& info.openai_auth is None
        },
{
    let parts = split_char(raw_jwt, '.');
    if parts.len() < 2 {
        return None;
    }
    let payload = &parts[1];
    let decoded = match b64url_decode(payload.as_str()) {
        Some(d) => d,
        None => {
            return None;
        },
    };
    let value = match json_parse(decoded.as_slice()) {
        Some(v) => v,
        None => {
            return None;
        },
    };
    let email: Option<String> = match json_get(&value, "email") {
        Some(e) => match json_as_str(e) {
            Some(s) => Some(s.to_owned()),
            None => None,
        },
        None => None,
    };
    let (chatgpt_plan_type, chatgpt_account_id): (Option<String>, Option<String>) = match json_get(
        &value,
        "https://api.openai.com/auth",
    ) {
        Some(claims) => {
            let plan: Option<String> = match json_get(claims, "chatgpt_plan_type") {
                Some(p) => match json_as_str(p) {
                    Some(s) => Some(s.to_owned()),
                    None => None,
                },
                None => None,
            };
            let account: Option<String> = match json_get(claims, "chatgpt_account_id") {
                Some(a) => match json_as_str(a) {
                    Some(s) => Some(s.to_owned()),
                    None => None,
                },
                None => None,
            };
            (plan, account)
        },
        None => (None, None),
    };
    let mut raw_owned = String::new();
    raw_owned.append(raw_jwt);
    Some(
        IdTokenInfo {
            email,
            chatgpt_plan_type,
            chatgpt_account_id,
            openai_auth: None,
            raw_jwt: Some(raw_owned),
        },
    )
}

/// The claims carried by a credential's identity token: decoded claims
/// are returned as they stand; a raw JWT is decoded on the fly.
pub fn get_id_token_info(auth: &AuthDotJson) -> (r: Option<IdTokenInfo>)
    ensures
        auth.tokens is None ==> r is None,
        auth.tokens matches Some(t) ==> (t.id_token is None ==> r is None),
        auth.tokens matches Some(t) ==> (t.id_token matches Some(IdToken::Info(info)) ==> r
            == Some(info)),
        auth.tokens matches Some(t) ==> (t.id_token matches Some(IdToken::Raw(raw)) ==> (r
            matches Some(info) ==> info.raw_jwt matches Some(j) && j@ == raw@
            && info.openai_auth is None)),
{
    let tokens = match &auth.tokens {
        Some(t) => t,
        None => {
            return None;
        },
    };
    let id_token = match &tokens.id_token {
        Some(t) => t,
        None => {
            return None;
        },
    };
    match id_token {
        IdToken::Info(info) => Some(info.clone()),
        IdToken::Raw(raw) => decode_jwt_claims(raw.as_str()),
    }
}

/// The plan named by a claims record: the top-level claim, else the one
/// in the nested block.
pub open spec fn spec_plan_from_info(info: IdTokenInfo) -> Option<String> {
    if info.chatgpt_plan_type is Some {
        info.chatgpt_plan_type
    } else {
        match info.openai_auth {
            Some(a) => a.chatgpt_plan_type,
            None => None,
        }
    }
}

/// The account named by a claims record: the top-level claim, else the
/// one in the nested block.
pub open spec fn spec_account_from_info(info: IdTokenInfo) -> Option<String> {
    if info.chatgpt_account_id is Some {
        info.chatgpt_account_id
    } else {
        match info.openai_auth {
            Some(a) => a.chatgpt_account_id,
            None => None,
        }
    }
}

/// Reads the plan out of a claims record.
pub fn get_plan_from_info(info: &IdTokenInfo) -> (r: Option<String>)
    ensures
        r == spec_plan_from_info(*info),
{
    match &info.chatgpt_plan_type {
        Some(p) => Some(p.clone()),
        None => match &info.openai_auth {
            Some(a) => clone_opt_string(&a.chatgpt_plan_type),
            None => None,
        },
    }
}

/// Reads the account identifier out of a claims record.
pub fn get_account_from_info(info: &IdTokenInfo) -> (r: Option<String>)
    ensures
        r == spec_account_from_info(*info),
{
    match &info.chatgpt_account_id {
        Some(a) => Some(a.clone()),
        None => match &info.openai_auth {
            Some(a) => clone_opt_string(&a.chatgpt_account_id),
            None => None,
        },
    }
}

/// The upstream account identifier of a credential: the token triple's
/// own identifier when present, else whatever the identity token's
/// claims name.
pub fn get_account_id(auth: &AuthDotJson) -> (r: Option<String>)
    ensures
        auth.tokens matches Some(t) ==> (t.account_id matches Some(a) ==> r == Some(a)),
        auth.tokens is None ==> r is None,
        auth.tokens matches Some(t) ==> (t.account_id is None && t.id_token is None ==> r
            is None),
        auth.tokens matches Some(t) ==> (t.id_token matches Some(IdToken::Info(info)) ==> (
        t.account_id is None ==> r == spec_account_from_info(info))),
{
    if let Some(tokens) = &auth.tokens {
        if let Some(account_id) = &tokens.account_id {
            return Some(account_id.clone());
        }
    }
    match get_id_token_info(auth) {
        Some(info) => get_account_from_info(&info),
        None => None,
    }
}

/// The e-mail of a credential, as the identity token's claims name it.
pub fn get_email(auth: &AuthDotJson) -> (r: Option<String>)
    ensures
        auth.tokens is None ==> r is None,
        auth.tokens matches Some(t) ==> (t.id_token is None ==> r is None),
        auth.tokens matches Some(t) ==> (t.id_token matches Some(IdToken::Info(info)) ==> r
            == info.email),
{
    match get_id_token_info(auth) {
        Some(info) => clone_opt_string(&info.email),
        None => None,
    }
}

/// The plan of a credential, as the identity token's claims name it.
pub fn get_plan_type(auth: &AuthDotJson) -> (r: Option<String>)
    ensures
        auth.tokens is None ==> r is None,
        auth.tokens matches Some(t) ==> (t.id_token is None ==> r is None),
        auth.tokens matches Some(t) ==> (t.id_token matches Some(IdToken::Info(info)) ==> r
            == spec_plan_from_info(info)),
{
    match get_id_token_info(auth) {
        Some(info) => get_plan_from_info(&info),
        None => None,
    }
}

/// A three-line display of a credential's e-mail, account and plan,
/// with `N/A` standing in for anything unknown.
pub fn format_auth_info(auth: &AuthDotJson) -> (r: String)
    ensures
        exists|e: Seq<char>, a: Seq<char>, p: Seq<char>|
            r@ == #[trigger] spec_auth_info_text(e, a, p),
        auth.tokens matches Some(t) ==> (t.id_token matches Some(IdToken::Info(info)) ==> r@
            == spec_auth_info_text(
            match info.email {
                Some(e) => e@,
                None => "N/A"@,
            },
            match t.account_id {
                Some(a) => a@,
                None => match spec_account_from_info(info) {
                    Some(a) => a@,
                    None => "N/A"@,
                },
            },
            match spec_plan_from_info(info) {
                Some(p) => p@,
                None => "N/A"@,
            },
        )),
{
    let email = match get_email(auth) {
        Some(e) => e,
        None => {
            let mut s = String::new();
            s.append("N/A");
            s
        },
    };
    let account_id = match get_account_id(auth) {
        Some(a) => a,
        None => {
            let mut s = String::new();
            s.append("N/A");
            s
        },
    };
    let plan = match get_plan_type(auth) {
        Some(p) => p,
        None => {
            let mut s = String::new();
            s.append("N/A");
            s
        },
    };
    let mut out = String::new();
    out.append("Email: ");
    out.append(email.as_str());
    out.append("\nAccount ID: ");
    out.append(account_id.as_str());
    out.append("\nPlan: ");
    out.append(plan.as_str());
    proof {
        assert(out@ =~= spec_auth_info_text(email@, account_id@, plan@));
    }
    out
}

/// The display shape `Email: ...\nAccount ID: ...\nPlan: ...`.
pub open spec fn spec_auth_info_text(e: Seq<char>, a: Seq<char>, p: Seq<char>) -> Seq<char> {
    "Email: "@ + e + "\nAccount ID: "@ + a + "\nPlan: "@ + p
}

} // verus!
