//! The HTTP API's requests and the decisions its handlers make on them:
//! sign-in identities, token extraction, paging defaults, access rules,
//! upload keys, call prices, proxy headers and checkout details.
use vstd::prelude::*;
use crate::assoc::{assoc_build, assoc_from_pairs, pairs_view};
use crate::text::{
    chars_of, concat, find_from, find_in, has_char, has_prefix, has_suffix, is_space, is_whitespace, owned,
    split_chars, split_on, starts_with, str_eq, string_from, string_of, trim, trim_bounds,
};
use crate::uuid_text::{uuid_text, uuid_to_string};

verus! {

broadcast use vstd::string::group_string_axioms;

// ---------------------------------------------------------------------------
// Sign-in
// ---------------------------------------------------------------------------

/// A request for a one-time password by email.
pub struct SendOtpRequest {
    pub email: String,
}

/// A sign-in: the raw identity, the one-time password and the provider.
pub struct LoginRequest {
    pub raw_id: String,
    pub otp: String,
    pub provider: String,
}

/// A request to bind an email address to the signed-in user.
pub struct BindEmailRequest {
    pub raw_id: String,
    pub otp: String,
}

/// Why a sign-in is refused before its password is checked.
#[derive(Debug, Clone, Copy, PartialEq, Eq, Structural)]
pub enum AuthError {
    /// The provider is neither `email` nor `phone`.
    InvalidProvider,
}

/// The user id of a sign-in: `email_<id>` for email, `phone_86_<id>` for phone.
pub open spec fn login_user_id_spec(provider: Seq<char>, raw_id: Seq<char>) -> Result<Seq<char>, AuthError> {
    if provider == "email"@ {
        Ok("email_"@ + raw_id)
    } else if provider == "phone"@ {
        Ok("phone_86_"@ + raw_id)
    } else {
        Err(AuthError::InvalidProvider)
    }
}

/// The user id a sign-in is for.
pub fn login_user_id(provider: &str, raw_id: &str) -> (r: Result<String, AuthError>)
    ensures
        match r {
            Ok(u) => login_user_id_spec(provider@, raw_id@) == Ok::<Seq<char>, AuthError>(u@),
            Err(e) => login_user_id_spec(provider@, raw_id@) == Err::<Seq<char>, AuthError>(e),
        },
{
    if str_eq(provider, "email") {
        Ok(concat("email_", raw_id))
    } else if str_eq(provider, "phone") {
        Ok(concat("phone_86_", raw_id))
    } else {
        Err(AuthError::InvalidProvider)
    }
}

/// An email address is plausible: it holds `@`, but neither begins nor ends with it.
pub open spec fn email_plausible(s: Seq<char>) -> bool {
    has_char(s, '@') && !has_prefix(s, "@"@) && !has_suffix(s, "@"@)
}

/// The user id an email address is bound under (`email_<address>`, the
/// address trimmed), or `None` when the trimmed address is not plausible.
pub fn bind_email_user_id(raw_id: &str) -> (r: Option<String>)
    ensures
        match r {
            Some(u) => email_plausible(trim(raw_id@)) && u@ == "email_"@ + trim(raw_id@),
            None => !email_plausible(trim(raw_id@)),
        },
{
    let cs = chars_of(raw_id);
    let (a, b) = trim_bounds(cs.as_slice());
    let t = string_from(cs.as_slice(), a, b);
    let tv = chars_of(t.as_str());
    let at = chars_of("@");
    let mut has_at = false;
    let mut i: usize = 0;
    while i < tv.len()
        invariant
            i <= tv@.len(),
            has_at == exists|j: int| 0 <= j < i && tv@[j] == '@',
        decreases tv@.len() - i,
    {
        if tv[i] == '@' {
            has_at = true;
        }
        i = i + 1;
    }
    if !has_at || starts_with(tv.as_slice(), at.as_slice()) || crate::text::ends_with(tv.as_slice(), at.as_slice()) {
        return None;
    }
    Some(concat("email_", t.as_str()))
}

/// The body of the email that carries a one-time password.
pub fn otp_email_body(otp: &str) -> (r: String)
    ensures
        r@ == "Your OTP is: "@ + otp@ + ". It will expire in 5 minutes."@,
{
    let a = concat("Your OTP is: ", otp);
    concat(a.as_str(), ". It will expire in 5 minutes.")
}

/// Whether a session is served: banned users are refused; otherwise the
/// answer is whether the user is registered and whether they are an admin.
pub fn session_status(user: Option<(bool, bool)>) -> (r: Option<(bool, bool)>)
    ensures
        match user {
            None => r == Some((false, false)),
            Some((banned, is_admin)) => if banned { r is None } else { r == Some((true, is_admin)) },
        },
{
    match user {
        None => Some((false, false)),
        Some((banned, is_admin)) => if banned { None } else { Some((true, is_admin)) },
    }
}

// ---------------------------------------------------------------------------
// Bearer tokens and cookies
// ---------------------------------------------------------------------------

/// The whitespace-separated words of `s` (`str::split_whitespace`).
pub open spec fn words(s: Seq<char>) -> Seq<Seq<char>>
    decreases s.len(),
{
    if s.len() == 0 {
        Seq::empty()
    } else {
        let w = words(s.drop_last());
        let c = s.last();
        if is_space(c) {
            w
        } else if s.len() >= 2 && !is_space(s[s.len() - 2]) {
            w.update(w.len() - 1, w.last().push(c))
        } else {
            w.push(seq![c])
        }
    }
}

/// The token of an `Authorization` value of exactly two words, the first `Bearer`.
pub open spec fn bearer_token(h: Seq<char>) -> Option<Seq<char>> {
    let ws = words(h);
    if ws.len() == 2 && ws[0] == "Bearer"@ {
        Some(ws[1])
    } else {
        None
    }
}

/// The first cookie at or after `i` that, trimmed, starts with `metastable.auth_token=`.
pub open spec fn auth_cookie_from(cookies: Seq<Seq<char>>, i: int) -> Option<Seq<char>>
    decreases cookies.len() - i,
{
    if i < 0 || i >= cookies.len() {
        None
    } else if has_prefix(trim(cookies[i]), "metastable.auth_token="@) {
        Some(trim(cookies[i]))
    } else {
        auth_cookie_from(cookies, i + 1)
    }
}

/// The token of a `Cookie` value: the second `=`-separated piece of the
/// first `;`-separated cookie that, trimmed, starts with `metastable.auth_token=`.
pub open spec fn cookie_token(c: Seq<char>) -> Option<Seq<char>> {
    match auth_cookie_from(split_on(c, ';'), 0) {
        Some(t) => if split_on(t, '=').len() >= 2 { Some(split_on(t, '=')[1]) } else { None },
        None => None,
    }
}

/// The request's token: from a bearer `Authorization` value, else from the cookie.
pub open spec fn auth_token_spec(authorization: Option<Seq<char>>, cookie: Option<Seq<char>>) -> Option<Seq<char>> {
    let from_header = match authorization {
        Some(h) => bearer_token(h),
        None => None,
    };
    match from_header {
        Some(t) => Some(t),
        None => match cookie {
            Some(c) => cookie_token(c),
            None => None,
        },
    }
}

/// The words of `s`.
fn words_of(s: &[char]) -> (r: Vec<Vec<char>>)
    ensures
        r@.len() == words(s@).len(),
        forall|i: int| 0 <= i < r@.len() ==> #[trigger] r@[i]@ == words(s@)[i],
{
    let mut out: Vec<Vec<char>> = Vec::new();
    let mut i: usize = 0;
    while i < s.len()
        invariant
            i <= s@.len(),
            out@.len() == words(s@.take(i as int)).len(),
            forall|k: int| 0 <= k < out@.len() ==> #[trigger] out@[k]@ == words(s@.take(i as int))[k],
        decreases s@.len() - i,
    {
        let ghost t = s@.take(i + 1);
        assert(t.drop_last() =~= s@.take(i as int));
        assert(t.last() == s@[i as int]);
        let c = s[i];
        if is_whitespace(c) {
        } else if i >= 1 && !is_whitespace(s[i - 1]) {
            assert(t[t.len() - 2] == s@[i - 1]);
            proof {
                let u = s@.take(i as int);
                assert(u.last() == s@[i - 1]);
                lemma_words_nonempty(u);
            }
            let last = out.len() - 1;
            let mut w = out[last].clone();
            w.push(c);
            out.set(last, w);
            assert forall|k: int| 0 <= k < out@.len() implies #[trigger] out@[k]@ == words(t)[k] by {
                if k == last {
                    assert(out@[k]@ =~= words(s@.take(i as int))[k].push(c));
                }
            }
        } else {
            if i >= 1 {
                assert(t[t.len() - 2] == s@[i - 1]);
            }
            let mut w: Vec<char> = Vec::new();
            w.push(c);
            out.push(w);
            assert(out@[out@.len() - 1]@ =~= seq![c]);
        }
        i = i + 1;
    }
    assert(s@.take(s@.len() as int) =~= s@);
    out
}

proof fn lemma_words_nonempty(t: Seq<char>)
    requires
        t.len() > 0,
        !is_space(t.last()),
    ensures
        words(t).len() >= 1,
    decreases t.len(),
{
    if t.len() >= 2 && !is_space(t[t.len() - 2]) {
        assert(t.drop_last().last() == t[t.len() - 2]);
        lemma_words_nonempty(t.drop_last());
    }
}

/// The token of an `Authorization` value.
fn bearer_token_of(h: &str) -> (r: Option<String>)
    ensures
        match r {
            Some(t) => bearer_token(h@) == Some(t@),
            None => bearer_token(h@) is None,
        },
{
    let hv = chars_of(h);
    let ws = words_of(hv.as_slice());
    if ws.len() == 2 {
        let first = string_of(ws[0].as_slice());
        if str_eq(first.as_str(), "Bearer") {
            return Some(string_of(ws[1].as_slice()));
        }
    }
    None
}

/// The token of a `Cookie` value.
fn cookie_token_of(c: &str) -> (r: Option<String>)
    ensures
        match r {
            Some(t) => cookie_token(c@) == Some(t@),
            None => cookie_token(c@) is None,
        },
{
    let cv = chars_of(c);
    let cookies = split_chars(cv.as_slice(), ';');
    let ghost parts = split_on(c@, ';');
    let prefix = chars_of("metastable.auth_token=");
    let mut i: usize = 0;
    while i < cookies.len()
        invariant
            i <= cookies@.len(),
            parts == split_on(c@, ';'),
            cookies@.len() == parts.len(),
            forall|k: int| 0 <= k < cookies@.len() ==> #[trigger] cookies@[k]@ == parts[k],
            prefix@ == "metastable.auth_token="@,
            auth_cookie_from(parts, 0) == auth_cookie_from(parts, i as int),
        decreases cookies@.len() - i,
    {
        let (a, b) = trim_bounds(cookies[i].as_slice());
        let t = string_from(cookies[i].as_slice(), a, b);
        let tv = chars_of(t.as_str());
        assert(t@ == trim(parts[i as int]));
        if starts_with(tv.as_slice(), prefix.as_slice()) {
            assert(auth_cookie_from(parts, i as int) == Some(trim(parts[i as int])));
            let pieces = split_chars(tv.as_slice(), '=');
            assert(tv@ == trim(parts[i as int]));
            if pieces.len() >= 2 {
                let tok = string_of(pieces[1].as_slice());
                assert(tok@ == split_on(tv@, '=')[1]);
                assert(cookie_token(c@) == Some(tok@));
                return Some(tok);
            }
            assert(cookie_token(c@) is None);
            return None;
        }
        i = i + 1;
    }
    None
}

/// The token a request carries: the second word of an `Authorization: Bearer
/// <token>` value, else the value of the `metastable.auth_token` cookie.
pub fn extract_auth_token(authorization: Option<&str>, cookie: Option<&str>) -> (r: Option<String>)
    ensures
        match r {
            Some(t) => auth_token_spec(
                match authorization { Some(h) => Some(h@), None => None },
                match cookie { Some(c) => Some(c@), None => None },
            ) == Some(t@),
            None => auth_token_spec(
                match authorization { Some(h) => Some(h@), None => None },
                match cookie { Some(c) => Some(c@), None => None },
            ) is None,
        },
{
    let from_header = match authorization {
        Some(h) => bearer_token_of(h),
        None => None,
    };
    match from_header {
        Some(t) => Some(t),
        None => match cookie {
            Some(c) => cookie_token_of(c),
            None => None,
        },
    }
}

// ---------------------------------------------------------------------------
// Listing
// ---------------------------------------------------------------------------

/// Paging of the character list.
pub struct ListCharactersQuery {
    pub limit: Option<u64>,
    pub offset: Option<u64>,
}

/// Paging and filters of the character list.
pub struct ListCharactersWithFiltersQuery {
    pub has_image: Option<bool>,
    pub has_roleplay_enabled: Option<bool>,
    pub limit: Option<u64>,
    pub offset: Option<u64>,
}

/// Paging of a character's public conversations.
pub struct ListConversationHistoryQuery {
    pub limit: Option<u64>,
    pub offset: Option<u64>,
}

/// How many of the latest conversations to fetch.
pub struct GetConversationsRequest {
    pub limit: Option<u64>,
}

/// The value, or the default when absent.
pub open spec fn or_default(v: Option<u64>, d: u64) -> u64 {
    match v {
        Some(x) => x,
        None => d,
    }
}

/// The value, or the default when absent.
fn value_or(v: Option<u64>, d: u64) -> (r: u64)
    ensures
        r == or_default(v, d),
{
    match v {
        Some(x) => x,
        None => d,
    }
}

impl ListCharactersQuery {
    /// The page: limit 10 and offset 0 unless given.
    pub fn page(&self) -> (r: (u64, u64))
        ensures
            r == (or_default(self.limit, 10), or_default(self.offset, 0)),
    {
        (value_or(self.limit, 10), value_or(self.offset, 0))
    }
}

impl ListCharactersWithFiltersQuery {
    /// The page: limit 10 and offset 0 unless given.
    pub fn page(&self) -> (r: (u64, u64))
        ensures
            r == (or_default(self.limit, 10), or_default(self.offset, 0)),
    {
        (value_or(self.limit, 10), value_or(self.offset, 0))
    }
}

impl ListConversationHistoryQuery {
    /// The page: limit 10 and offset 0 unless given.
    pub fn page(&self) -> (r: (u64, u64))
        ensures
            r == (or_default(self.limit, 10), or_default(self.offset, 0)),
    {
        (value_or(self.limit, 10), value_or(self.offset, 0))
    }
}

impl GetConversationsRequest {
    /// How many conversations: 1 unless given.
    pub fn limit_or_default(&self) -> (r: u64)
        ensures
            r == or_default(self.limit, 1),
    {
        value_or(self.limit, 1)
    }
}

// ---------------------------------------------------------------------------
// Access rules
// ---------------------------------------------------------------------------

/// A change of a character's roleplay status.
pub struct SetCharacterStatusPayload {
    pub roleplay_status: Option<bool>,
}

impl SetCharacterStatusPayload {
    /// The new status: the requested one, else the current one.
    pub fn status_after(&self, current: bool) -> (r: bool)
        ensures
            r == match self.roleplay_status { Some(s) => s, None => current },
    {
        match self.roleplay_status {
            Some(s) => s,
            None => current,
        }
    }
}

/// Admins and a character's creator may change the character.
pub fn may_update_character(is_admin: bool, is_creator: bool) -> (r: bool)
    ensures
        r == (is_admin || is_creator),
{
    is_admin || is_creator
}

/// A conversation is readable when public or when the reader owns it.
pub fn may_read_conversation(is_public: bool, is_owner: bool) -> (r: bool)
    ensures
        r == (is_public || is_owner),
{
    is_public || is_owner
}

/// A post names one to three characters.
pub fn post_character_count_ok(n: usize) -> (r: bool)
    ensures
        r == (1 <= n <= 3),
{
    !(n < 1 || n > 3)
}

/// The post's three character slots, filled in order from `ids`.
pub fn post_character_slots(ids: &Vec<u128>) -> (r: (Option<u128>, Option<u128>, Option<u128>))
    ensures
        r.0 == (if ids@.len() > 0 { Some(ids@[0]) } else { None::<u128> }),
        r.1 == (if ids@.len() > 1 { Some(ids@[1]) } else { None::<u128> }),
        r.2 == (if ids@.len() > 2 { Some(ids@[2]) } else { None::<u128> }),
{
    let a = if ids.len() > 0 { Some(ids[0]) } else { None };
    let b = if ids.len() > 1 { Some(ids[1]) } else { None };
    let c = if ids.len() > 2 { Some(ids[2]) } else { None };
    (a, b, c)
}

// ---------------------------------------------------------------------------
// Users
// ---------------------------------------------------------------------------

/// A registration with a referral code.
pub struct RegisterRequest {
    pub user_id: String,
    pub referral_code: String,
    pub provider: String,
}

/// A purchase of referral codes.
pub struct BuyReferralRequest {
    pub count: Option<i64>,
}

impl BuyReferralRequest {
    /// How many codes: 1 unless given.
    pub fn count_or_default(&self) -> (r: i64)
        ensures
            r == match self.count { Some(c) => c, None => 1i64 },
    {
        match self.count {
            Some(c) => c,
            None => 1,
        }
    }
}

/// A link to create.
pub struct CreateUrlRequest {
    pub url_type: String,
    pub path: String,
}

/// A comment on a post.
pub struct CreatePostCommentRequest {
    pub content: String,
}

// ---------------------------------------------------------------------------
// Uploads
// ---------------------------------------------------------------------------

/// A request for a signed upload URL.
pub struct UploadRequest {
    pub filename: String,
    pub content_type: String,
}

/// A signed upload URL, the object's key and its public URL.
pub struct UploadResponse {
    pub signed_url: String,
    pub key: String,
    pub image_url: String,
}

/// Why an upload request is refused.
#[derive(Debug, Clone, Copy, PartialEq, Eq, Structural)]
pub enum UploadRequestError {
    /// The file name or the content type is empty.
    MissingField,
    /// The file name has no extension.
    NoExtension,
}

/// The last position of `c` in `s` before `n`.
pub open spec fn last_index_before(s: Seq<char>, c: char, n: int) -> Option<int>
    decreases n,
{
    if n <= 0 {
        None
    } else if s[n - 1] == c {
        Some(n - 1)
    } else {
        last_index_before(s, c, n - 1)
    }
}

/// `s` without its trailing separators and trailing `.` components.
pub open spec fn strip_trailing_separators(s: Seq<char>) -> Seq<char>
    decreases s.len(),
{
    if s.len() > 0 && s.last() == '/' {
        strip_trailing_separators(s.drop_last())
    } else if s.len() >= 2 && s.last() == '.' && s[s.len() - 2] == '/' {
        strip_trailing_separators(s.drop_last())
    } else {
        s
    }
}

/// The final component of a path (`Path::file_name`): separators repeat
/// freely and `.` components after the first are ignored; a path ending in
/// the root, `.` or `..` has none.
pub open spec fn path_file_name(s: Seq<char>) -> Option<Seq<char>> {
    let t = strip_trailing_separators(s);
    let comp = match last_index_before(t, '/', t.len() as int) {
        Some(k) => t.skip(k + 1),
        None => t,
    };
    if comp.len() == 0 || comp == seq!['.'] || comp == seq!['.', '.'] {
        None
    } else {
        Some(comp)
    }
}

/// The extension of a path (`Path::extension`): the part of its file name
/// after the final `.`, none without a file name, without a `.`, or when
/// the only `.` begins the name.
pub open spec fn path_extension(filename: Seq<char>) -> Option<Seq<char>> {
    match path_file_name(filename) {
        None => None,
        Some(n) => match last_index_before(n, '.', n.len() as int) {
            None => None,
            Some(k) => if k == 0 { None } else { Some(n.skip(k + 1)) },
        },
    }
}

/// `Path::new(filename).extension()`, as text (always text for a `&str`).
#[verifier::external_body]
fn file_extension(filename: &str) -> (r: Option<String>)
    ensures
        match r {
            Some(e) => path_extension(filename@) == Some(e@),
            None => path_extension(filename@) is None,
        },
{
    std::path::Path::new(filename).extension().and_then(|e| e.to_str()).map(|e| e.to_string())
}

/// The extension an upload is keyed with: refused when a field is empty or
/// the extension is absent or empty.
pub open spec fn upload_extension_spec(filename: Seq<char>, content_type: Seq<char>) -> Result<Seq<char>, UploadRequestError> {
    if filename.len() == 0 || content_type.len() == 0 {
        Err(UploadRequestError::MissingField)
    } else {
        match path_extension(filename) {
            Some(e) => if e.len() == 0 { Err(UploadRequestError::NoExtension) } else { Ok(e) },
            None => Err(UploadRequestError::NoExtension),
        }
    }
}

/// The extension of the file an upload request names.
pub fn upload_extension(req: &UploadRequest) -> (r: Result<String, UploadRequestError>)
    ensures
        match r {
            Ok(e) => upload_extension_spec(req.filename@, req.content_type@) == Ok::<Seq<char>, UploadRequestError>(e@),
            Err(x) => upload_extension_spec(req.filename@, req.content_type@) == Err::<Seq<char>, UploadRequestError>(x),
        },
{
    if req.filename.as_str().is_empty() || req.content_type.as_str().is_empty() {
        return Err(UploadRequestError::MissingField);
    }
    match file_extension(req.filename.as_str()) {
        Some(e) => if e.as_str().is_empty() { Err(UploadRequestError::NoExtension) } else { Ok(e) },
        None => Err(UploadRequestError::NoExtension),
    }
}

/// The key of an upload: `<id>.<extension>`.
pub fn upload_key(id: u128, extension: &str) -> (r: String)
    ensures
        r@ == uuid_text(id) + "."@ + extension@,
{
    let a = concat(uuid_to_string(id).as_str(), ".");
    concat(a.as_str(), extension)
}

// ---------------------------------------------------------------------------
// Runtime calls
// ---------------------------------------------------------------------------

/// The kinds of agent calls.
#[derive(Debug, Clone, Copy, PartialEq, Eq, Structural)]
pub enum RuntimeCallType {
    CharacterCreation,
    RoleplayV1,
    RoleplayV1Regenerate,
}

impl RuntimeCallType {
    /// The points a call costs: 3 to create a character or send a message, 1 to regenerate.
    pub fn price(&self) -> (r: i64)
        ensures
            r == match *self {
                RuntimeCallType::CharacterCreation => 3i64,
                RuntimeCallType::RoleplayV1 => 3i64,
                RuntimeCallType::RoleplayV1Regenerate => 1i64,
            },
    {
        match self {
            RuntimeCallType::CharacterCreation => 3,
            RuntimeCallType::RoleplayV1 => 3,
            RuntimeCallType::RoleplayV1Regenerate => 1,
        }
    }
}

/// What the agent router is asked to do for a call.
#[derive(Debug, Clone, PartialEq, Eq)]
pub enum AgentCall {
    /// Create a character from the session.
    CharacterCreation,
    /// Continue a roleplay session with the user's message.
    Continue { pure_roleplay: bool, message: String },
    /// Regenerate the last reply of a roleplay session.
    Regenerate { pure_roleplay: bool },
}

/// Why a call is refused before it reaches an agent.
#[derive(Debug, Clone, Copy, PartialEq, Eq, Structural)]
pub enum CallError {
    /// A roleplay message was sent without text.
    MessageRequired,
}

/// The agent call for a request: roleplay calls go to the roleplay agent when
/// the character is a pure roleplay character, else to the character-creation
/// roleplay agent; sending a message needs its text.
pub fn plan_agent_call(call_type: RuntimeCallType, message: Option<String>, is_pure_roleplay: bool) -> (r: Result<AgentCall, CallError>)
    ensures
        match call_type {
            RuntimeCallType::CharacterCreation => r == Ok::<AgentCall, CallError>(AgentCall::CharacterCreation),
            RuntimeCallType::RoleplayV1 => match message {
                Some(m) => r == Ok::<AgentCall, CallError>(AgentCall::Continue { pure_roleplay: is_pure_roleplay, message: m }),
                None => r == Err::<AgentCall, CallError>(CallError::MessageRequired),
            },
            RuntimeCallType::RoleplayV1Regenerate => r == Ok::<AgentCall, CallError>(AgentCall::Regenerate { pure_roleplay: is_pure_roleplay }),
        },
{
    match call_type {
        RuntimeCallType::CharacterCreation => Ok(AgentCall::CharacterCreation),
        RuntimeCallType::RoleplayV1 => match message {
            Some(m) => Ok(AgentCall::Continue { pure_roleplay: is_pure_roleplay, message: m }),
            None => Err(CallError::MessageRequired),
        },
        RuntimeCallType::RoleplayV1Regenerate => Ok(AgentCall::Regenerate { pure_roleplay: is_pure_roleplay }),
    }
}

// ---------------------------------------------------------------------------
// Query proxy
// ---------------------------------------------------------------------------

/// The role and user id a query is run as: `anyone` with the nil id for a
/// visitor, else `admin` or `user` with the user's id.
pub open spec fn hasura_identity_spec(user: Option<(u128, bool)>) -> (u128, Seq<char>) {
    match user {
        None => (0, "anyone"@),
        Some((id, is_admin)) => (id, if is_admin { "admin"@ } else { "user"@ }),
    }
}

/// The role and user id a query is run as.
pub fn hasura_identity(user: Option<(u128, bool)>) -> (r: (u128, &'static str))
    ensures
        (r.0, r.1@) == hasura_identity_spec(user),
{
    match user {
        None => (0, "anyone"),
        Some((id, is_admin)) => (id, if is_admin { "admin" } else { "user" }),
    }
}

/// Request headers that are not passed on: the client's credentials and host,
/// and the identity headers the proxy sets itself.
pub open spec fn replaced_request_header(name: Seq<char>) -> bool {
    ||| name == "authorization"@
    ||| name == "host"@
    ||| name == "x-hasura-role"@
    ||| name == "x-hasura-user-id"@
    ||| name == "x-hasura-admin-secret"@
}

/// The headers sent on: the client's (lowercase names) but the replaced ones,
/// then the role, the user id and the admin secret.
pub open spec fn hasura_request_headers_spec(
    headers: Seq<(Seq<char>, Seq<char>)>,
    role: Seq<char>,
    user_id: u128,
    admin_secret: Seq<char>,
) -> Seq<(Seq<char>, Seq<char>)> {
    headers.filter(|h: (Seq<char>, Seq<char>)| !replaced_request_header(h.0)) + seq![
        ("x-hasura-role"@, role),
        ("x-hasura-user-id"@, uuid_text(user_id)),
        ("x-hasura-admin-secret"@, admin_secret),
    ]
}

/// Whether a header name is one that is not passed on.
fn is_replaced_request_header(name: &str) -> (r: bool)
    ensures
        r == replaced_request_header(name@),
{
    str_eq(name, "authorization") || str_eq(name, "host") || str_eq(name, "x-hasura-role") || str_eq(name, "x-hasura-user-id")
        || str_eq(name, "x-hasura-admin-secret")
}

/// The headers of a proxied query.
pub fn hasura_request_headers(headers: &Vec<(String, String)>, role: &str, user_id: u128, admin_secret: &str) -> (r: Vec<(String, String)>)
    ensures
        pairs_view(r@) == hasura_request_headers_spec(pairs_view(headers@), role@, user_id, admin_secret@),
{
    let ghost hv = pairs_view(headers@);
    let mut out: Vec<(String, String)> = Vec::new();
    let mut i: usize = 0;
    while i < headers.len()
        invariant
            i <= headers@.len(),
            hv == pairs_view(headers@),
            pairs_view(out@) == hv.take(i as int).filter(|h: (Seq<char>, Seq<char>)| !replaced_request_header(h.0)),
        decreases headers@.len() - i,
    {
        let ghost before = out@;
        assert(hv.take(i + 1).drop_last() =~= hv.take(i as int));
        if !is_replaced_request_header(headers[i].0.as_str()) {
            out.push((headers[i].0.clone(), headers[i].1.clone()));
            assert(pairs_view(out@) =~= pairs_view(before).push(hv[i as int]));
        }
        proof {
            reveal(Seq::filter);
        }
        i = i + 1;
    }
    assert(hv.take(headers@.len() as int) =~= hv);
    let ghost filtered = pairs_view(out@);
    out.push((owned("x-hasura-role"), owned(role)));
    out.push((owned("x-hasura-user-id"), uuid_to_string(user_id)));
    out.push((owned("x-hasura-admin-secret"), owned(admin_secret)));
    assert(pairs_view(out@) =~= filtered + seq![
        ("x-hasura-role"@, role@),
        ("x-hasura-user-id"@, uuid_text(user_id)),
        ("x-hasura-admin-secret"@, admin_secret@),
    ]);
    out
}

/// Response headers that concern one connection only and are not passed back.
pub open spec fn hop_by_hop(name: Seq<char>) -> bool {
    ||| name == "connection"@
    ||| name == "transfer-encoding"@
    ||| name == "content-length"@
    ||| name == "keep-alive"@
    ||| name == "upgrade"@
    ||| name == "proxy-authenticate"@
    ||| name == "proxy-authorization"@
    ||| name == "te"@
    ||| name == "trailer"@
}

/// Whether a header name is hop-by-hop.
fn is_hop_by_hop(name: &str) -> (r: bool)
    ensures
        r == hop_by_hop(name@),
{
    str_eq(name, "connection") || str_eq(name, "transfer-encoding") || str_eq(name, "content-length") || str_eq(name, "keep-alive")
        || str_eq(name, "upgrade") || str_eq(name, "proxy-authenticate") || str_eq(name, "proxy-authorization") || str_eq(name, "te")
        || str_eq(name, "trailer")
}

/// The headers passed back to the client: the service's headers (lowercase
/// names) but the hop-by-hop ones, each name once with its last value.
pub fn forwarded_response_headers(headers: &Vec<(String, String)>) -> (r: Vec<(String, String)>)
    ensures
        pairs_view(r@) == assoc_build(pairs_view(headers@).filter(|h: (Seq<char>, Seq<char>)| !hop_by_hop(h.0))),
{
    let ghost hv = pairs_view(headers@);
    let mut kept: Vec<(String, String)> = Vec::new();
    let mut i: usize = 0;
    while i < headers.len()
        invariant
            i <= headers@.len(),
            hv == pairs_view(headers@),
            pairs_view(kept@) == hv.take(i as int).filter(|h: (Seq<char>, Seq<char>)| !hop_by_hop(h.0)),
        decreases headers@.len() - i,
    {
        let ghost before = kept@;
        assert(hv.take(i + 1).drop_last() =~= hv.take(i as int));
        if !is_hop_by_hop(headers[i].0.as_str()) {
            kept.push((headers[i].0.clone(), headers[i].1.clone()));
            assert(pairs_view(kept@) =~= pairs_view(before).push(hv[i as int]));
        }
        proof {
            reveal(Seq::filter);
        }
        i = i + 1;
    }
    assert(hv.take(headers@.len() as int) =~= hv);
    assoc_from_pairs(&kept)
}

// ---------------------------------------------------------------------------
// Checkout
// ---------------------------------------------------------------------------

/// The second piece of `s` split on `email_`: what follows the first
/// occurrence, up to the next one.
pub open spec fn checkout_email_spec(s: Seq<char>) -> Option<Seq<char>> {
    match find_from(s, "email_"@, 0) {
        None => None,
        Some(k) => {
            let rest = s.skip(k + "email_"@.len());
            match find_from(rest, "email_"@, 0) {
                Some(m) => Some(rest.take(m)),
                None => Some(rest),
            }
        },
    }
}

/// The email address of a user signed in by email.
pub fn checkout_email(user_id: &str) -> (r: Option<String>)
    ensures
        match r {
            Some(e) => checkout_email_spec(user_id@) == Some(e@),
            None => checkout_email_spec(user_id@) is None,
        },
{
    let s = chars_of(user_id);
    let p = chars_of("email_");
    let n = s.len();
    let pl = p.len();
    match find_in(s.as_slice(), p.as_slice(), 0) {
        None => None,
        Some(k) => {
            proof {
                crate::text::lemma_find_from(s@, p@, 0);
                assert(crate::text::occurs_at(s@, p@, k as int));
                assert(k + p@.len() <= s@.len());
            }
            let rest = string_from(s.as_slice(), k + pl, n);
            let rv = chars_of(rest.as_str());
            match find_in(rv.as_slice(), p.as_slice(), 0) {
                Some(m) => {
                    proof {
                        crate::text::lemma_find_from(rv@, p@, 0);
                    }
                    Some(string_from(rv.as_slice(), 0, m))
                },
                None => Some(rest),
            }
        },
    }
}

/// Where checkout returns to: `<origin>/setting/recharge?status=success`
/// (the origin defaulting to `http://localhost:3000`), for success and
/// cancellation alike.
pub fn checkout_return_urls(origin: Option<&str>) -> (r: (String, String))
    ensures
        r.0@ == match origin { Some(o) => o@, None => "http://localhost:3000"@ } + "/setting/recharge?status=success"@,
        r.1@ == r.0@,
{
    let o = match origin {
        Some(o) => o,
        None => "http://localhost:3000",
    };
    let success = concat(o, "/setting/recharge?status=success");
    let cancel = concat(o, "/setting/recharge?status=success");
    (success, cancel)
}

/// The membership level a price buys: 1, 2 or 3 for the three known prices, else 0.
pub fn vip_level_for(product_id: &str) -> (r: i32)
    ensures
        r == if product_id@ == "price_1S7ciiK4f3Ep0fmJMAC6YvSR"@ {
            1i32
        } else if product_id@ == "price_1S7ckVK4f3Ep0fmJghyxiL0N"@ {
            2i32
        } else if product_id@ == "price_1S7cljK4f3Ep0fmJACVeWBXw"@ {
            3i32
        } else {
            0i32
        },
{
    if str_eq(product_id, "price_1S7ciiK4f3Ep0fmJMAC6YvSR") {
        1
    } else if str_eq(product_id, "price_1S7ckVK4f3Ep0fmJghyxiL0N") {
        2
    } else if str_eq(product_id, "price_1S7cljK4f3Ep0fmJACVeWBXw") {
        3
    } else {
        0
    }
}

// ---------------------------------------------------------------------------
// Payment notifications
// ---------------------------------------------------------------------------

/// Why a completed checkout cannot be attributed.
#[derive(Debug, Clone, Copy, PartialEq, Eq, Structural)]
pub enum WebhookError {
    /// The checkout carries no client reference.
    MissingClientReference,
}

/// The user a completed checkout is for: its client reference read as an id
/// (`None` when the reference is not an id).
pub fn checkout_user(client_reference_id: Option<&str>) -> (r: Result<Option<u128>, WebhookError>)
    ensures
        match client_reference_id {
            None => r == Err::<Option<u128>, WebhookError>(WebhookError::MissingClientReference),
            Some(s) => r == Ok::<Option<u128>, WebhookError>(crate::uuid_text::uuid_read(s@)),
        },
{
    match client_reference_id {
        None => Err(WebhookError::MissingClientReference),
        Some(s) => Ok(crate::uuid_text::uuid_parse(s)),
    }
}

/// A payment belongs to the checkout's user when its user id, as text, is
/// the client reference.
pub fn payment_belongs_to(payment_user_id: u128, client_reference_id: &str) -> (r: bool)
    ensures
        r == (uuid_text(payment_user_id) == client_reference_id@),
{
    str_eq(uuid_to_string(payment_user_id).as_str(), client_reference_id)
}

/// The notification of a processed payment: `Payment proceed at level <n>`.
pub fn payment_notification(vip_level: i32) -> (r: String)
    ensures
        r@ == "Payment proceed at level "@ + crate::text::signed_decimal(vip_level as int),
{
    if vip_level < 0 {
        let a = concat("Payment proceed at level ", "-");
        let magnitude: u64 = (-(vip_level as i64)) as u64;
        let r = concat(a.as_str(), crate::text::decimal_string(magnitude).as_str());
        proof {
            reveal_strlit("-");
            assert("-"@ =~= seq!['-']);
        }
        r
    } else {
        concat("Payment proceed at level ", crate::text::decimal_string(vip_level as u64).as_str())
    }
}

// ---------------------------------------------------------------------------
// Accounts, referrals, follows and card pools
// ---------------------------------------------------------------------------

/// An account is looked up only for a named user: not for an empty id or `anonymous`.
pub fn needs_account_lookup(user_id: &str) -> (r: bool)
    ensures
        r == !(user_id@.len() == 0 || user_id@ == "anonymous"@),
{
    !(user_id.is_empty() || str_eq(user_id, "anonymous"))
}

/// Why a registration is refused.
#[derive(Debug, Clone, Copy, PartialEq, Eq, Structural)]
pub enum RegisterError {
    /// The user id is taken.
    UserExists,
    /// The referral code does not exist.
    ReferralNotFound,
    /// The referral code was used.
    ReferralUsed,
}

/// Whether a registration may go ahead: the user must be new, and the
/// referral code must exist (`Some(used)`) and be unused; checked in that order.
pub fn check_registration(user_exists: bool, referral_used: Option<bool>) -> (r: Result<(), RegisterError>)
    ensures
        r == if user_exists {
            Err::<(), RegisterError>(RegisterError::UserExists)
        } else {
            match referral_used {
                None => Err(RegisterError::ReferralNotFound),
                Some(true) => Err(RegisterError::ReferralUsed),
                Some(false) => Ok(()),
            }
        },
{
    if user_exists {
        return Err(RegisterError::UserExists);
    }
    match referral_used {
        None => Err(RegisterError::ReferralNotFound),
        Some(true) => Err(RegisterError::ReferralUsed),
        Some(false) => Ok(()),
    }
}

/// A user may follow another user they do not follow yet.
pub fn may_follow(already_following: bool) -> (r: bool)
    ensures
        r == !already_following,
{
    !already_following
}

/// A card pool can be drawn from until its end time has passed.
pub fn card_pool_open(now: i64, end_time: i64) -> (r: bool)
    ensures
        r == (now <= end_time),
{
    !(now > end_time)
}

// ---------------------------------------------------------------------------
// Email delivery of one-time passwords
// ---------------------------------------------------------------------------

/// The form fields of the email carrying a one-time password.
pub fn otp_email_form(email: &str, otp: &str) -> (r: Vec<(String, String)>)
    ensures
        pairs_view(r@) == seq![
            ("from"@, "Metastable <dudu@metastable.art>"@),
            ("to"@, email@),
            ("subject"@, "Metastable OTP"@),
            ("plain"@, "Your OTP is: "@ + otp@ + ". It will expire in 5 minutes."@),
        ],
{
    let mut form: Vec<(String, String)> = Vec::new();
    form.push((owned("from"), owned("Metastable <dudu@metastable.art>")));
    form.push((owned("to"), owned(email)));
    form.push((owned("subject"), owned("Metastable OTP")));
    form.push((owned("plain"), otp_email_body(otp)));
    assert(pairs_view(form@) =~= seq![
        ("from"@, "Metastable <dudu@metastable.art>"@),
        ("to"@, email@),
        ("subject"@, "Metastable OTP"@),
        ("plain"@, "Your OTP is: "@ + otp@ + ". It will expire in 5 minutes."@),
    ]);
    form
}

/// The outcome of sending the email: delivered only when the status is a
/// success and the service reports `success: true`; the service's message,
/// or `Unknown error`, either way.
pub fn mail_outcome(status_ok: bool, success: Option<bool>, message: Option<&str>) -> (r: Result<String, String>)
    ensures
        ({
            let m = match message { Some(x) => x@, None => "Unknown error"@ };
            let delivered = status_ok && match success { Some(b) => b, None => false };
            match r {
                Ok(x) => delivered && x@ == m,
                Err(x) => !delivered && x@ == m,
            }
        }),
{
    let m = match message {
        Some(x) => owned(x),
        None => owned("Unknown error"),
    };
    let ok = match success {
        Some(b) => b,
        None => false,
    };
    if !status_ok || !ok {
        Err(m)
    } else {
        Ok(m)
    }
}

// ---------------------------------------------------------------------------
// Editing a character
// ---------------------------------------------------------------------------

/// A feature of a character, as editing sees it: its avatar image, its
/// background image, or another feature, kept as it is.
pub enum CharacterFeature<F> {
    AvatarImage(String),
    BackgroundImage(String),
    Other(F),
}

/// The review status of a character, as editing sees it.
#[derive(Debug, Clone, Copy, PartialEq, Eq)]
pub enum CharacterStatus<S> {
    Draft,
    Reviewing,
    Other(S),
}

/// `f` is an avatar image (`avatar`) or a background image (otherwise).
pub open spec fn is_image_of<F>(f: CharacterFeature<F>, avatar: bool) -> bool {
    if avatar { f is AvatarImage } else { f is BackgroundImage }
}

/// The image feature of the kind `avatar` selects, showing `url`.
pub open spec fn image_feature<F>(avatar: bool, url: String) -> CharacterFeature<F> {
    if avatar { CharacterFeature::AvatarImage(url) } else { CharacterFeature::BackgroundImage(url) }
}

/// The first feature at or after `i` that is an image of the kind `avatar` selects.
pub open spec fn first_image<F>(fs: Seq<CharacterFeature<F>>, avatar: bool, i: int) -> Option<int>
    decreases fs.len() - i,
{
    if i < 0 || i >= fs.len() {
        None
    } else if is_image_of(fs[i], avatar) {
        Some(i)
    } else {
        first_image(fs, avatar, i + 1)
    }
}

/// Sets a character's avatar image (`avatar`) or background image to `url`:
/// the first such feature shows the new image; without one, the image is
/// added after the other features.
pub fn set_image_feature<F>(features: &mut Vec<CharacterFeature<F>>, avatar: bool, url: String)
    ensures
        match first_image(old(features)@, avatar, 0) {
            Some(i) => final(features)@ == old(features)@.update(i, image_feature::<F>(avatar, url)),
            None => final(features)@ == old(features)@.push(image_feature::<F>(avatar, url)),
        },
{
    let mut i: usize = 0;
    while i < features.len()
        invariant
            i <= features@.len(),
            features@ == old(features)@,
            first_image(features@, avatar, 0) == first_image(features@, avatar, i as int),
        decreases features@.len() - i,
    {
        let hit = match &features[i] {
            CharacterFeature::AvatarImage(_) => avatar,
            CharacterFeature::BackgroundImage(_) => !avatar,
            CharacterFeature::Other(_) => false,
        };
        if hit {
            let f = if avatar { CharacterFeature::AvatarImage(url) } else { CharacterFeature::BackgroundImage(url) };
            features.set(i, f);
            return;
        }
        i = i + 1;
    }
    let f = if avatar { CharacterFeature::AvatarImage(url) } else { CharacterFeature::BackgroundImage(url) };
    features.push(f);
}

/// The images an edit asks for set on a character's features: the avatar
/// first, then the background, each only when given.
pub fn apply_image_edits<F>(features: &mut Vec<CharacterFeature<F>>, avatar_url: Option<String>, background_url: Option<String>)
    ensures
        ({
            let after_avatar = match avatar_url {
                Some(u) => match first_image(old(features)@, true, 0) {
                    Some(i) => old(features)@.update(i, image_feature::<F>(true, u)),
                    None => old(features)@.push(image_feature::<F>(true, u)),
                },
                None => old(features)@,
            };
            final(features)@ == match background_url {
                Some(u) => match first_image(after_avatar, false, 0) {
                    Some(i) => after_avatar.update(i, image_feature::<F>(false, u)),
                    None => after_avatar.push(image_feature::<F>(false, u)),
                },
                None => after_avatar,
            }
        }),
{
    match avatar_url {
        Some(u) => set_image_feature(features, true, u),
        None => {},
    }
    match background_url {
        Some(u) => set_image_feature(features, false, u),
        None => {},
    }
}

/// The status of a character after an edit: a draft stays a draft; any
/// other character goes back to review.
pub fn status_after_edit<S>(status: CharacterStatus<S>) -> (r: CharacterStatus<S>)
    ensures
        r == (if status is Draft { CharacterStatus::<S>::Draft } else { CharacterStatus::<S>::Reviewing }),
{
    match status {
        CharacterStatus::Draft => CharacterStatus::Draft,
        _ => CharacterStatus::Reviewing,
    }
}

/// Only a character's creator may edit it.
pub fn may_edit_character(creator: u128, user: u128) -> (r: bool)
    ensures
        r == (creator == user),
{
    creator == user
}

} // verus!
