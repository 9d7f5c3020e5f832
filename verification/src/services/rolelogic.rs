//! The RoleLogic API: addresses, what its replies mean, and how large user sets
//! are uploaded.

use vstd::prelude::*;

use crate::error::{AppError, Failure};
use crate::json::{Json, Value};
use crate::numerals::parse_u64;
use crate::outside::json_u64_at;
use crate::text::{cat2, cat4, cat5, chars_of, contains, owned, split, string_of};

verus! {

/// Hard cap for a single `PUT /users` request (server-side limit).
pub const PUT_MAX_USERS: usize = 100_000;

/// Per-chunk cap for the chunked upload flow (server-side limit).
pub const CHUNK_SIZE: usize = 100_000;

/// Per-request timeout for a single chunk POST, in seconds. Chunks are short
/// transactions but the payload can be ~2 MB of JSON, so allow headroom.
pub const CHUNK_TIMEOUT_SECS: u64 = 120;

/// Per-request timeout for the commit POST, in seconds. The server may take up
/// to 30 minutes to perform the atomic swap on very large staging sets.
pub const COMMIT_TIMEOUT_SECS: u64 = 1_800;

/// Body substring RoleLogic returns when our token isn't found server-side.
/// Because tokens are deleted with their role link, getting this reliably
/// signals the role link has been deleted upstream: not a token rotation (the
/// API has no rotate endpoint) and not "disabled" (that returns a different
/// message).
pub const RL_LINK_GONE_ERROR_MSG: &'static str = "Invalid or revoked token";

/// Body substring RoleLogic returns when the role link exists but its owner has
/// toggled it off. Unlike `RL_LINK_GONE_ERROR_MSG` this is NOT a deletion: the
/// link (and its config) must be left intact; it is simply not synced this
/// cycle, instead of erroring and retrying to the dead-letter queue.
pub const RL_LINK_DISABLED_ERROR_MSG: &'static str = "This role link is disabled";

// ---------------------------------------------------------------------------
// The user limit
// ---------------------------------------------------------------------------

/// The digits that `s` begins with.
pub open spec fn leading_digits(s: Seq<char>) -> Seq<char>
    decreases s.len(),
{
    if s.len() > 0 && crate::numerals::is_digit(s[0]) {
        seq![s[0]] + leading_digits(s.skip(1))
    } else {
        Seq::empty()
    }
}

/// The number in a text such as "Maximum 50 users per role link".
pub open spec fn limit_in_words(body: Seq<char>) -> Option<usize> {
    let parts = crate::text::split_parts(body, "Maximum "@);
    if parts.len() < 2 || !crate::text::has_text(parts[1], "users per role link"@) {
        None
    } else {
        match crate::numerals::nat_of_text(leading_digits(parts[1])) {
            Some(n) if n <= usize::MAX => Some(n as usize),
            _ => None,
        }
    }
}

/// The per-tier user cap in the body of a limit rejection.
pub open spec fn user_limit_in(body: Seq<char>) -> Option<usize> {
    match crate::outside::json_number_at(body, "data"@, "user_limit"@) {
        Some(n) => Some(n as usize),
        None => limit_in_words(body),
    }
}

fn take_digits(s: &str) -> (r: String)
    ensures
        r@ == leading_digits(s@),
{
    let v = chars_of(s);
    let mut i: usize = 0;
    assert(s@.skip(0) =~= s@);
    assert(leading_digits(s@) =~= s@.take(0) + leading_digits(s@.skip(0)));
    while i < v.len() && v[i] >= '0' && v[i] <= '9'
        invariant
            v@ == s@,
            i <= v.len(),
            leading_digits(s@) == s@.take(i as int) + leading_digits(s@.skip(i as int)),
        decreases v.len() - i,
    {
        proof {
            let rest = s@.skip(i as int);
            assert(rest[0] == s@[i as int]);
            assert(rest.skip(1) =~= s@.skip(i + 1));
            assert(s@.take(i as int) + (seq![rest[0]] + leading_digits(rest.skip(1))) =~= s@.take(
                i + 1,
            ) + leading_digits(s@.skip(i + 1)));
        }
        i = i + 1;
    }
    proof {
        let rest = s@.skip(i as int);
        if rest.len() > 0 {
            assert(rest[0] == s@[i as int]);
        }
        assert(leading_digits(rest) =~= Seq::empty());
        assert(s@.take(i as int) + Seq::<char>::empty() =~= s@.take(i as int));
    }
    let digits = vstd::slice::slice_subrange(v.as_slice(), 0, i);
    assert(digits@ =~= s@.take(i as int));
    string_of(digits)
}

/// The number of a limit rejection that says it in words: "Maximum <N> users
/// per role link".
pub fn parse_limit_in_words(body: &str) -> (r: Option<usize>)
    ensures
        r == limit_in_words(body@),
{
    proof {
        reveal_strlit("Maximum ");
    }
    let parts = split(body, "Maximum ");
    let ghost spec_parts = crate::text::split_parts(body@, "Maximum "@);
    assert(spec_parts.len() == parts.len());
    if parts.len() < 2 {
        return None;
    }
    assert(spec_parts[1] == parts@[1]@);
    let after = parts[1].as_str();
    if !contains(after, "users per role link") {
        return None;
    }
    let digits = take_digits(after);
    match parse_u64(digits.as_str()) {
        Some(n) => if n <= usize::MAX as u64 {
            Some(n as usize)
        } else {
            None
        },
        None => None,
    }
}

/// Extract the per-tier user cap from a RoleLogic limit-rejection body.
///
/// The server raises "Maximum <N> users per role link …", which reaches us as
/// `{"errors":"Maximum <N> users per role link …", …}`: the number is in the
/// message, there is no structured field. Older builds returned
/// `{"data":{"user_limit":<N>}}`; both are accepted. Returns `None` when the
/// body is some other error (so the caller treats it as a generic failure).
pub fn parse_user_limit(body: &str) -> (r: Option<usize>)
    ensures
        r == user_limit_in(body@),
{
    if let Some(n) = json_u64_at(body, "data", "user_limit") {
        return Some(n as usize);
    }
    parse_limit_in_words(body)
}

// ---------------------------------------------------------------------------
// Addresses
// ---------------------------------------------------------------------------

/// `s` without the slashes it ends with.
pub open spec fn without_trailing_slashes(s: Seq<char>) -> Seq<char>
    decreases s.len(),
{
    if s.len() > 0 && s.last() == '/' {
        without_trailing_slashes(s.drop_last())
    } else {
        s
    }
}

/// The RoleLogic API at an address.
#[derive(Debug, PartialEq)]
pub struct RoleLogicClient {
    pub base_url: String,
}

/// The address of the users of a role link.
pub open spec fn users_address(base: Seq<char>, guild_id: Seq<char>, role_id: Seq<char>) -> Seq<
    char,
> {
    base + "/api/role-link/"@ + guild_id + "/"@ + role_id + "/users"@
}

impl RoleLogicClient {
    /// The API at the address, which may end with slashes.
    pub fn new(base_url: &str) -> (r: RoleLogicClient)
        ensures
            r.base_url@ == without_trailing_slashes(base_url@),
    {
        let v = chars_of(base_url);
        let mut n: usize = v.len();
        assert(base_url@.take(base_url@.len() as int) =~= base_url@);
        while n > 0 && v[n - 1] == '/'
            invariant
                v@ == base_url@,
                n <= v.len(),
                without_trailing_slashes(base_url@) == without_trailing_slashes(
                    base_url@.take(n as int),
                ),
            decreases n,
        {
            assert(base_url@.take(n as int).drop_last() =~= base_url@.take(n - 1));
            assert(base_url@.take(n as int).last() == v@[n - 1]);
            n = n - 1;
        }
        proof {
            if n > 0 {
                assert(base_url@.take(n as int).last() == v@[n - 1]);
            }
        }
        let kept = vstd::slice::slice_subrange(v.as_slice(), 0, n);
        assert(kept@ =~= base_url@.take(n as int));
        RoleLogicClient { base_url: string_of(kept) }
    }

    /// The address of the users of a role link.
    pub fn users_url(&self, guild_id: &str, role_id: &str) -> (r: String)
        ensures
            r@ == users_address(self.base_url@, guild_id@, role_id@),
    {
        let mut s: String = cat5(
            self.base_url.as_str(),
            "/api/role-link/",
            guild_id,
            "/",
            role_id,
        );
        s.append("/users");
        s
    }

    /// The address of one user of a role link.
    pub fn user_url(&self, guild_id: &str, role_id: &str, user_id: &str) -> (r: String)
        ensures
            r@ == users_address(self.base_url@, guild_id@, role_id@) + "/"@ + user_id@,
    {
        let mut s: String = self.users_url(guild_id, role_id);
        s.append("/");
        s.append(user_id);
        s
    }

    /// The address at which an upload is started.
    pub fn start_url(&self, guild_id: &str, role_id: &str) -> (r: String)
        ensures
            r@ == users_address(self.base_url@, guild_id@, role_id@) + "/upload"@,
    {
        let mut s: String = self.users_url(guild_id, role_id);
        s.append("/upload");
        s
    }

    /// The address of an open upload.
    pub fn upload_url(&self, guild_id: &str, role_id: &str, upload_id: &str) -> (r: String)
        ensures
            r@ == users_address(self.base_url@, guild_id@, role_id@) + "/upload/"@ + upload_id@,
    {
        let mut s: String = self.users_url(guild_id, role_id);
        s.append("/upload/");
        s.append(upload_id);
        s
    }

    /// The address that takes the chunks of an open upload.
    pub fn chunk_url(&self, guild_id: &str, role_id: &str, upload_id: &str) -> (r: String)
        ensures
            r@ == users_address(self.base_url@, guild_id@, role_id@) + "/upload/"@ + upload_id@
                + "/chunk"@,
    {
        let mut s: String = self.upload_url(guild_id, role_id, upload_id);
        s.append("/chunk");
        s
    }

    /// The address that commits an open upload.
    pub fn commit_url(&self, guild_id: &str, role_id: &str, upload_id: &str) -> (r: String)
        ensures
            r@ == users_address(self.base_url@, guild_id@, role_id@) + "/upload/"@ + upload_id@
                + "/commit"@,
    {
        let mut s: String = self.upload_url(guild_id, role_id, upload_id);
        s.append("/commit");
        s
    }
}

/// The value of the `Authorization` header for a token.
pub fn authorization(token: &str) -> (r: String)
    ensures
        r@ == "Token "@ + token@,
{
    cat2("Token ", token)
}

/// Addresses that are given with and without trailing slashes are one.
pub proof fn law_trailing_slashes_do_not_matter(base: Seq<char>)
    ensures
        without_trailing_slashes(base.push('/')) == without_trailing_slashes(base),
        without_trailing_slashes(base).len() > 0 ==> without_trailing_slashes(base).last() != '/',
    decreases base.len(),
{
    assert(base.push('/').drop_last() =~= base);
    if base.len() > 0 && base.last() == '/' {
        law_trailing_slashes_do_not_matter(base.drop_last());
    }
}

// ---------------------------------------------------------------------------
// Replies
// ---------------------------------------------------------------------------

/// A call to the API.
#[derive(Clone, Copy, Debug, PartialEq, Eq, Structural)]
pub enum Call {
    AddUser,
    RemoveUser,
    ReplaceUsers,
    StartUpload,
    UploadChunk,
    CommitUpload,
    CancelUpload,
    UserInfo,
}

impl Call {
    /// How a failure of the call is reported.
    pub open spec fn failed(self) -> Seq<char> {
        match self {
            Call::AddUser => "Add user failed: "@,
            Call::RemoveUser => "Remove user failed: "@,
            Call::ReplaceUsers => "Replace users failed: "@,
            Call::StartUpload => "Start upload failed: "@,
            Call::UploadChunk => "Upload chunk failed: "@,
            Call::CommitUpload => "Commit upload failed: "@,
            Call::CancelUpload => "Cancel upload failed: "@,
            Call::UserInfo => "Get user info failed: "@,
        }
    }

    /// Whether the call's failure tells the state of the role link.
    pub open spec fn tells_link_state(self) -> bool {
        ||| self is AddUser
        ||| self is RemoveUser
        ||| self is ReplaceUsers
        ||| self is StartUpload
        ||| self is UserInfo
    }

    /// Whether the call can be refused for too many users.
    pub open spec fn tells_limit(self) -> bool {
        self is AddUser || self is ReplaceUsers
    }
}

/// What a reply other than success to a call means. `status_text` is the
/// status in words.
pub open spec fn call_failure(
    call: Call,
    status: u16,
    status_text: Seq<char>,
    body: Seq<char>,
) -> Failure {
    if call.tells_link_state() && status == 403 && crate::text::has_text(
        body,
        RL_LINK_GONE_ERROR_MSG@,
    ) {
        Failure::RoleLinkNotFound
    } else if call.tells_link_state() && status == 403 && crate::text::has_text(
        body,
        RL_LINK_DISABLED_ERROR_MSG@,
    ) {
        Failure::RoleLinkDisabled
    } else if call.tells_limit() && (status == 400 || status == 403) && user_limit_in(body)
        is Some {
        Failure::UserLimitReached { limit: user_limit_in(body)->0 }
    } else {
        Failure::RoleLogic(call.failed() + status_text + " - "@ + body)
    }
}

/// Whether a status says that a request succeeded.
pub open spec fn is_success(status: u16) -> bool {
    200 <= status < 300
}

/// Whether a status says that a request succeeded.
pub fn succeeded(status: u16) -> (r: bool)
    ensures
        r == is_success(status),
{
    status >= 200 && status < 300
}

/// What a reply other than success to a call means.
pub fn classify_failure(call: Call, status: u16, status_text: &str, body: &str) -> (r: AppError)
    ensures
        r@ == call_failure(call, status, status_text@, body@),
{
    let tells_state: bool = match call {
        Call::AddUser
        | Call::RemoveUser
        | Call::ReplaceUsers
        | Call::StartUpload
        | Call::UserInfo => true,
        _ => false,
    };
    if tells_state && status == 403 {
        if contains(body, RL_LINK_GONE_ERROR_MSG) {
            return AppError::RoleLinkNotFound;
        }
        if contains(body, RL_LINK_DISABLED_ERROR_MSG) {
            return AppError::RoleLinkDisabled;
        }
    }
    let tells_limit: bool = match call {
        Call::AddUser | Call::ReplaceUsers => true,
        _ => false,
    };
    // Over the per-tier cap: the whole request is rejected with the real limit
    // in the message.
    if tells_limit && (status == 400 || status == 403) {
        if let Some(limit) = parse_user_limit(body) {
            return AppError::UserLimitReached { limit };
        }
    }
    let failed = match call {
        Call::AddUser => "Add user failed: ",
        Call::RemoveUser => "Remove user failed: ",
        Call::ReplaceUsers => "Replace users failed: ",
        Call::StartUpload => "Start upload failed: ",
        Call::UploadChunk => "Upload chunk failed: ",
        Call::CommitUpload => "Commit upload failed: ",
        Call::CancelUpload => "Cancel upload failed: ",
        Call::UserInfo => "Get user info failed: ",
    };
    AppError::RoleLogic(cat4(failed, status_text, " - ", body))
}

/// A link that is switched off is not taken for one that is gone.
pub proof fn law_disabled_is_not_gone(call: Call, status_text: Seq<char>, body: Seq<char>)
    requires
        call.tells_link_state(),
        crate::text::has_text(body, RL_LINK_DISABLED_ERROR_MSG@),
        !crate::text::has_text(body, RL_LINK_GONE_ERROR_MSG@),
    ensures
        call_failure(call, 403, status_text, body) is RoleLinkDisabled,
{
}

/// What stands under a key of the `data` of a reply.
pub open spec fn data_field(body: Json, key: Seq<char>) -> Option<Json> {
    match body.field("data"@) {
        Some(data) => data.field(key),
        None => None,
    }
}

/// The flag under a key of the `data` of a reply; off where there is none.
pub open spec fn data_flag(body: Json, key: Seq<char>) -> bool {
    data_field(body, key) == Some(Json::Bool(true))
}

/// The count under a key of the `data` of a reply; 0 where there is none.
pub open spec fn data_count(body: Json, key: Seq<char>) -> usize {
    match data_field(body, key) {
        Some(Json::Number(crate::json::Numeral::PosInt(n))) => n as usize,
        _ => 0,
    }
}

fn get_data<'a>(body: &'a Value, key: &str) -> (r: Option<&'a Value>)
    ensures
        match r {
            Some(v) => data_field(body@, key@) == Some(v@),
            None => data_field(body@, key@) is None,
        },
{
    match body.get("data") {
        Some(data) => data.get(key),
        None => None,
    }
}

fn flag(body: &Value, key: &str) -> (r: bool)
    ensures
        r == data_flag(body@, key@),
{
    match get_data(body, key) {
        Some(Value::Bool(b)) => *b,
        _ => false,
    }
}

fn count(body: &Value, key: &str) -> (r: usize)
    ensures
        r == data_count(body@, key@),
{
    match get_data(body, key) {
        Some(Value::Number(crate::json::Number::PosInt(n))) => *n as usize,
        _ => 0,
    }
}

/// Whether a reply to `AddUser` says that the user was added.
pub fn added(body: &Value) -> (r: bool)
    ensures
        r == data_flag(body@, "added"@),
{
    flag(body, "added")
}

/// Whether a reply to `RemoveUser` says that the user was removed.
pub fn removed(body: &Value) -> (r: bool)
    ensures
        r == data_flag(body@, "removed"@),
{
    flag(body, "removed")
}

/// The user count in a reply to `ReplaceUsers` or `CommitUpload`.
pub fn user_count(body: &Value) -> (r: usize)
    ensures
        r == data_count(body@, "user_count"@),
{
    count(body, "user_count")
}

/// How many users a link may have, in a reply to `UserInfo`. There is no default:
/// with a made-up limit a sync would cut the user set.
pub fn user_limit(body: &Value) -> (r: Result<usize, AppError>)
    ensures
        match r {
            Ok(n) => data_field(body@, "user_limit"@) == Some(
                Json::Number(crate::json::Numeral::PosInt(n as u64)),
            ),
            Err(e) => {
                &&& e@ == Failure::RoleLogic("User info response missing user_limit"@)
                &&& data_field(body@, "user_limit"@) matches Some(
                    Json::Number(crate::json::Numeral::PosInt(n)),
                ) ==> n > usize::MAX
            },
        },
{
    match get_data(body, "user_limit") {
        Some(Value::Number(crate::json::Number::PosInt(n))) => if *n <= usize::MAX as u64 {
            Ok(*n as usize)
        } else {
            Err(AppError::RoleLogic(owned("User info response missing user_limit")))
        },
        _ => Err(AppError::RoleLogic(owned("User info response missing user_limit"))),
    }
}

/// The id of the upload in a reply to `StartUpload`.
pub fn upload_id(body: &Value) -> (r: Result<String, AppError>)
    ensures
        match r {
            Ok(id) => data_field(body@, "upload_id"@) == Some(Json::Text(id@)),
            Err(e) => !(data_field(body@, "upload_id"@) matches Some(Json::Text(id))) && e@
                == Failure::RoleLogic("Start upload response missing upload_id"@),
        },
{
    match get_data(body, "upload_id") {
        Some(Value::String(id)) => Ok(owned(id.as_str())),
        _ => Err(AppError::RoleLogic(owned("Start upload response missing upload_id"))),
    }
}

// ---------------------------------------------------------------------------
// Uploading a user set
// ---------------------------------------------------------------------------

/// The next move of the upload of a user set.
#[derive(Debug, PartialEq)]
pub enum Upload {
    /// Send the whole set in one `PUT`.
    Replace,
    /// Open a session for chunks.
    Start,
    /// Send the users from one place up to another.
    Chunk { upload_id: String, from: usize, to: usize },
    /// Commit the session.
    Commit { upload_id: String },
    /// Cancel the session (best effort), after an error.
    Cancel { upload_id: String, error: AppError },
    /// The upload is over: the user count that the server reported, or why it
    /// failed.
    Done(Result<usize, AppError>),
}

/// What an `Upload` stands for.
#[verifier::ext_equal]
pub enum Transfer {
    Replace,
    Start,
    Chunk { upload_id: Seq<char>, from: nat, to: nat },
    Commit(Seq<char>),
    Cancel(Seq<char>, Failure),
    Done(Result<usize, Failure>),
}

/// The view of a count that may have failed.
pub open spec fn counted(r: Result<usize, AppError>) -> Result<usize, Failure> {
    match r {
        Ok(n) => Ok(n),
        Err(e) => Err(e@),
    }
}

impl View for Upload {
    type V = Transfer;

    open spec fn view(&self) -> Transfer {
        match *self {
            Upload::Replace => Transfer::Replace,
            Upload::Start => Transfer::Start,
            Upload::Chunk { upload_id, from, to } => Transfer::Chunk {
                upload_id: upload_id@,
                from: from as nat,
                to: to as nat,
            },
            Upload::Commit { upload_id } => Transfer::Commit(upload_id@),
            Upload::Cancel { upload_id, error } => Transfer::Cancel(upload_id@, error@),
            Upload::Done(r) => Transfer::Done(counted(r)),
        }
    }
}

/// What came of the last move of an upload.
#[derive(Debug, PartialEq)]
pub enum UploadEvent {
    Replaced(Result<usize, AppError>),
    Started(Result<String, AppError>),
    Sent(Result<(), AppError>),
    Committed(Result<usize, AppError>),
    Cancelled,
}

/// What an `UploadEvent` stands for.
pub enum Report {
    Replaced(Result<usize, Failure>),
    Started(Result<Seq<char>, Failure>),
    Sent(Result<(), Failure>),
    Committed(Result<usize, Failure>),
    Cancelled,
}

impl View for UploadEvent {
    type V = Report;

    open spec fn view(&self) -> Report {
        match *self {
            UploadEvent::Replaced(r) => Report::Replaced(counted(r)),
            UploadEvent::Started(r) => Report::Started(
                match r {
                    Ok(id) => Ok(id@),
                    Err(e) => Err(e@),
                },
            ),
            UploadEvent::Sent(r) => Report::Sent(
                match r {
                    Ok(_) => Ok(()),
                    Err(e) => Err(e@),
                },
            ),
            UploadEvent::Committed(r) => Report::Committed(counted(r)),
            UploadEvent::Cancelled => Report::Cancelled,
        }
    }
}

/// Where the chunk that starts at `from` ends.
pub open spec fn chunk_end(from: nat, total: nat) -> nat {
    if from + CHUNK_SIZE < total {
        from + CHUNK_SIZE as nat
    } else {
        total
    }
}

/// How the upload of `total` users starts: small sets in one request, large ones
/// in chunks.
pub open spec fn first_transfer(total: nat) -> Transfer {
    if total <= PUT_MAX_USERS {
        Transfer::Replace
    } else {
        Transfer::Start
    }
}

/// How the upload of `total` users goes on. A report that does not belong to the
/// last move changes nothing.
pub open spec fn next_transfer(at: Transfer, report: Report, total: nat) -> Transfer {
    match (at, report) {
        (Transfer::Replace, Report::Replaced(r)) => Transfer::Done(r),
        (Transfer::Start, Report::Started(Ok(upload_id))) => Transfer::Chunk {
            upload_id,
            from: 0,
            to: chunk_end(0, total),
        },
        (Transfer::Start, Report::Started(Err(e))) => Transfer::Done(Err(e)),
        (Transfer::Chunk { upload_id, from, to }, Report::Sent(Ok(_))) => if to < total {
            Transfer::Chunk { upload_id, from: to, to: chunk_end(to, total) }
        } else {
            Transfer::Commit(upload_id)
        },
        (Transfer::Chunk { upload_id, from, to }, Report::Sent(Err(e))) => Transfer::Cancel(
            upload_id,
            e,
        ),
        (Transfer::Cancel(upload_id, e), Report::Cancelled) => Transfer::Done(Err(e)),
        (Transfer::Commit(upload_id), Report::Committed(r)) => Transfer::Done(r),
        _ => at,
    }
}

/// How the upload of a user set starts. Picks the right transport for the size:
/// up to 100 000 users a single atomic `PUT`, above that chunks.
pub fn upload_users(total: usize) -> (r: Upload)
    ensures
        r@ == first_transfer(total as nat),
{
    if total <= PUT_MAX_USERS {
        Upload::Replace
    } else {
        Upload::Start
    }
}

fn end_of_chunk(from: usize, total: usize) -> (r: usize)
    requires
        from <= total,
    ensures
        r == chunk_end(from as nat, total as nat),
{
    if total - from > CHUNK_SIZE {
        from + CHUNK_SIZE
    } else {
        total
    }
}

/// How the upload of `total` users goes on.
pub fn upload_next(at: Upload, event: UploadEvent, total: usize) -> (r: Upload)
    ensures
        r@ == next_transfer(at@, event@, total as nat),
{
    match (at, event) {
        (Upload::Replace, UploadEvent::Replaced(r)) => Upload::Done(r),
        (Upload::Start, UploadEvent::Started(r)) => match r {
            Ok(upload_id) => Upload::Chunk { upload_id, from: 0, to: end_of_chunk(0, total) },
            Err(e) => Upload::Done(Err(e)),
        },
        (Upload::Chunk { upload_id, from, to }, UploadEvent::Sent(r)) => match r {
            Ok(_) => if to < total {
                Upload::Chunk { upload_id, from: to, to: end_of_chunk(to, total) }
            } else {
                Upload::Commit { upload_id }
            },
            Err(error) => Upload::Cancel { upload_id, error },
        },
        (Upload::Cancel { upload_id, error }, UploadEvent::Cancelled) => Upload::Done(Err(error)),
        (Upload::Commit { upload_id }, UploadEvent::Committed(r)) => Upload::Done(r),
        (at, _) => at,
    }
}

/// The chunks in which users are sent, from the place `from` on.
pub open spec fn chunks_from<T>(users: Seq<T>, from: nat) -> Seq<Seq<T>>
    decreases users.len() - from,
{
    if from >= users.len() {
        Seq::empty()
    } else {
        seq![users.subrange(from as int, chunk_end(from, users.len()) as int)] + chunks_from(
            users,
            chunk_end(from, users.len()),
        )
    }
}

/// The chunks of a user set, put one after the other, are the user set; none of
/// them is empty or over the server's limit.
pub proof fn law_chunks_make_up_the_set<T>(users: Seq<T>, from: nat)
    requires
        from <= users.len(),
    ensures
        chunks_from(users, from).flatten() == users.skip(from as int),
        forall|i: int|
            0 <= i < chunks_from(users, from).len() ==> 0 < (#[trigger] chunks_from(
                users,
                from,
            )[i]).len() <= CHUNK_SIZE,
    decreases users.len() - from,
{
    let all = chunks_from(users, from);
    if from >= users.len() {
        assert(all.flatten() =~= users.skip(from as int));
    } else {
        let end = chunk_end(from, users.len());
        let first = users.subrange(from as int, end as int);
        let rest = chunks_from(users, end);
        law_chunks_make_up_the_set(users, end);
        assert(all.drop_first() =~= rest);
        assert(all.first() == first);
        assert(all.flatten() == first + rest.flatten());
        assert(first + users.skip(end as int) =~= users.skip(from as int));
        assert forall|i: int| 0 <= i < all.len() implies 0 < (#[trigger] all[i]).len()
            <= CHUNK_SIZE by {
            if i > 0 {
                assert(all[i] == rest[i - 1]);
            }
        }
    }
}

/// The moves of an upload send its chunks in their order: the first from the
/// start, each next one from where the last ended, and the commit comes just
/// when the end is reached. A chunk that fails cancels the session, and its
/// error is what the upload reports.
pub proof fn law_upload_sends_every_chunk(
    upload_id: Seq<char>,
    from: nat,
    to: nat,
    total: nat,
    e: Failure,
)
    requires
        from < to <= total,
    ensures
        total > PUT_MAX_USERS ==> next_transfer(
            first_transfer(total),
            Report::Started(Ok(upload_id)),
            total,
        ) == (Transfer::Chunk { upload_id, from: 0, to: chunk_end(0, total) }),
        to < total ==> next_transfer(
            Transfer::Chunk { upload_id, from, to },
            Report::Sent(Ok(())),
            total,
        ) == (Transfer::Chunk { upload_id, from: to, to: chunk_end(to, total) }),
        to == total ==> next_transfer(
            Transfer::Chunk { upload_id, from, to },
            Report::Sent(Ok(())),
            total,
        ) == Transfer::Commit(upload_id),
        next_transfer(
            next_transfer(
                Transfer::Chunk { upload_id, from, to },
                Report::Sent(Err(e)),
                total,
            ),
            Report::Cancelled,
            total,
        ) == Transfer::Done(Err(e)),
{
}

} // verus!
