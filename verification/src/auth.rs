//! The login headers that were seen last, and how requests without them get them.
use axum::http::HeaderMap;
use vstd::prelude::*;

use crate::forward::lemma_known_names;
use crate::headers::{
    get, has_room, header_values, insert, is_header_value, replaced, values_of, FieldValue, Headers,
    Value,
};
use crate::text::same_bytes;

verus! {

/// The login headers that were seen last.
pub struct AuthHeaderCache {
    authorization: Option<FieldValue>,
    chatgpt_account_id: Option<FieldValue>,
}

/// The login headers that were seen last.
pub struct CachedAuthHeaders {
    pub authorization: Option<Value>,
    pub chatgpt_account_id: Option<Value>,
}

/// Which login headers a request brought along, and which it was given.
#[derive(Debug, Clone, Copy, PartialEq, Eq, Structural)]
pub struct AuthHeaderState {
    pub authorization_present: bool,
    pub authorization_injected: bool,
    pub chatgpt_account_id_present: bool,
    pub chatgpt_account_id_injected: bool,
}

impl AuthHeaderState {
    /// Whether the request goes out with an `Authorization` header.
    pub fn authorization_effective(self) -> (res: bool)
        ensures
            res == (self.authorization_present || self.authorization_injected),
    {
        self.authorization_present || self.authorization_injected
    }

    /// Whether the request goes out with an account header.
    pub fn chatgpt_account_id_effective(self) -> (res: bool)
        ensures
            res == (self.chatgpt_account_id_present || self.chatgpt_account_id_injected),
    {
        self.chatgpt_account_id_present || self.chatgpt_account_id_injected
    }
}

/// The view of an optional value.
pub open spec fn value_view(value: Option<FieldValue>) -> Option<Value> {
    match value {
        Some(value) => Some(value@),
        None => None,
    }
}

/// The first value of a header, unless it is empty.
pub open spec fn non_empty(headers: Headers, name: Seq<char>) -> Option<Value> {
    let values = values_of(headers, name);
    if values.len() > 0 && values[0].bytes.len() > 0 {
        Some(values[0])
    } else {
        None
    }
}

/// The first value of a header, unless it is empty.
pub fn non_empty_header(headers: &HeaderMap, name: &str) -> (res: Option<FieldValue>)
    requires
        crate::headers::is_header_name(name@),
    ensures
        value_view(res) == non_empty(header_values(*headers), name@),
        res matches Some(value) ==> is_header_value(value.bytes@),
{
    match get(headers, name) {
        Some(value) => if value.bytes.len() > 0 {
            Some(value)
        } else {
            None
        },
        None => None,
    }
}

/// Whether `value` is another one than was cached, or the first one.
pub open spec fn is_new(cached: Option<Value>, value: Value) -> bool {
    cached matches Some(old_value) ==> old_value.bytes != value.bytes
}

impl CachedAuthHeaders {
    /// What the cache holds once it has seen the headers of a request.
    pub open spec fn after(self, headers: Headers) -> CachedAuthHeaders {
        let authorization = non_empty(headers, "authorization"@);
        let account = non_empty(headers, "chatgpt-account-id"@);
        CachedAuthHeaders {
            authorization: if authorization is Some {
                authorization
            } else {
                self.authorization
            },
            chatgpt_account_id: if account is Some {
                account
            } else if authorization matches Some(value) && is_new(self.authorization, value) {
                None
            } else {
                self.chatgpt_account_id
            },
        }
    }

    /// The headers of a request with the login headers that it lacks.
    pub open spec fn completed(self, headers: Headers) -> Headers {
        let now = self.after(headers);
        let first = match now.authorization {
            Some(value) if non_empty(headers, "authorization"@) is None => replaced(
                headers,
                "authorization"@,
                value,
            ),
            _ => headers,
        };
        match now.chatgpt_account_id {
            Some(value) if non_empty(headers, "chatgpt-account-id"@) is None => replaced(
                first,
                "chatgpt-account-id"@,
                value,
            ),
            _ => first,
        }
    }

    /// What is reported of the login headers of a request.
    pub open spec fn report(self, headers: Headers) -> AuthHeaderState {
        let now = self.after(headers);
        AuthHeaderState {
            authorization_present: non_empty(headers, "authorization"@) is Some,
            authorization_injected: non_empty(headers, "authorization"@) is None
                && now.authorization is Some,
            chatgpt_account_id_present: non_empty(headers, "chatgpt-account-id"@) is Some,
            chatgpt_account_id_injected: non_empty(headers, "chatgpt-account-id"@) is None
                && now.chatgpt_account_id is Some,
        }
    }
}

impl View for AuthHeaderCache {
    type V = CachedAuthHeaders;

    closed spec fn view(&self) -> CachedAuthHeaders {
        CachedAuthHeaders {
            authorization: value_view(self.authorization),
            chatgpt_account_id: value_view(self.chatgpt_account_id),
        }
    }
}

/// A copy of a value.
fn copy_value(value: &FieldValue) -> (res: FieldValue)
    ensures
        res@ == value@,
{
    let bytes = value.bytes.clone();
    assert(bytes@ =~= value.bytes@);
    FieldValue { bytes, sensitive: value.sensitive }
}

impl AuthHeaderCache {
    /// What is cached can be sent: it came from a request, and it is not empty.
    #[verifier::type_invariant]
    spec fn sendable(self) -> bool {
        &&& self.authorization matches Some(value) ==> is_header_value(value.bytes@)
            && value.bytes@.len() > 0
        &&& self.chatgpt_account_id matches Some(value) ==> is_header_value(value.bytes@)
            && value.bytes@.len() > 0
    }

    /// A cache that has seen nothing.
    pub fn new() -> (res: AuthHeaderCache)
        ensures
            res@ == (CachedAuthHeaders { authorization: None, chatgpt_account_id: None }),
    {
        AuthHeaderCache { authorization: None, chatgpt_account_id: None }
    }

    /// Takes note of the login headers of a request, and adds those that the request lacks.
    pub fn apply(&mut self, headers: &mut HeaderMap) -> (res: AuthHeaderState)
        requires
            has_room(header_values(*old(headers)), 2),
        ensures
            final(self)@ == old(self)@.after(header_values(*old(headers))),
            header_values(*final(headers)) == old(self)@.completed(header_values(*old(headers))),
            res == old(self)@.report(header_values(*old(headers))),
    {
        proof {
            use_type_invariant(&*self);
            lemma_known_names();
        }
        let ghost before = self@;
        let ghost seen = header_values(*headers);
        let incoming_authorization = non_empty_header(headers, "authorization");
        let incoming_account = non_empty_header(headers, "chatgpt-account-id");
        let authorization_present = incoming_authorization.is_some();
        let chatgpt_account_id_present = incoming_account.is_some();

        if let Some(authorization) = &incoming_authorization {
            let authorization_changed = match &self.authorization {
                Some(cached) => !same_bytes(&cached.bytes, &authorization.bytes),
                None => true,
            };
            self.authorization = Some(copy_value(authorization));
            if authorization_changed && !chatgpt_account_id_present {
                self.chatgpt_account_id = None;
            }
        }
        if let Some(account) = &incoming_account {
            self.chatgpt_account_id = Some(copy_value(account));
        }
        assert(self@ == before.after(seen));

        let mut state = AuthHeaderState {
            authorization_present,
            authorization_injected: false,
            chatgpt_account_id_present,
            chatgpt_account_id_injected: false,
        };
        if !authorization_present {
            if let Some(authorization) = &self.authorization {
                insert(headers, "authorization", authorization);
                state.authorization_injected = true;
            }
        }
        if !chatgpt_account_id_present {
            if let Some(account) = &self.chatgpt_account_id {
                insert(headers, "chatgpt-account-id", account);
                state.chatgpt_account_id_injected = true;
            }
        }
        state
    }
}

impl Default for AuthHeaderCache {
    fn default() -> (res: AuthHeaderCache)
        ensures
            res@ == (CachedAuthHeaders { authorization: None, chatgpt_account_id: None }),
    {
        AuthHeaderCache::new()
    }
}

/// The two login headers have different names.
proof fn lemma_names_differ()
    ensures
        "authorization"@ != "chatgpt-account-id"@,
{
    reveal_strlit("authorization");
    reveal_strlit("chatgpt-account-id");
    assert("authorization"@.len() != "chatgpt-account-id"@.len());
}

/// What an empty cache holds after a row of requests.
pub open spec fn cache_after(requests: Seq<Headers>) -> CachedAuthHeaders
    decreases requests.len(),
{
    if requests.len() == 0 {
        CachedAuthHeaders { authorization: None, chatgpt_account_id: None }
    } else {
        cache_after(requests.drop_last()).after(requests.last())
    }
}

/// The value of a header in the last request of a row that had one that is not empty.
pub open spec fn last_seen(requests: Seq<Headers>, name: Seq<char>) -> Option<Value>
    decreases requests.len(),
{
    if requests.len() == 0 {
        None
    } else if non_empty(requests.last(), name) is Some {
        non_empty(requests.last(), name)
    } else {
        last_seen(requests.drop_last(), name)
    }
}

/// The cache remembers the `Authorization` that was seen last. The account it holds is the one that
/// was seen last too, if it holds any.
pub proof fn cache_remembers_what_was_seen_last(requests: Seq<Headers>)
    ensures
        cache_after(requests).authorization == last_seen(requests, "authorization"@),
        cache_after(requests).chatgpt_account_id is Some ==> cache_after(
            requests,
        ).chatgpt_account_id == last_seen(requests, "chatgpt-account-id"@),
    decreases requests.len(),
{
    if requests.len() > 0 {
        cache_remembers_what_was_seen_last(requests.drop_last());
    }
}

/// A login header that a request lacks is added, if the cache holds one once it has seen the
/// request. A request without login headers leaves the cache as it is.
pub proof fn missing_login_headers_are_replayed(cache: CachedAuthHeaders, headers: Headers)
    ensures
        non_empty(headers, "authorization"@) is None ==> (cache.authorization matches Some(value)
            ==> values_of(cache.completed(headers), "authorization"@) == seq![value]),
        non_empty(headers, "chatgpt-account-id"@) is None ==> (cache.after(
            headers,
        ).chatgpt_account_id matches Some(value) ==> values_of(
            cache.completed(headers),
            "chatgpt-account-id"@,
        ) == seq![value]),
        non_empty(headers, "authorization"@) is None && non_empty(headers, "chatgpt-account-id"@)
            is None ==> cache.after(headers) == cache,
{
    lemma_names_differ();
}

/// A new `Authorization` is never paired with an old account: when a request brings another
/// `Authorization` than the cached one, or the first one, and names no account, the cache forgets
/// the account, the request gets none, and a later request without login headers gets the new
/// `Authorization` alone.
pub proof fn new_authorization_drops_old_account(
    cache: CachedAuthHeaders,
    headers: Headers,
    later: Headers,
)
    requires
        non_empty(headers, "authorization"@) matches Some(value) && is_new(
            cache.authorization,
            value,
        ),
        non_empty(headers, "chatgpt-account-id"@) is None,
        non_empty(later, "authorization"@) is None,
        non_empty(later, "chatgpt-account-id"@) is None,
    ensures
        cache.after(headers).chatgpt_account_id is None,
        !cache.report(headers).chatgpt_account_id_injected,
        values_of(cache.completed(headers), "chatgpt-account-id"@) == values_of(
            headers,
            "chatgpt-account-id"@,
        ),
        values_of(cache.after(headers).completed(later), "authorization"@) == seq![
            non_empty(headers, "authorization"@)->Some_0,
        ],
        values_of(cache.after(headers).completed(later), "chatgpt-account-id"@) == values_of(
            later,
            "chatgpt-account-id"@,
        ),
{
    lemma_names_differ();
}

/// A login header that a request brings along is never replaced, and no other header is touched.
pub proof fn own_headers_are_kept(cache: CachedAuthHeaders, headers: Headers, name: Seq<char>)
    requires
        non_empty(headers, name) is Some || (name != "authorization"@ && name
            != "chatgpt-account-id"@),
    ensures
        values_of(cache.completed(headers), name) == values_of(headers, name),
{
    lemma_names_differ();
}

/// Completed headers have at most the two login names more.
pub proof fn completed_headers_stay_small(cache: CachedAuthHeaders, headers: Headers, room: nat)
    requires
        has_room(headers, room + 2),
    ensures
        has_room(cache.completed(headers), room),
{
}

} // verus!
