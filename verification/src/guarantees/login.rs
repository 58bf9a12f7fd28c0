//! Promises on the login headers that are remembered and replayed.
use axum::http::HeaderMap;
use vstd::prelude::*;

use crate::auth::{
    cache_after, non_empty_header, AuthHeaderCache, AuthHeaderState, CachedAuthHeaders,
};
use crate::headers::{header_values, FieldValue, Headers, Value};

verus! {

/// The first value of a header, if there is one and it is not empty.
pub open spec fn brings(headers: Headers, name: Seq<char>) -> Option<Value> {
    if headers.dom().contains(name) && headers[name].len() > 0 && headers[name][0].bytes.len() > 0 {
        Some(headers[name][0])
    } else {
        None
    }
}

/// Whether a header has the same values in both header maps, or is in neither.
pub open spec fn stays(after: Headers, before: Headers, name: Seq<char>) -> bool {
    &&& after.dom().contains(name) == before.dom().contains(name)
    &&& after.dom().contains(name) ==> after[name] == before[name]
}

/// Whether a header has this value and no other.
pub open spec fn is_exactly(headers: Headers, name: Seq<char>, value: Value) -> bool {
    headers.dom().contains(name) && headers[name] == seq![value]
}

proof fn lemma_two_names()
    ensures
        "authorization"@ != "chatgpt-account-id"@,
{
    reveal_strlit("authorization");
    reveal_strlit("chatgpt-account-id");
    assert("authorization"@.len() != "chatgpt-account-id"@.len());
}

/// The first value of a header is read, unless it is empty.
pub proof fn first_values_are_read(headers: &HeaderMap, name: &str, res: Option<FieldValue>)
    requires
        call_ensures(non_empty_header, (headers, name), res),
    ensures
        res is Some == brings(header_values(*headers), name@) is Some,
        res matches Some(value) ==> brings(header_values(*headers), name@) == Some(
            Value { bytes: value.bytes@, sensitive: value.sensitive },
        ),
{
}

/// Whether `after` is what is remembered once a request with the headers `seen` came, where
/// `before` was remembered. A login header that the request brings along is remembered, whatever
/// was remembered before and whatever comes with it. One that it does not bring along stays
/// remembered, but for the account where another `Authorization` comes without one: that is
/// forgotten.
pub open spec fn remembers(
    after: CachedAuthHeaders,
    before: CachedAuthHeaders,
    seen: Headers,
) -> bool {
    let authorization = brings(seen, "authorization"@);
    let account = brings(seen, "chatgpt-account-id"@);
    &&& authorization matches Some(value) ==> after.authorization == Some(value)
    &&& authorization is None ==> after.authorization == before.authorization
    &&& account matches Some(value) ==> after.chatgpt_account_id == Some(value)
    &&& account is None && authorization is None ==> after.chatgpt_account_id
        == before.chatgpt_account_id
    &&& account is None ==> (authorization matches Some(value) ==> (
    before.authorization matches Some(known) && known.bytes == value.bytes
        ==> after.chatgpt_account_id == before.chatgpt_account_id))
    &&& account is None ==> (authorization matches Some(value) ==> (!(
    before.authorization matches Some(known) && known.bytes == value.bytes)
        ==> after.chatgpt_account_id is None))
}

/// A login header that a request brings along is remembered, whatever was remembered before and
/// whatever comes with it. One that it does not bring along stays remembered, but for the account
/// where another `Authorization` comes without one: that is forgotten.
pub proof fn login_headers_are_remembered(
    cache: &mut AuthHeaderCache,
    headers: &mut HeaderMap,
    res: AuthHeaderState,
)
    requires
        call_ensures(AuthHeaderCache::apply, (cache, headers), res),
    ensures
        remembers(final(cache)@, old(cache)@, header_values(*old(headers))),
        brings(header_values(*old(headers)), "chatgpt-account-id"@) matches Some(value)
            ==> final(cache)@.chatgpt_account_id == Some(value),
{
    lemma_two_names();
}

/// Whether `full` are the headers `seen` of a request with the remembered login headers that it
/// lacks, as the only values of their names, and no other difference.
pub open spec fn is_completed(full: Headers, seen: Headers, remembered: CachedAuthHeaders) -> bool {
    &&& forall|name: Seq<char>|
        name != "authorization"@ && name != "chatgpt-account-id"@ ==> #[trigger] stays(
            full,
            seen,
            name,
        )
    &&& brings(seen, "authorization"@) is Some ==> stays(full, seen, "authorization"@)
    &&& brings(seen, "chatgpt-account-id"@) is Some ==> stays(full, seen, "chatgpt-account-id"@)
    &&& brings(seen, "authorization"@) is None ==> match remembered.authorization {
        Some(value) => is_exactly(full, "authorization"@, value),
        None => stays(full, seen, "authorization"@),
    }
    &&& brings(seen, "chatgpt-account-id"@) is None ==> match remembered.chatgpt_account_id {
        Some(value) => is_exactly(full, "chatgpt-account-id"@, value),
        None => stays(full, seen, "chatgpt-account-id"@),
    }
}

pub(crate) proof fn lemma_completed(
    full: Headers,
    seen: Headers,
    before: CachedAuthHeaders,
    after: CachedAuthHeaders,
)
    requires
        after == before.after(seen),
        is_completed(full, seen, after),
    ensures
        full == before.completed(seen),
        remembers(after, before, seen),
{
    lemma_two_names();
    let wanted = before.completed(seen);
    assert forall|name: Seq<char>| full.dom().contains(name) == wanted.dom().contains(name) by {
        if name != "authorization"@ && name != "chatgpt-account-id"@ {
            assert(stays(full, seen, name));
        }
    }
    assert forall|name: Seq<char>| full.dom().contains(name) implies full[name] == wanted[name] by {
        if name != "authorization"@ && name != "chatgpt-account-id"@ {
            assert(stays(full, seen, name));
        }
    }
    assert(full =~= wanted);
}

/// A request goes out with its own headers, and with the remembered login headers that it lacks, as
/// the only values of their names. No other header is touched, added or lost.
pub proof fn requests_get_the_headers_that_they_lack(
    cache: &mut AuthHeaderCache,
    headers: &mut HeaderMap,
    name: Seq<char>,
    res: AuthHeaderState,
)
    requires
        call_ensures(AuthHeaderCache::apply, (cache, headers), res),
    ensures
        ({
            let seen = header_values(*old(headers));
            let sent = header_values(*final(headers));
            let authorization = brings(seen, "authorization"@);
            let account = brings(seen, "chatgpt-account-id"@);
            &&& name != "authorization"@ && name != "chatgpt-account-id"@ ==> stays(
                sent,
                seen,
                name,
            )
            &&& authorization is Some ==> stays(sent, seen, "authorization"@)
            &&& account is Some ==> stays(sent, seen, "chatgpt-account-id"@)
            &&& authorization is None ==> match final(cache)@.authorization {
                Some(value) => is_exactly(sent, "authorization"@, value),
                None => stays(sent, seen, "authorization"@),
            }
            &&& account is None ==> match final(cache)@.chatgpt_account_id {
                Some(value) => is_exactly(sent, "chatgpt-account-id"@, value),
                None => stays(sent, seen, "chatgpt-account-id"@),
            }
        }),
{
    lemma_two_names();
}

/// What is reported of a request: which login headers it brought along, and which it was given.
/// None is both, and a request has one in the end exactly if it is one of the two.
pub proof fn reports_tell_what_was_done(
    cache: &mut AuthHeaderCache,
    headers: &mut HeaderMap,
    res: AuthHeaderState,
    authorization: bool,
    account: bool,
)
    requires
        call_ensures(AuthHeaderCache::apply, (cache, headers), res),
        call_ensures(AuthHeaderState::authorization_effective, (res,), authorization),
        call_ensures(AuthHeaderState::chatgpt_account_id_effective, (res,), account),
        old(cache)@.authorization matches Some(value) ==> value.bytes.len() > 0,
        old(cache)@.chatgpt_account_id matches Some(value) ==> value.bytes.len() > 0,
    ensures
        ({
            let seen = header_values(*old(headers));
            let sent = header_values(*final(headers));
            &&& res.authorization_present == brings(seen, "authorization"@) is Some
            &&& res.chatgpt_account_id_present == brings(seen, "chatgpt-account-id"@) is Some
            &&& !(res.authorization_present && res.authorization_injected)
            &&& !(res.chatgpt_account_id_present && res.chatgpt_account_id_injected)
            &&& res.authorization_injected == (!res.authorization_present
                && final(cache)@.authorization is Some)
            &&& res.chatgpt_account_id_injected == (!res.chatgpt_account_id_present
                && final(cache)@.chatgpt_account_id is Some)
            &&& authorization == brings(sent, "authorization"@) is Some
            &&& account == brings(sent, "chatgpt-account-id"@) is Some
        }),
{
    lemma_two_names();
}

/// A request counts as one with a login header if it brought it along or was given it.
pub proof fn given_headers_count(report: AuthHeaderState, authorization: bool, account: bool)
    requires
        call_ensures(AuthHeaderState::authorization_effective, (report,), authorization),
        call_ensures(AuthHeaderState::chatgpt_account_id_effective, (report,), account),
    ensures
        authorization == (report.authorization_present || report.authorization_injected),
        account == (report.chatgpt_account_id_present || report.chatgpt_account_id_injected),
{
}

/// A new cache gives nothing to a request.
pub proof fn new_cache_gives_nothing(
    fresh: AuthHeaderCache,
    cache: &mut AuthHeaderCache,
    headers: &mut HeaderMap,
    name: Seq<char>,
    res: AuthHeaderState,
)
    requires
        call_ensures(AuthHeaderCache::new, (), fresh),
        old(cache)@ == fresh@,
        call_ensures(AuthHeaderCache::apply, (cache, headers), res),
    ensures
        stays(header_values(*final(headers)), header_values(*old(headers)), name),
        !res.authorization_injected,
        !res.chatgpt_account_id_injected,
{
    lemma_two_names();
}

/// What a request brings along, the next one is given if it lacks both login headers: the
/// `Authorization` and the account of the same request go together. If the first request brings
/// another `Authorization` and no account, the next one is given no account.
pub proof fn next_request_is_given_what_the_last_brought(
    first: &mut AuthHeaderCache,
    first_headers: &mut HeaderMap,
    first_report: AuthHeaderState,
    next: &mut AuthHeaderCache,
    next_headers: &mut HeaderMap,
    next_report: AuthHeaderState,
)
    requires
        call_ensures(AuthHeaderCache::apply, (first, first_headers), first_report),
        old(next)@ == final(first)@,
        call_ensures(AuthHeaderCache::apply, (next, next_headers), next_report),
        brings(header_values(*old(next_headers)), "authorization"@) is None,
        brings(header_values(*old(next_headers)), "chatgpt-account-id"@) is None,
    ensures
        ({
            let seen = header_values(*old(first_headers));
            let sent = header_values(*final(next_headers));
            &&& brings(seen, "authorization"@) matches Some(value) ==> is_exactly(
                sent,
                "authorization"@,
                value,
            ) && next_report.authorization_injected
            &&& brings(seen, "chatgpt-account-id"@) matches Some(value) ==> is_exactly(
                sent,
                "chatgpt-account-id"@,
                value,
            ) && next_report.chatgpt_account_id_injected
            &&& brings(seen, "chatgpt-account-id"@) is None ==> (brings(
                seen,
                "authorization"@,
            ) matches Some(value) ==> ((old(first)@.authorization matches Some(known)
                ==> known.bytes != value.bytes) ==> stays(
                sent,
                header_values(*old(next_headers)),
                "chatgpt-account-id"@,
            ) && !next_report.chatgpt_account_id_injected))
        }),
{
    lemma_two_names();
}

proof fn lemma_row_without_login(requests: Seq<Headers>, k: int)
    requires
        0 <= k <= requests.len(),
        forall|j: int|
            k <= j < requests.len() ==> brings(#[trigger] requests[j], "authorization"@) is None
                && brings(requests[j], "chatgpt-account-id"@) is None,
    ensures
        cache_after(requests) == cache_after(requests.take(k)),
    decreases requests.len(),
{
    if k < requests.len() {
        let rest = requests.drop_last();
        assert(rest.take(k) =~= requests.take(k));
        assert(brings(requests[requests.len() - 1], "authorization"@) is None);
        assert forall|j: int| k <= j < rest.len() implies brings(
            #[trigger] rest[j],
            "authorization"@,
        ) is None && brings(rest[j], "chatgpt-account-id"@) is None by {
            assert(rest[j] == requests[j]);
        }
        lemma_row_without_login(rest, k);
    } else {
        assert(requests.take(k) =~= requests);
    }
}

/// After a row of requests, the last one that brought a login header along decides: its account is
/// the one that is remembered, and so is its `Authorization`.
pub proof fn last_login_of_a_row_is_remembered(requests: Seq<Headers>, k: int)
    requires
        0 <= k < requests.len(),
        forall|j: int|
            k < j < requests.len() ==> brings(#[trigger] requests[j], "authorization"@) is None
                && brings(requests[j], "chatgpt-account-id"@) is None,
    ensures
        brings(requests[k], "authorization"@) matches Some(value) ==> cache_after(
            requests,
        ).authorization == Some(value),
        brings(requests[k], "chatgpt-account-id"@) matches Some(value) ==> cache_after(
            requests,
        ).chatgpt_account_id == Some(value),
{
    lemma_row_without_login(requests, k + 1);
    assert(requests.take(k + 1).drop_last() =~= requests.take(k));
    assert(requests.take(k + 1).last() == requests[k]);
}

/// The account that was named last stays remembered as long as no other `Authorization` comes.
pub proof fn account_stays_with_its_authorization(
    requests: Seq<Headers>,
    k: int,
    authorization: Value,
    account: Value,
)
    requires
        0 <= k < requests.len(),
        brings(requests[k], "chatgpt-account-id"@) == Some(account),
        brings(requests[k], "authorization"@) == Some(authorization),
        forall|j: int|
            k < j < requests.len() ==> brings(#[trigger] requests[j], "chatgpt-account-id"@) is None
                && (brings(requests[j], "authorization"@) matches Some(value) ==> value.bytes
                == authorization.bytes),
    ensures
        cache_after(requests).chatgpt_account_id == Some(account),
        cache_after(requests).authorization matches Some(value) && value.bytes
            == authorization.bytes,
    decreases requests.len(),
{
    let rest = requests.drop_last();
    if k < rest.len() {
        assert(rest[k] == requests[k]);
        assert forall|j: int| k < j < rest.len() implies brings(
            #[trigger] rest[j],
            "chatgpt-account-id"@,
        ) is None && (brings(rest[j], "authorization"@) matches Some(value) ==> value.bytes
            == authorization.bytes) by {
            assert(rest[j] == requests[j]);
        }
        account_stays_with_its_authorization(rest, k, authorization, account);
        assert(brings(requests[requests.len() - 1], "chatgpt-account-id"@) is None);
    }
}

} // verus!
