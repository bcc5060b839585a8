//! What holds of every call, stated over the models of the processors.

use crate::call::{
    call_outcome, call_reading, lemma_first_failure, reading_at, readings, CallReadingView,
};
use crate::correlate::{request_timestamp, timestamp_text, TIMESTAMP_MARKER};
use crate::dedup::has_duplicate;
use crate::errors::{failure_of, Failure, ZkErrorCode};
use crate::fields::{AttestedCallView, MessageFieldsView, VerificationView};
use crate::product::RuleView;
use crate::request::{request_reading, RequestReadingView};
use crate::text::{lemma_no_occurrence, occurs_at, parsed_u128, Text};
use vstd::prelude::*;

verus! {

/// A call with another number of messages than of requests fails for that
/// reason, whatever it holds. (A unified account with an odd number of
/// requests has failed before for that.)
pub proof fn lemma_messages_length(rule: RuleView, call: AttestedCallView)
    requires
        call.requests.len() != call.messages.len(),
        !(rule is Unified && call.requests.len() % 2 != 0),
    ensures
        call_outcome(rule, VerificationView::Verified(call)) == Err::<CallReadingView, Failure>(
            failure_of(ZkErrorCode::InvalidMessagesLength),
        ),
{
}

/// A call to a unified account with an odd number of requests fails for
/// that reason, whatever it holds.
pub proof fn lemma_odd_request_count(rule: RuleView, call: AttestedCallView)
    requires
        rule is Unified,
        call.requests.len() % 2 != 0,
    ensures
        call_outcome(rule, VerificationView::Verified(call)) == Err::<CallReadingView, Failure>(
            failure_of(ZkErrorCode::InvalidRequestLength),
        ),
{
}

/// In a call to a unified account, the first request that stands at the
/// place of the other endpoint fails the call for its order: a request to
/// the risk endpoint at an odd position, or a request to the balance
/// endpoint, and not to the risk endpoint, at an even one. The requests
/// before it were read, and it bears a time.
pub proof fn lemma_request_order(rule: RuleView, call: AttestedCallView, i: int)
    requires
        rule is Unified,
        call.requests.len() % 2 == 0,
        call.requests.len() == call.messages.len(),
        0 <= i < call.requests.len(),
        readings(rule, call, i) is Ok,
        request_timestamp(call.requests[i]) is Ok,
        (rule->risk_endpoint.is_prefix_of(call.requests[i]) && i % 2 != 0) || (
        !rule->risk_endpoint.is_prefix_of(call.requests[i])
            && rule->balance_endpoint.is_prefix_of(call.requests[i]) && i % 2 == 0),
    ensures
        call_outcome(rule, VerificationView::Verified(call)) == Err::<CallReadingView, Failure>(
            failure_of(ZkErrorCode::InvalidRequestOrder),
        ),
{
    lemma_first_failure(rule, call, i, call.requests.len() as int);
}

/// The key of the account that the request at `position` shows, if the
/// request is read and shows one.
pub open spec fn key_at(rule: RuleView, call: AttestedCallView, position: int) -> Option<Text> {
    match reading_at(rule, call, position) {
        Ok(reading) => reading.key,
        Err(_) => None,
    }
}

/// The key of a request that was read stands among the keys of the call.
pub proof fn lemma_key_is_listed(rule: RuleView, call: AttestedCallView, i: int, n: int)
    requires
        0 <= i < n,
        readings(rule, call, n) is Ok,
        key_at(rule, call, i) is Some,
    ensures
        readings(rule, call, n)->Ok_0.keys.contains(key_at(rule, call, i)->Some_0),
    decreases n,
{
    let before = readings(rule, call, n - 1)->Ok_0;
    let after = readings(rule, call, n)->Ok_0;
    let key = key_at(rule, call, i)->Some_0;
    if i == n - 1 {
        assert(after.keys[before.keys.len() as int] == key);
    } else {
        lemma_key_is_listed(rule, call, i, n - 1);
        let at = choose|at: int| 0 <= at < before.keys.len() && before.keys[at] == key;
        assert(after.keys[at] == key);
    }
}

/// Two requests that show the same key put that key twice among the keys
/// of the call.
pub proof fn lemma_same_key_repeats(rule: RuleView, call: AttestedCallView, i: int, j: int, n: int)
    requires
        0 <= i < j < n,
        readings(rule, call, n) is Ok,
        key_at(rule, call, i) is Some,
        key_at(rule, call, i) == key_at(rule, call, j),
    ensures
        has_duplicate(readings(rule, call, n)->Ok_0.keys),
    decreases n,
{
    let before = readings(rule, call, n - 1)->Ok_0;
    let after = readings(rule, call, n)->Ok_0;
    let key = key_at(rule, call, i)->Some_0;
    if j == n - 1 {
        lemma_key_is_listed(rule, call, i, n - 1);
        let at = choose|at: int| 0 <= at < before.keys.len() && before.keys[at] == key;
        assert(after.keys[at] == key);
        assert(after.keys[before.keys.len() as int] == key);
    } else {
        lemma_same_key_repeats(rule, call, i, j, n - 1);
        let (a, b) = choose|a: int, b: int|
            0 <= a < before.keys.len() && 0 <= b < before.keys.len() && a != b && before.keys[a]
                == before.keys[b];
        assert(after.keys[a] == after.keys[b]);
    }
}

/// A call in which two requests show the same account key fails as a
/// duplicate account, where every request of it is read by itself. (A call
/// that one of the checks before refuses has failed for that.)
pub proof fn lemma_duplicate_account(rule: RuleView, call: AttestedCallView, i: int, j: int)
    requires
        !(rule is Unified && call.requests.len() % 2 != 0),
        call.requests.len() == call.messages.len(),
        readings(rule, call, call.requests.len() as int) is Ok,
        0 <= i < j < call.requests.len(),
        key_at(rule, call, i) is Some,
        key_at(rule, call, i) == key_at(rule, call, j),
    ensures
        call_outcome(rule, VerificationView::Verified(call)) == Err::<CallReadingView, Failure>(
            failure_of(ZkErrorCode::DuplicateAccount),
        ),
{
    lemma_same_key_repeats(rule, call, i, j, call.requests.len() as int);
}

/// No account key stands twice among the keys of a call that is read.
pub proof fn lemma_read_call_has_distinct_keys(rule: RuleView, call: AttestedCallView)
    requires
        call_reading(rule, call) is Ok,
    ensures
        call_reading(rule, call)->Ok_0.keys.no_duplicates(),
{
}

/// A request that is read bears the time that its URL writes.
pub proof fn lemma_reading_time(
    rule: RuleView,
    position: int,
    url: Text,
    message: MessageFieldsView,
)
    requires
        request_reading(rule, position, url, message) is Ok,
    ensures
        request_timestamp(url) == Ok::<u128, ZkErrorCode>(
            request_reading(rule, position, url, message)->Ok_0.timestamp,
        ),
{
}

/// The time of a call is the earliest time of its requests: no request is
/// earlier, and one request bears it. A call without requests has the
/// latest time there is.
pub proof fn lemma_timestamp_is_earliest(rule: RuleView, call: AttestedCallView, n: int)
    requires
        0 <= n,
        readings(rule, call, n) is Ok,
    ensures
        forall|i: int|
            0 <= i < n ==> #[trigger] request_timestamp(call.requests[i]) is Ok && readings(
                rule,
                call,
                n,
            )->Ok_0.timestamp <= request_timestamp(call.requests[i])->Ok_0,
        n == 0 ==> readings(rule, call, n)->Ok_0.timestamp == u128::MAX,
        n > 0 ==> exists|i: int|
            0 <= i < n && #[trigger] request_timestamp(call.requests[i]) == Ok::<
                u128,
                ZkErrorCode,
            >(readings(rule, call, n)->Ok_0.timestamp),
    decreases n,
{
    if n > 0 {
        lemma_timestamp_is_earliest(rule, call, n - 1);
        let before = readings(rule, call, n - 1)->Ok_0;
        let after = readings(rule, call, n)->Ok_0;
        let last = reading_at(rule, call, n - 1)->Ok_0;
        lemma_reading_time(rule, n - 1, call.requests[n - 1], call.messages[n - 1]);
        assert(request_timestamp(call.requests[n - 1]) == Ok::<u128, ZkErrorCode>(
            last.timestamp,
        ));
        if last.timestamp < before.timestamp || n == 1 {
            assert(after.timestamp == last.timestamp);
        } else {
            let at = choose|at: int|
                0 <= at < n - 1 && #[trigger] request_timestamp(call.requests[at]) == Ok::<
                    u128,
                    ZkErrorCode,
                >(before.timestamp);
            assert(request_timestamp(call.requests[at]) == Ok::<u128, ZkErrorCode>(
                after.timestamp,
            ));
        }
    }
}

/// A URL in which `timestamp=` stands nowhere has no time.
pub proof fn lemma_missing_timestamp(url: Text)
    requires
        forall|i: int| !occurs_at(url, TIMESTAMP_MARKER@, i),
    ensures
        request_timestamp(url) == Err::<u128, ZkErrorCode>(ZkErrorCode::CannotFoundTimestamp),
{
    lemma_no_occurrence(url, TIMESTAMP_MARKER@);
}

/// A URL whose `timestamp` parameter is not empty and writes no number has
/// a time that cannot be read.
pub proof fn lemma_unreadable_timestamp(url: Text)
    requires
        timestamp_text(url) matches Some(text) && text.len() > 0 && parsed_u128(text) is None,
    ensures
        request_timestamp(url) == Err::<u128, ZkErrorCode>(ZkErrorCode::ParseTimestampFailed),
{
}

/// A request whose URL has no time that can be read fails for that reason
/// under every rule, whatever its response holds.
pub proof fn lemma_timestamp_comes_first(
    rule: RuleView,
    position: int,
    url: Text,
    message: MessageFieldsView,
)
    requires
        request_timestamp(url) is Err,
    ensures
        request_reading(rule, position, url, message) == Err::<RequestReadingView, Failure>(
            failure_of(request_timestamp(url)->Err_0),
        ),
{
}

} // verus!
