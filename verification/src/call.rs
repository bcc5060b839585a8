//! The reading of one attested call: all its requests in order, up to the
//! first that is refused, then the duplicate check on the account keys.

use crate::dedup::{check_duplicate_account, has_duplicate};
use crate::errors::{agrees, failure_of, Failure, ZkErrorCode, ZktlsError};
use crate::fields::{AttestedCall, AttestedCallView, VerificationView};
use crate::ledger::{BalanceRow, BalanceRowView};
use crate::product::{ProductRule, RuleView};
use crate::request::{read_request, request_reading, RequestReading, RequestReadingView};
use crate::text::{lemma_views_add, lemma_views_push, views_of, Text};
use vstd::prelude::*;

verus! {

/// What the requests of one call give together.
#[derive(Debug)]
pub struct CallReading {
    pub timestamp: u128,
    pub keys: Vec<String>,
    pub rows: Vec<BalanceRow>,
}

/// The model of a [`CallReading`].
pub struct CallReadingView {
    pub timestamp: u128,
    pub keys: Seq<Text>,
    pub rows: Seq<BalanceRowView>,
}

impl View for CallReading {
    type V = CallReadingView;

    open spec fn view(&self) -> CallReadingView {
        CallReadingView {
            timestamp: self.timestamp,
            keys: views_of(self.keys@),
            rows: views_of(self.rows@),
        }
    }
}

/// The reading of no request: the latest time there is, no key, no row.
pub open spec fn nothing_read() -> CallReadingView {
    CallReadingView { timestamp: u128::MAX, keys: Seq::empty(), rows: Seq::empty() }
}

/// The reading of a call with one more request: the earlier of the two
/// times, the keys with that of the request, the rows followed by those of
/// the request.
pub open spec fn absorbed(so_far: CallReadingView, next: RequestReadingView) -> CallReadingView {
    CallReadingView {
        timestamp: if next.timestamp < so_far.timestamp {
            next.timestamp
        } else {
            so_far.timestamp
        },
        keys: match next.key {
            Some(key) => so_far.keys.push(key),
            None => so_far.keys,
        },
        rows: so_far.rows + next.rows,
    }
}

/// The reading of the request at `position` of a call.
pub open spec fn reading_at(rule: RuleView, call: AttestedCallView, position: int) -> Result<
    RequestReadingView,
    Failure,
> {
    request_reading(rule, position, call.requests[position], call.messages[position])
}

/// The reading of the first `n` requests of a call: the failure of the
/// first request that is refused, if one is, and else what they give
/// together.
pub open spec fn readings(rule: RuleView, call: AttestedCallView, n: int) -> Result<
    CallReadingView,
    Failure,
>
    decreases n,
{
    if n <= 0 {
        Ok(nothing_read())
    } else {
        match readings(rule, call, n - 1) {
            Err(failure) => Err(failure),
            Ok(so_far) => match reading_at(rule, call, n - 1) {
                Err(failure) => Err(failure),
                Ok(next) => Ok(absorbed(so_far, next)),
            },
        }
    }
}

/// The reading of a call.
///
/// A unified account has an even number of requests. Every call has one
/// message for each request. The requests are read in order. No account key
/// stands twice among theirs.
pub open spec fn call_reading(rule: RuleView, call: AttestedCallView) -> Result<
    CallReadingView,
    Failure,
> {
    if rule is Unified && call.requests.len() % 2 != 0 {
        Err(failure_of(ZkErrorCode::InvalidRequestLength))
    } else if call.requests.len() != call.messages.len() {
        Err(failure_of(ZkErrorCode::InvalidMessagesLength))
    } else {
        match readings(rule, call, call.requests.len() as int) {
            Err(failure) => Err(failure),
            Ok(reading) => if has_duplicate(reading.keys) {
                Err(failure_of(ZkErrorCode::DuplicateAccount))
            } else {
                Ok(reading)
            },
        }
    }
}

/// What an attestation gives: the reading of its call if the verifier
/// accepted it, and the verifier's refusal else.
pub open spec fn call_outcome(rule: RuleView, attestation: VerificationView) -> Result<
    CallReadingView,
    Failure,
> {
    match attestation {
        VerificationView::Rejected(reason) => Err(
            Failure { code: ZkErrorCode::VerifyAttestation, msg: reason },
        ),
        VerificationView::Verified(call) => call_reading(rule, call),
    }
}

/// The first request that is refused decides the reading of every run of
/// requests that holds it.
pub proof fn lemma_first_failure(rule: RuleView, call: AttestedCallView, i: int, n: int)
    requires
        0 <= i < n,
        readings(rule, call, i) is Ok,
        reading_at(rule, call, i) is Err,
    ensures
        readings(rule, call, n) == Err::<CallReadingView, Failure>(
            reading_at(rule, call, i)->Err_0,
        ),
    decreases n,
{
    if n > i + 1 {
        lemma_first_failure(rule, call, i, n - 1);
    }
}

/// Where a run of requests is read without failure, so is every shorter
/// run, and every request of it.
pub proof fn lemma_readings_before(rule: RuleView, call: AttestedCallView, i: int, n: int)
    requires
        0 <= i < n,
        readings(rule, call, n) is Ok,
    ensures
        readings(rule, call, i) is Ok,
        reading_at(rule, call, i) is Ok,
    decreases n,
{
    if n > i + 1 {
        lemma_readings_before(rule, call, i, n - 1);
    }
}

/// Reads the requests of a call in order and checks its account keys.
pub fn read_call(rule: &ProductRule, call: &AttestedCall) -> (r: Result<CallReading, ZktlsError>)
    ensures
        agrees(r, call_reading(rule@, call@)),
{
    let n = call.requests.len();
    let unified = match rule {
        ProductRule::Unified { .. } => true,
        _ => false,
    };
    if unified && n % 2 != 0 {
        return Err(ZktlsError::from_code(ZkErrorCode::InvalidRequestLength));
    }
    if n != call.messages.len() {
        return Err(ZktlsError::from_code(ZkErrorCode::InvalidMessagesLength));
    }
    let mut timestamp: u128 = u128::MAX;
    let mut keys: Vec<String> = Vec::new();
    let mut rows: Vec<BalanceRow> = Vec::new();
    let mut i: usize = 0;
    proof {
        assert(views_of(keys@) =~= Seq::<Text>::empty());
        assert(views_of(rows@) =~= Seq::<BalanceRowView>::empty());
    }
    while i < n
        invariant
            i <= n,
            n == call.requests.len(),
            n == call.messages.len(),
            !(rule@ is Unified && n % 2 != 0),
            readings(rule@, call@, i as int) == Ok::<CallReadingView, Failure>(
                CallReadingView { timestamp, keys: views_of(keys@), rows: views_of(rows@) },
            ),
        decreases n - i,
    {
        assert(call@.requests[i as int] == call.requests@[i as int]@);
        assert(call@.messages[i as int] == call.messages@[i as int]@);
        let next = match read_request(rule, i, call.requests[i].as_str(), &call.messages[i]) {
            Ok(next) => next,
            Err(e) => {
                proof {
                    lemma_first_failure(rule@, call@, i as int, n as int);
                }
                return Err(e);
            },
        };
        let RequestReading { timestamp: time, key, rows: mut more } = next;
        if time < timestamp {
            timestamp = time;
        }
        match key {
            Some(k) => {
                proof {
                    lemma_views_push(keys@, k);
                }
                keys.push(k);
            },
            None => {},
        }
        proof {
            lemma_views_add(rows@, more@);
        }
        rows.append(&mut more);
        i += 1;
    }
    match check_duplicate_account(&keys) {
        Ok(()) => Ok(CallReading { timestamp, keys, rows }),
        Err(e) => Err(e),
    }
}

} // verus!
