//! The order of the requests of a call: under a rule that does not look at
//! the position of a request, a call read in another order of its requests
//! gives the same time, the same keys and the same rows, as often.

use crate::call::{call_reading, lemma_readings_before, reading_at, readings};
use crate::correlate::request_timestamp;
use crate::dedup::lemma_duplicate_order_free;
use crate::errors::{Failure, ZkErrorCode};
use crate::fields::{AttestedCallView, MessageFieldsView};
use crate::laws::lemma_timestamp_is_earliest;
use crate::ledger::{
    distinct_assets, holds_asset, lemma_ledger_order_free, terms_of, with_rows, BalanceRowView,
    LedgerView,
};
use crate::product::RuleView;
use crate::request::{request_reading, RequestReadingView};
use crate::text::Text;
use vstd::multiset::Multiset;
use vstd::prelude::*;

verus! {

/// A request together with its response.
pub struct Answered {
    pub url: Text,
    pub message: MessageFieldsView,
}

/// The requests of a call, each with its response, in their order.
pub open spec fn answered(call: AttestedCallView) -> Seq<Answered> {
    Seq::new(
        call.requests.len(),
        |i: int| Answered { url: call.requests[i], message: call.messages[i] },
    )
}

/// The reading of a request under a rule that does not look at positions.
pub open spec fn reading_of(rule: RuleView, x: Answered) -> Result<RequestReadingView, Failure> {
    request_reading(rule, 0, x.url, x.message)
}

/// The rows of a request, none where it is refused.
pub open spec fn rows_of(rule: RuleView, x: Answered) -> Multiset<BalanceRowView> {
    match reading_of(rule, x) {
        Ok(reading) => reading.rows.to_multiset(),
        Err(_) => Multiset::empty(),
    }
}

/// The key of a request, none where it is refused or shows no key.
pub open spec fn keys_of(rule: RuleView, x: Answered) -> Multiset<Text> {
    match reading_of(rule, x) {
        Ok(reading) => match reading.key {
            Some(key) => Multiset::singleton(key),
            None => Multiset::empty(),
        },
        Err(_) => Multiset::empty(),
    }
}

/// What the items of a sequence give together, each by `part`.
pub open spec fn gathered<A, B>(xs: Seq<A>, part: spec_fn(A) -> Multiset<B>) -> Multiset<B>
    decreases xs.len(),
{
    if xs.len() == 0 {
        Multiset::empty()
    } else {
        gathered(xs.drop_last(), part).add(part(xs.last()))
    }
}

/// What a sequence gives together is what it gives without one item,
/// together with what that item gives.
pub proof fn lemma_gathered_remove<A, B>(xs: Seq<A>, part: spec_fn(A) -> Multiset<B>, j: int)
    requires
        0 <= j < xs.len(),
    ensures
        gathered(xs, part) == gathered(xs.remove(j), part).add(part(xs[j])),
    decreases xs.len(),
{
    broadcast use vstd::multiset::group_multiset_axioms;

    if j == xs.len() - 1 {
        assert(xs.remove(j) =~= xs.drop_last());
    } else {
        let head = xs.drop_last();
        lemma_gathered_remove(head, part, j);
        assert(xs.remove(j).drop_last() =~= head.remove(j));
        assert(xs.remove(j).last() == xs.last());
        assert(gathered(xs, part) =~= gathered(xs.remove(j), part).add(part(xs[j])));
    }
}

/// What a sequence gives together does not depend on the order of its
/// items.
pub proof fn lemma_gathered_order_free<A, B>(
    xs: Seq<A>,
    ys: Seq<A>,
    part: spec_fn(A) -> Multiset<B>,
)
    requires
        xs.to_multiset() == ys.to_multiset(),
    ensures
        gathered(xs, part) == gathered(ys, part),
    decreases ys.len(),
{
    broadcast use vstd::seq_lib::group_to_multiset_ensures;

    if ys.len() == 0 {
        assert(xs.to_multiset().len() == 0);
        assert(xs.len() == 0);
    } else {
        let last = ys.last();
        assert(ys.contains(last));
        assert(xs.to_multiset().count(last) > 0);
        assert(xs.contains(last));
        let j = choose|j: int| 0 <= j < xs.len() && xs[j] == last;
        assert(ys.drop_last() =~= ys.remove(ys.len() - 1));
        assert(xs.remove(j).to_multiset() == ys.drop_last().to_multiset());
        lemma_gathered_order_free(xs.remove(j), ys.drop_last(), part);
        lemma_gathered_remove(xs, part, j);
    }
}

/// The rows and the keys of a run of requests that were read are those
/// that its requests give together.
pub proof fn lemma_readings_gather(rule: RuleView, call: AttestedCallView, n: int)
    requires
        !(rule is Unified),
        call.requests.len() == call.messages.len(),
        0 <= n <= call.requests.len(),
        readings(rule, call, n) is Ok,
    ensures
        readings(rule, call, n)->Ok_0.rows.to_multiset() == gathered(
            answered(call).take(n),
            |x: Answered| rows_of(rule, x),
        ),
        readings(rule, call, n)->Ok_0.keys.to_multiset() == gathered(
            answered(call).take(n),
            |x: Answered| keys_of(rule, x),
        ),
    decreases n,
{
    broadcast use vstd::seq_lib::group_to_multiset_ensures;
    broadcast use vstd::multiset::group_multiset_axioms;

    let rows_part = |x: Answered| rows_of(rule, x);
    let keys_part = |x: Answered| keys_of(rule, x);
    let xs = answered(call).take(n);
    if n == 0 {
        assert(readings(rule, call, n)->Ok_0.rows.to_multiset() =~= Multiset::empty());
        assert(readings(rule, call, n)->Ok_0.keys.to_multiset() =~= Multiset::empty());
    } else {
        lemma_readings_gather(rule, call, n - 1);
        let before = readings(rule, call, n - 1)->Ok_0;
        let next = reading_at(rule, call, n - 1)->Ok_0;
        let after = readings(rule, call, n)->Ok_0;
        assert(xs.drop_last() =~= answered(call).take(n - 1));
        assert(xs.last() == answered(call)[n - 1]);
        assert(reading_of(rule, xs.last()) == reading_at(rule, call, n - 1));
        vstd::seq_lib::lemma_multiset_commutative(before.rows, next.rows);
        assert(after.rows.to_multiset() =~= gathered(xs, rows_part));
        assert(after.keys.to_multiset() =~= gathered(xs, keys_part));
    }
}

/// A run of requests is read exactly if each of its requests is.
pub proof fn lemma_readings_all(rule: RuleView, call: AttestedCallView, n: int)
    requires
        0 <= n,
        forall|i: int| 0 <= i < n ==> reading_at(rule, call, i) is Ok,
    ensures
        readings(rule, call, n) is Ok,
    decreases n,
{
    if n > 0 {
        lemma_readings_all(rule, call, n - 1);
    }
}

/// Where every request of one call stands in another, the other being read
/// means that the one is read.
proof fn lemma_read_together(rule: RuleView, first: AttestedCallView, second: AttestedCallView)
    requires
        !(rule is Unified),
        first.requests.len() == first.messages.len(),
        second.requests.len() == second.messages.len(),
        answered(first).to_multiset() == answered(second).to_multiset(),
        readings(rule, first, first.requests.len() as int) is Ok,
    ensures
        readings(rule, second, second.requests.len() as int) is Ok,
{
    broadcast use vstd::seq_lib::group_to_multiset_ensures;

    let xs = answered(first);
    let ys = answered(second);
    assert forall|i: int| 0 <= i < second.requests.len() implies reading_at(rule, second, i)
        is Ok by {
        assert(ys.contains(ys[i]));
        assert(xs.to_multiset().count(ys[i]) > 0);
        assert(xs.contains(ys[i]));
        let j = choose|j: int| 0 <= j < xs.len() && xs[j] == ys[i];
        lemma_readings_before(rule, first, j, first.requests.len() as int);
        assert(reading_at(rule, first, j) == reading_of(rule, xs[j]));
        assert(reading_at(rule, second, i) == reading_of(rule, ys[i]));
    }
    lemma_readings_all(rule, second, second.requests.len() as int);
}

/// The time of a call that is read is no later than the time of a call
/// with the same requests.
proof fn lemma_time_together(rule: RuleView, first: AttestedCallView, second: AttestedCallView)
    requires
        !(rule is Unified),
        first.requests.len() == first.messages.len(),
        second.requests.len() == second.messages.len(),
        answered(first).to_multiset() == answered(second).to_multiset(),
        readings(rule, first, first.requests.len() as int) is Ok,
        readings(rule, second, second.requests.len() as int) is Ok,
    ensures
        readings(rule, first, first.requests.len() as int)->Ok_0.timestamp <= readings(
            rule,
            second,
            second.requests.len() as int,
        )->Ok_0.timestamp,
{
    broadcast use vstd::seq_lib::group_to_multiset_ensures;

    let xs = answered(first);
    let ys = answered(second);
    let n = first.requests.len() as int;
    let m = second.requests.len() as int;
    assert(xs.to_multiset().len() == ys.to_multiset().len());
    assert(n == m);
    lemma_timestamp_is_earliest(rule, first, n);
    lemma_timestamp_is_earliest(rule, second, m);
    if m > 0 {
        let i = choose|i: int|
            0 <= i < m && #[trigger] request_timestamp(second.requests[i]) == Ok::<
                u128,
                ZkErrorCode,
            >(readings(rule, second, m)->Ok_0.timestamp);
        assert(ys.contains(ys[i]));
        assert(xs.to_multiset().count(ys[i]) > 0);
        assert(xs.contains(ys[i]));
        let j = choose|j: int| 0 <= j < xs.len() && xs[j] == ys[i];
        assert(first.requests[j] == second.requests[i]);
        assert(request_timestamp(first.requests[j]) is Ok);
    }
}

/// Under a rule that does not look at the position of a request, a call
/// does not depend on the order of its requests: two calls that hold the
/// same requests with the same responses, as often, are both read or both
/// refused, and where they are read they have the same time, the same
/// account keys and the same balance rows, as often.
pub proof fn lemma_call_order_free(rule: RuleView, first: AttestedCallView, second: AttestedCallView)
    requires
        !(rule is Unified),
        first.requests.len() == first.messages.len(),
        second.requests.len() == second.messages.len(),
        answered(first).to_multiset() == answered(second).to_multiset(),
    ensures
        call_reading(rule, first) is Ok <==> call_reading(rule, second) is Ok,
        call_reading(rule, first) is Ok ==> {
            let a = call_reading(rule, first)->Ok_0;
            let b = call_reading(rule, second)->Ok_0;
            &&& a.timestamp == b.timestamp
            &&& a.keys.to_multiset() == b.keys.to_multiset()
            &&& a.rows.to_multiset() == b.rows.to_multiset()
        },
{
    let n = first.requests.len() as int;
    let m = second.requests.len() as int;
    if readings(rule, first, n) is Ok {
        lemma_read_together(rule, first, second);
    }
    if readings(rule, second, m) is Ok {
        lemma_read_together(rule, second, first);
    }
    if readings(rule, first, n) is Ok {
        let a = readings(rule, first, n)->Ok_0;
        let b = readings(rule, second, m)->Ok_0;
        lemma_time_together(rule, first, second);
        lemma_time_together(rule, second, first);
        lemma_readings_gather(rule, first, n);
        lemma_readings_gather(rule, second, m);
        assert(answered(first).take(n) =~= answered(first));
        assert(answered(second).take(m) =~= answered(second));
        lemma_gathered_order_free(
            answered(first),
            answered(second),
            |x: Answered| rows_of(rule, x),
        );
        lemma_gathered_order_free(
            answered(first),
            answered(second),
            |x: Answered| keys_of(rule, x),
        );
        lemma_duplicate_order_free(a.keys, b.keys);
    }
}

/// The ledger after a call does not depend on the order of the requests of
/// the call, read as a ledger of amounts to be summed: two calls with the
/// same requests, in whatever order, give every asset the same amounts as
/// often, and give the same assets an entry.
pub proof fn lemma_ledger_of_call_order_free(
    l: LedgerView,
    rule: RuleView,
    first: AttestedCallView,
    second: AttestedCallView,
    asset: Text,
)
    requires
        distinct_assets(l),
        !(rule is Unified),
        first.requests.len() == first.messages.len(),
        second.requests.len() == second.messages.len(),
        answered(first).to_multiset() == answered(second).to_multiset(),
        call_reading(rule, first) is Ok,
    ensures
        call_reading(rule, second) is Ok,
        terms_of(with_rows(l, call_reading(rule, first)->Ok_0.rows), asset).to_multiset()
            == terms_of(with_rows(l, call_reading(rule, second)->Ok_0.rows), asset).to_multiset(),
        holds_asset(with_rows(l, call_reading(rule, first)->Ok_0.rows), asset) == holds_asset(
            with_rows(l, call_reading(rule, second)->Ok_0.rows),
            asset,
        ),
{
    lemma_call_order_free(rule, first, second);
    lemma_ledger_order_free(
        l,
        call_reading(rule, first)->Ok_0.rows,
        call_reading(rule, second)->Ok_0.rows,
        asset,
    );
}

} // verus!
