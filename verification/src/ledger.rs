//! The asset ledger: for each asset symbol the amounts that were reported
//! for it, in the order in which they came.
//!
//! An amount is decimal text. The balance of an asset is the sum of its
//! amounts, taken pair by pair in the order of the ledger; the ledger keeps
//! the pairs and leaves the sum to its reader.

use crate::text::{same_text, views_of, Text};
use vstd::prelude::*;

verus! {

/// The two amounts of one balance row.
#[derive(Debug)]
pub struct AmountPair {
    pub first: String,
    pub second: String,
}

/// The model of an [`AmountPair`].
pub struct AmountPairView {
    pub first: Text,
    pub second: Text,
}

impl View for AmountPair {
    type V = AmountPairView;

    open spec fn view(&self) -> AmountPairView {
        AmountPairView { first: self.first@, second: self.second@ }
    }
}

impl Clone for AmountPair {
    fn clone(&self) -> (r: Self)
        ensures
            r@ == self@,
    {
        AmountPair { first: self.first.clone(), second: self.second.clone() }
    }
}

/// One balance row of a response: an asset symbol and its two amounts.
#[derive(Debug)]
pub struct BalanceRow {
    pub asset: String,
    pub amounts: AmountPair,
}

/// The model of a [`BalanceRow`].
pub struct BalanceRowView {
    pub asset: Text,
    pub amounts: AmountPairView,
}

impl View for BalanceRow {
    type V = BalanceRowView;

    open spec fn view(&self) -> BalanceRowView {
        BalanceRowView { asset: self.asset@, amounts: self.amounts@ }
    }
}

/// What a ledger holds for one asset.
#[derive(Debug)]
pub struct AssetEntry {
    pub asset: String,
    pub terms: Vec<AmountPair>,
}

/// The model of an [`AssetEntry`].
pub struct AssetEntryView {
    pub asset: Text,
    pub terms: Seq<AmountPairView>,
}

impl View for AssetEntry {
    type V = AssetEntryView;

    open spec fn view(&self) -> AssetEntryView {
        AssetEntryView { asset: self.asset@, terms: views_of(self.terms@) }
    }
}

impl Clone for AssetEntry {
    fn clone(&self) -> (r: Self)
        ensures
            r@ == self@,
    {
        let mut terms: Vec<AmountPair> = Vec::new();
        let mut i: usize = 0;
        while i < self.terms.len()
            invariant
                i <= self.terms.len(),
                views_of(terms@) == views_of(self.terms@).take(i as int),
            decreases self.terms.len() - i,
        {
            let ghost head = views_of(terms@);
            terms.push(self.terms[i].clone());
            assert(views_of(terms@) =~= head.push(self.terms@[i as int]@));
            i += 1;
            assert(views_of(terms@) =~= views_of(self.terms@).take(i as int));
        }
        assert(views_of(self.terms@).take(self.terms@.len() as int) =~= views_of(self.terms@));
        AssetEntry { asset: self.asset.clone(), terms }
    }
}

/// The model of a ledger: its entries in the order in which their assets
/// first came.
pub type LedgerView = Seq<AssetEntryView>;

/// Whether no asset has two entries.
pub open spec fn distinct_assets(l: LedgerView) -> bool {
    forall|i: int, j: int| 0 <= i < j < l.len() ==> l[i].asset != l[j].asset
}

/// Whether the ledger has an entry for `asset`.
pub open spec fn holds_asset(l: LedgerView, asset: Text) -> bool {
    exists|i: int| 0 <= i < l.len() && l[i].asset == asset
}

/// The place of the entry for `asset`.
pub open spec fn index_of_asset(l: LedgerView, asset: Text) -> int {
    choose|i: int| 0 <= i < l.len() && l[i].asset == asset
}

/// The amounts that the ledger holds for `asset`; none where it has no entry.
pub open spec fn terms_of(l: LedgerView, asset: Text) -> Seq<AmountPairView> {
    if holds_asset(l, asset) {
        l[index_of_asset(l, asset)].terms
    } else {
        Seq::empty()
    }
}

/// The ledger after one more row: the row's amounts come last for its asset,
/// and an asset that the ledger did not hold gets a new entry at the end.
pub open spec fn with_row(l: LedgerView, row: BalanceRowView) -> LedgerView {
    if holds_asset(l, row.asset) {
        let i = index_of_asset(l, row.asset);
        l.update(i, AssetEntryView { asset: row.asset, terms: l[i].terms.push(row.amounts) })
    } else {
        l.push(AssetEntryView { asset: row.asset, terms: seq![row.amounts] })
    }
}

/// The ledger after the rows of `rows`, one after the other.
pub open spec fn with_rows(l: LedgerView, rows: Seq<BalanceRowView>) -> LedgerView
    decreases rows.len(),
{
    if rows.len() == 0 {
        l
    } else {
        with_row(with_rows(l, rows.drop_last()), rows.last())
    }
}

/// The amounts of the rows for `asset`, in the order of the rows.
pub open spec fn asset_terms(rows: Seq<BalanceRowView>, asset: Text) -> Seq<AmountPairView>
    decreases rows.len(),
{
    if rows.len() == 0 {
        Seq::empty()
    } else if rows.last().asset == asset {
        asset_terms(rows.drop_last(), asset).push(rows.last().amounts)
    } else {
        asset_terms(rows.drop_last(), asset)
    }
}

/// Whether some row is for `asset`.
pub open spec fn names_asset(rows: Seq<BalanceRowView>, asset: Text) -> bool {
    exists|i: int| 0 <= i < rows.len() && rows[i].asset == asset
}

/// In a ledger without two entries for one asset, the entry at `i` is the
/// entry of its asset.
pub proof fn lemma_index_of_asset(l: LedgerView, i: int)
    requires
        distinct_assets(l),
        0 <= i < l.len(),
    ensures
        holds_asset(l, l[i].asset),
        index_of_asset(l, l[i].asset) == i,
{
    let k = index_of_asset(l, l[i].asset);
    assert(0 <= k < l.len() && l[k].asset == l[i].asset);
    if k < i {
        assert(l[k].asset != l[i].asset);
    }
    if i < k {
        assert(l[i].asset != l[k].asset);
    }
}

/// One more row leaves the ledger without two entries for one asset.
pub proof fn lemma_with_row_distinct(l: LedgerView, row: BalanceRowView)
    requires
        distinct_assets(l),
    ensures
        distinct_assets(with_row(l, row)),
{
    let m = with_row(l, row);
    if holds_asset(l, row.asset) {
        let i = index_of_asset(l, row.asset);
        assert forall|a: int, b: int| 0 <= a < b < m.len() implies m[a].asset != m[b].asset by {
            assert(m[a].asset == l[a].asset);
            assert(m[b].asset == l[b].asset);
        }
    } else {
        assert forall|a: int, b: int| 0 <= a < b < m.len() implies m[a].asset != m[b].asset by {
            if b < l.len() {
                assert(m[a].asset == l[a].asset && m[b].asset == l[b].asset);
            } else {
                assert(m[a].asset == l[a].asset);
            }
        }
    }
}

/// One more row adds its amounts after those of its asset and touches no
/// other asset.
pub proof fn lemma_terms_with_row(l: LedgerView, row: BalanceRowView, asset: Text)
    requires
        distinct_assets(l),
    ensures
        terms_of(with_row(l, row), asset) == if asset == row.asset {
            terms_of(l, asset).push(row.amounts)
        } else {
            terms_of(l, asset)
        },
        holds_asset(with_row(l, row), asset) == (holds_asset(l, asset) || asset == row.asset),
{
    let m = with_row(l, row);
    lemma_with_row_distinct(l, row);
    if holds_asset(l, row.asset) {
        let i = index_of_asset(l, row.asset);
        assert(m[i].asset == row.asset);
        lemma_index_of_asset(m, i);
        if asset != row.asset {
            if holds_asset(l, asset) {
                let k = index_of_asset(l, asset);
                assert(m[k] == l[k]);
                lemma_index_of_asset(m, k);
            }
            if holds_asset(m, asset) {
                let k = index_of_asset(m, asset);
                assert(l[k] == m[k]);
                lemma_index_of_asset(l, k);
            }
        }
    } else {
        let i = l.len() as int;
        assert(m[i].asset == row.asset);
        lemma_index_of_asset(m, i);
        if asset == row.asset {
            assert(seq![row.amounts] =~= Seq::<AmountPairView>::empty().push(row.amounts));
        } else {
            if holds_asset(l, asset) {
                let k = index_of_asset(l, asset);
                assert(m[k] == l[k]);
                lemma_index_of_asset(m, k);
            }
            if holds_asset(m, asset) {
                let k = index_of_asset(m, asset);
                assert(l[k] == m[k]);
                lemma_index_of_asset(l, k);
            }
        }
    }
}

/// Rows leave the ledger without two entries for one asset.
pub proof fn lemma_with_rows_distinct(l: LedgerView, rows: Seq<BalanceRowView>)
    requires
        distinct_assets(l),
    ensures
        distinct_assets(with_rows(l, rows)),
    decreases rows.len(),
{
    if rows.len() > 0 {
        lemma_with_rows_distinct(l, rows.drop_last());
        lemma_with_row_distinct(with_rows(l, rows.drop_last()), rows.last());
    }
}

/// After a run of rows an asset holds what it held before, followed by the
/// amounts of its rows in their order; it has an entry exactly if it had one
/// or a row names it.
pub proof fn lemma_terms_with_rows(l: LedgerView, rows: Seq<BalanceRowView>, asset: Text)
    requires
        distinct_assets(l),
    ensures
        terms_of(with_rows(l, rows), asset) == terms_of(l, asset) + asset_terms(rows, asset),
        holds_asset(with_rows(l, rows), asset) == (holds_asset(l, asset) || names_asset(
            rows,
            asset,
        )),
    decreases rows.len(),
{
    if rows.len() == 0 {
        assert(terms_of(l, asset) + asset_terms(rows, asset) =~= terms_of(l, asset));
    } else {
        let head = rows.drop_last();
        let mid = with_rows(l, head);
        lemma_terms_with_rows(l, head, asset);
        lemma_with_rows_distinct(l, head);
        lemma_terms_with_row(mid, rows.last(), asset);
        if rows.last().asset == asset {
            assert((terms_of(l, asset) + asset_terms(head, asset)).push(rows.last().amounts)
                =~= terms_of(l, asset) + asset_terms(rows, asset));
            assert(rows[rows.len() - 1].asset == asset);
        }
        if names_asset(head, asset) {
            let i = choose|i: int| 0 <= i < head.len() && head[i].asset == asset;
            assert(rows[i].asset == asset);
        }
        if names_asset(rows, asset) && rows.last().asset != asset {
            let i = choose|i: int| 0 <= i < rows.len() && rows[i].asset == asset;
            assert(head[i].asset == asset);
        }
    }
}

/// How often a pair of amounts stands among the amounts of an asset is how
/// often the row of that asset and pair stands among the rows.
pub proof fn lemma_asset_terms_count(rows: Seq<BalanceRowView>, asset: Text, pair: AmountPairView)
    ensures
        asset_terms(rows, asset).to_multiset().count(pair) == rows.to_multiset().count(
            BalanceRowView { asset, amounts: pair },
        ),
    decreases rows.len(),
{
    broadcast use vstd::seq_lib::group_to_multiset_ensures;

    if rows.len() > 0 {
        let head = rows.drop_last();
        lemma_asset_terms_count(head, asset, pair);
        assert(rows =~= head.push(rows.last()));
    }
}

/// The ledger does not depend on the order of the rows, read as a ledger of
/// amounts to be summed: two runs of the same rows, in whatever order, give
/// every asset the same amounts as often, and give the same assets an entry.
pub proof fn lemma_ledger_order_free(
    l: LedgerView,
    first: Seq<BalanceRowView>,
    second: Seq<BalanceRowView>,
    asset: Text,
)
    requires
        distinct_assets(l),
        first.to_multiset() == second.to_multiset(),
    ensures
        terms_of(with_rows(l, first), asset).to_multiset() == terms_of(
            with_rows(l, second),
            asset,
        ).to_multiset(),
        holds_asset(with_rows(l, first), asset) == holds_asset(with_rows(l, second), asset),
{
    broadcast use vstd::seq_lib::group_to_multiset_ensures;

    lemma_terms_with_rows(l, first, asset);
    lemma_terms_with_rows(l, second, asset);
    let a = asset_terms(first, asset);
    let b = asset_terms(second, asset);
    assert forall|pair: AmountPairView| a.to_multiset().count(pair) == b.to_multiset().count(
        pair,
    ) by {
        lemma_asset_terms_count(first, asset, pair);
        lemma_asset_terms_count(second, asset, pair);
    }
    assert(a.to_multiset() =~= b.to_multiset());
    vstd::seq_lib::lemma_multiset_commutative(terms_of(l, asset), a);
    vstd::seq_lib::lemma_multiset_commutative(terms_of(l, asset), b);
    if names_asset(first, asset) {
        let i = choose|i: int| 0 <= i < first.len() && first[i].asset == asset;
        assert(first.to_multiset().count(first[i]) > 0);
        assert(second.contains(first[i]));
    }
    if names_asset(second, asset) {
        let i = choose|i: int| 0 <= i < second.len() && second[i].asset == asset;
        assert(second.to_multiset().count(second[i]) > 0);
        assert(first.contains(second[i]));
    }
}

/// The ledger of one exchange.
#[derive(Debug)]
pub struct AssetLedger {
    entries: Vec<AssetEntry>,
}

impl View for AssetLedger {
    type V = LedgerView;

    closed spec fn view(&self) -> LedgerView {
        views_of(self.entries@)
    }
}

impl AssetLedger {
    #[verifier::type_invariant]
    spec fn well_formed(self) -> bool {
        distinct_assets(views_of(self.entries@))
    }

    /// The ledger without entries.
    pub fn new() -> (r: Self)
        ensures
            r@ == Seq::<AssetEntryView>::empty(),
    {
        let r = AssetLedger { entries: Vec::new() };
        assert(views_of(r.entries@) =~= Seq::<AssetEntryView>::empty());
        r
    }

    /// The entries, in the order in which their assets first came. No asset
    /// has two.
    pub fn entries(&self) -> (r: &Vec<AssetEntry>)
        ensures
            views_of(r@) == self@,
            distinct_assets(self@),
    {
        proof {
            use_type_invariant(self);
        }
        &self.entries
    }

    /// Takes one more row.
    pub fn add(&mut self, row: BalanceRow)
        ensures
            final(self)@ == with_row(old(self)@, row@),
    {
        proof {
            use_type_invariant(&*self);
        }
        let ghost before = views_of(self.entries@);
        let mut entries: Vec<AssetEntry> = Vec::new();
        assert(views_of(entries@) =~= Seq::<AssetEntryView>::empty());
        std::mem::swap(&mut entries, &mut self.entries);
        let n = entries.len();
        let mut i: usize = 0;
        while i < n
            invariant
                i <= n,
                n == entries.len(),
                before == views_of(entries@),
                forall|k: int| 0 <= k < i ==> before[k].asset != row.asset@,
            ensures
                i <= n,
                forall|k: int| 0 <= k < i ==> before[k].asset != row.asset@,
                i < n ==> before[i as int].asset == row.asset@,
            decreases n - i,
        {
            if same_text(entries[i].asset.as_str(), row.asset.as_str()) {
                break ;
            }
            i += 1;
        }
        if i < n {
            proof {
                lemma_index_of_asset(before, i as int);
            }
            entries[i].terms.push(row.amounts);
            proof {
                let after = views_of(entries@);
                assert(after[i as int].terms =~= before[i as int].terms.push(row@.amounts));
                assert(after =~= with_row(before, row@));
            }
        } else {
            proof {
                assert(!holds_asset(before, row.asset@));
            }
            let mut terms: Vec<AmountPair> = Vec::new();
            terms.push(row.amounts);
            let entry = AssetEntry { asset: row.asset, terms };
            proof {
                assert(entry@.terms =~= seq![row@.amounts]);
            }
            entries.push(entry);
            proof {
                assert(views_of(entries@) =~= with_row(before, row@));
            }
        }
        proof {
            lemma_with_row_distinct(before, row@);
        }
        std::mem::swap(&mut entries, &mut self.entries);
    }

    /// Takes the rows of `rows`, one after the other.
    pub fn add_all(&mut self, rows: Vec<BalanceRow>)
        ensures
            final(self)@ == with_rows(old(self)@, views_of(rows@)),
    {
        let ghost all = views_of(rows@);
        assert(all.take(0) =~= Seq::<BalanceRowView>::empty());
        for row in it: rows.into_iter()
            invariant
                it.seq() == rows@,
                all == views_of(rows@),
                self@ == with_rows(old(self)@, all.take(it.index())),
        {
            proof {
                let k = it.index();
                assert(all.take(k + 1).drop_last() =~= all.take(k));
                assert(all.take(k + 1).last() == row@);
            }
            self.add(row);
        }
        assert(all.take(all.len() as int) =~= all);
    }
}

} // verus!
