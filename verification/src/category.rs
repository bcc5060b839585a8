//! The split of a ledger into the stablecoin bucket and the other assets.

use crate::ledger::{AssetEntry, AssetEntryView, AssetLedger, LedgerView};
use crate::text::{same_text, views_of, Text};
use vstd::prelude::*;

verus! {

/// The key under which the stablecoin total stands in a summary.
pub const STABLECOIN_KEY: &'static str = "STABLECOIN";

/// The reserved key as a text.
pub open spec fn reserved_key() -> Text {
    "STABLECOIN"@
}

/// The symbols that count as stablecoins where no other list is given.
pub open spec fn default_stable_coins() -> Seq<Text> {
    seq![
        "USDT"@,
        "USDC"@,
        "FDUSD"@,
        "TUSD"@,
        "USDE"@,
        "XUSD"@,
        "USD1"@,
        "BFUSD"@,
        "USDP"@,
        "DAI"@,
        "USDF"@,
    ]
}

/// The symbols that count as stablecoins where no other list is given.
pub fn stable_coins() -> (r: Vec<String>)
    ensures
        views_of(r@) == default_stable_coins(),
{
    let mut r: Vec<String> = Vec::new();
    r.push("USDT".to_string());
    r.push("USDC".to_string());
    r.push("FDUSD".to_string());
    r.push("TUSD".to_string());
    r.push("USDE".to_string());
    r.push("XUSD".to_string());
    r.push("USD1".to_string());
    r.push("BFUSD".to_string());
    r.push("USDP".to_string());
    r.push("DAI".to_string());
    r.push("USDF".to_string());
    assert(views_of(r@) =~= default_stable_coins());
    r
}

/// Whether `text` is one of `list`.
pub fn contains_text(list: &Vec<String>, text: &str) -> (r: bool)
    ensures
        r == views_of(list@).contains(text@),
{
    let mut i: usize = 0;
    while i < list.len()
        invariant
            i <= list.len(),
            forall|k: int| 0 <= k < i ==> views_of(list@)[k] != text@,
        decreases list.len() - i,
    {
        if same_text(list[i].as_str(), text) {
            assert(views_of(list@)[i as int] == text@);
            return true;
        }
        i += 1;
    }
    false
}

/// The entries whose asset is one of `stable`.
pub open spec fn in_bucket(stable: Seq<Text>) -> spec_fn(AssetEntryView) -> bool {
    |e: AssetEntryView| stable.contains(e.asset)
}

/// The entries whose asset is none of `stable` and not the reserved key.
pub open spec fn on_its_own(stable: Seq<Text>) -> spec_fn(AssetEntryView) -> bool {
    |e: AssetEntryView| !stable.contains(e.asset) && e.asset != reserved_key()
}

/// A ledger split for the summary.
///
/// The stablecoin total is the sum of the balances of `stablecoin`, entry by
/// entry, and stands in the summary under the reserved key. Each entry of
/// `assets` stands under its own symbol.
#[derive(Debug)]
pub struct CategorizedLedger {
    pub stablecoin: Vec<AssetEntry>,
    pub assets: Vec<AssetEntry>,
}

/// The model of a [`CategorizedLedger`].
pub struct CategorizedView {
    pub stablecoin: Seq<AssetEntryView>,
    pub assets: Seq<AssetEntryView>,
}

impl View for CategorizedLedger {
    type V = CategorizedView;

    open spec fn view(&self) -> CategorizedView {
        CategorizedView {
            stablecoin: views_of(self.stablecoin@),
            assets: views_of(self.assets@),
        }
    }
}

/// The split of `l`: the stablecoin entries in the order of the ledger, and
/// the other entries in that order, without an entry that bears the reserved
/// key.
pub open spec fn categorized(l: LedgerView, stable: Seq<Text>) -> CategorizedView {
    CategorizedView {
        stablecoin: l.filter(in_bucket(stable)),
        assets: l.filter(on_its_own(stable)),
    }
}

/// Every entry of the ledger stands in exactly one part of the split, but
/// for an entry under the reserved key that is no stablecoin, which stands
/// in none; and the parts hold nothing else.
pub proof fn lemma_categorized_partition(l: LedgerView, stable: Seq<Text>, e: AssetEntryView)
    ensures
        categorized(l, stable).stablecoin.contains(e) <==> l.contains(e) && stable.contains(
            e.asset,
        ),
        categorized(l, stable).assets.contains(e) <==> l.contains(e) && !stable.contains(e.asset)
            && e.asset != reserved_key(),
{
    let a = l.filter(in_bucket(stable));
    let b = l.filter(on_its_own(stable));
    if a.contains(e) {
        let i = choose|i: int| 0 <= i < a.len() && a[i] == e;
        l.lemma_filter_pred(in_bucket(stable), i);
        l.lemma_filter_contains_rev(in_bucket(stable), e);
    }
    if b.contains(e) {
        let i = choose|i: int| 0 <= i < b.len() && b[i] == e;
        l.lemma_filter_pred(on_its_own(stable), i);
        l.lemma_filter_contains_rev(on_its_own(stable), e);
    }
    if l.contains(e) {
        let i = choose|i: int| 0 <= i < l.len() && l[i] == e;
        if stable.contains(e.asset) {
            l.lemma_filter_contains(in_bucket(stable), i);
        }
        if !stable.contains(e.asset) && e.asset != reserved_key() {
            l.lemma_filter_contains(on_its_own(stable), i);
        }
    }
}

/// Splits a ledger into the stablecoin bucket and the other assets.
pub fn categorize(ledger: &AssetLedger, stable: &Vec<String>) -> (r: CategorizedLedger)
    ensures
        r@ == categorized(ledger@, views_of(stable@)),
{
    let entries = ledger.entries();
    let ghost l = views_of(entries@);
    let ghost names = views_of(stable@);
    let mut stablecoin: Vec<AssetEntry> = Vec::new();
    let mut assets: Vec<AssetEntry> = Vec::new();
    let mut i: usize = 0;
    proof {
        assert(l.take(0) =~= Seq::<AssetEntryView>::empty());
        reveal(Seq::filter);
        assert(views_of(stablecoin@) =~= l.take(0).filter(in_bucket(names)));
        assert(views_of(assets@) =~= l.take(0).filter(on_its_own(names)));
    }
    while i < entries.len()
        invariant
            i <= entries.len(),
            l == views_of(entries@),
            names == views_of(stable@),
            views_of(stablecoin@) == l.take(i as int).filter(in_bucket(names)),
            views_of(assets@) == l.take(i as int).filter(on_its_own(names)),
        decreases entries.len() - i,
    {
        let entry = &entries[i];
        proof {
            let head = l.take(i as int);
            assert(l.take(i + 1) =~= head.push(l[i as int]));
            head.lemma_filter_push(l[i as int], in_bucket(names));
            head.lemma_filter_push(l[i as int], on_its_own(names));
        }
        if contains_text(stable, entry.asset.as_str()) {
            stablecoin.push(entry.clone());
            assert(views_of(stablecoin@) =~= l.take(i as int).filter(in_bucket(names)).push(
                l[i as int],
            ));
        } else if !same_text(entry.asset.as_str(), STABLECOIN_KEY) {
            assets.push(entry.clone());
            assert(views_of(assets@) =~= l.take(i as int).filter(on_its_own(names)).push(
                l[i as int],
            ));
        }
        i += 1;
    }
    assert(l.take(entries@.len() as int) =~= l);
    CategorizedLedger { stablecoin, assets }
}

} // verus!
