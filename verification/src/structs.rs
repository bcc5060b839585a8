//! The records that the pipeline gives out.

use crate::category::{CategorizedLedger, CategorizedView};
use crate::text::{views_of, Text};
use vstd::prelude::*;

verus! {

/// What is recorded of one attested call.
#[derive(Debug)]
pub struct AttestationMetaStruct {
    pub task_id: String,
    pub report_tx_hash: String,
    pub attestor: String,
    pub base_urls: Vec<String>,
    pub timestamp: u128,
}

/// The model of an [`AttestationMetaStruct`].
pub struct AttestationMetaView {
    pub task_id: Text,
    pub report_tx_hash: Text,
    pub attestor: Text,
    pub base_urls: Seq<Text>,
    pub timestamp: u128,
}

impl View for AttestationMetaStruct {
    type V = AttestationMetaView;

    open spec fn view(&self) -> AttestationMetaView {
        AttestationMetaView {
            task_id: self.task_id@,
            report_tx_hash: self.report_tx_hash@,
            attestor: self.attestor@,
            base_urls: views_of(self.base_urls@),
            timestamp: self.timestamp,
        }
    }
}

/// The record of no call: empty texts, no URL, time zero.
pub open spec fn empty_meta() -> AttestationMetaView {
    AttestationMetaView {
        task_id: Seq::empty(),
        report_tx_hash: Seq::empty(),
        attestor: Seq::empty(),
        base_urls: Seq::empty(),
        timestamp: 0,
    }
}

impl Default for AttestationMetaStruct {
    fn default() -> (r: Self)
        ensures
            r@ == empty_meta(),
    {
        let r = AttestationMetaStruct {
            task_id: String::new(),
            report_tx_hash: String::new(),
            attestor: String::new(),
            base_urls: Vec::new(),
            timestamp: 0,
        };
        assert(views_of(r.base_urls@) =~= Seq::<Text>::empty());
        r
    }
}

/// The categorized ledger of one exchange.
#[derive(Debug)]
pub struct ExchangeBalance {
    pub source: String,
    pub ledger: CategorizedLedger,
}

/// The model of an [`ExchangeBalance`].
pub struct ExchangeBalanceView {
    pub source: Text,
    pub ledger: CategorizedView,
}

impl View for ExchangeBalance {
    type V = ExchangeBalanceView;

    open spec fn view(&self) -> ExchangeBalanceView {
        ExchangeBalanceView { source: self.source@, ledger: self.ledger@ }
    }
}

/// The public record of one run.
///
/// `status` is zero after a run without failure and the number of the
/// failure's code otherwise. `asset_balance` holds one summary for each
/// exchange that was completed, in the order of their completion.
#[derive(Debug)]
pub struct PublicValuesStruct {
    pub kind: String,
    pub version: String,
    pub project_id: String,
    pub attestation_meta: Vec<AttestationMetaStruct>,
    pub asset_balance: Vec<ExchangeBalance>,
    pub status: i16,
}

/// The model of a [`PublicValuesStruct`].
pub struct PublicValuesView {
    pub kind: Text,
    pub version: Text,
    pub project_id: Text,
    pub attestation_meta: Seq<AttestationMetaView>,
    pub asset_balance: Seq<ExchangeBalanceView>,
    pub status: i16,
}

impl View for PublicValuesStruct {
    type V = PublicValuesView;

    open spec fn view(&self) -> PublicValuesView {
        PublicValuesView {
            kind: self.kind@,
            version: self.version@,
            project_id: self.project_id@,
            attestation_meta: views_of(self.attestation_meta@),
            asset_balance: views_of(self.asset_balance@),
            status: self.status,
        }
    }
}

/// The record before anything is known: empty texts, no call, no summary,
/// status zero.
pub open spec fn empty_record() -> PublicValuesView {
    PublicValuesView {
        kind: Seq::empty(),
        version: Seq::empty(),
        project_id: Seq::empty(),
        attestation_meta: Seq::empty(),
        asset_balance: Seq::empty(),
        status: 0,
    }
}

impl Default for PublicValuesStruct {
    fn default() -> (r: Self)
        ensures
            r@ == empty_record(),
    {
        let r = PublicValuesStruct {
            kind: String::new(),
            version: String::new(),
            project_id: String::new(),
            attestation_meta: Vec::new(),
            asset_balance: Vec::new(),
            status: 0,
        };
        assert(views_of(r.attestation_meta@) =~= Seq::<AttestationMetaView>::empty());
        assert(views_of(r.asset_balance@) =~= Seq::<ExchangeBalanceView>::empty());
        r
    }
}

} // verus!
