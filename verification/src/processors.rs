//! The processors of the account products: each reads one attested call,
//! records it and adds its balance rows to the ledger of the exchange.

use crate::call::{call_outcome, read_call, CallReadingView};
use crate::errors::{ZkErrorCode, ZktlsError};
use crate::fields::{AttestedCallView, Verification, VerificationView};
use crate::ledger::{with_rows, AssetLedger, LedgerView};
use crate::product::{rule_endpoints, standard_rule, Product, ProductRule, RuleView};
use crate::structs::{AttestationMetaStruct, AttestationMetaView};
use crate::text::lemma_views_add;
use vstd::prelude::*;

verus! {

/// The record of a call that was read: who attested it, the endpoints of
/// the rule after the URLs that the record held, and the earliest time of
/// its requests.
pub open spec fn recorded(
    before: AttestationMetaView,
    rule: RuleView,
    call: AttestedCallView,
    reading: CallReadingView,
) -> AttestationMetaView {
    AttestationMetaView {
        task_id: call.task_id,
        report_tx_hash: call.report_tx_hash,
        attestor: call.attestor,
        base_urls: before.base_urls + rule_endpoints(rule),
        timestamp: reading.timestamp,
    }
}

/// Whether a processor did what the outcome of the attestation asks for.
///
/// After a call that was read, the record is that of the call and the
/// ledger holds its rows after what it held. After a failure the result is
/// the error of the failure, and the record and the ledger are as they
/// were.
pub open spec fn processed(
    rule: RuleView,
    attestation: VerificationView,
    meta_before: AttestationMetaView,
    meta_after: AttestationMetaView,
    ledger_before: LedgerView,
    ledger_after: LedgerView,
    r: Result<(), ZktlsError>,
) -> bool {
    match call_outcome(rule, attestation) {
        Ok(reading) => {
            &&& r is Ok
            &&& attestation matches VerificationView::Verified(call)
            &&& meta_after == recorded(meta_before, rule, call, reading)
            &&& ledger_after == with_rows(ledger_before, reading.rows)
        },
        Err(failure) => {
            &&& r matches Err(e)
            &&& e@ == failure
            &&& meta_after == meta_before
            &&& ledger_after == ledger_before
        },
    }
}

/// Processes the attestation of one call under `rule`.
pub fn process_call(
    rule: &ProductRule,
    pv: &mut AttestationMetaStruct,
    attestation: &Verification,
    asset_bals: &mut AssetLedger,
) -> (r: Result<(), ZktlsError>)
    ensures
        processed(
            rule@,
            attestation@,
            old(pv)@,
            final(pv)@,
            old(asset_bals)@,
            final(asset_bals)@,
            r,
        ),
{
    let call = match attestation {
        Verification::Rejected(reason) => {
            return Err(ZktlsError::new(ZkErrorCode::VerifyAttestation, reason.clone()));
        },
        Verification::Verified(call) => call,
    };
    let reading = match read_call(rule, call) {
        Ok(reading) => reading,
        Err(e) => {
            return Err(e);
        },
    };
    pv.task_id = call.task_id.clone();
    pv.report_tx_hash = call.report_tx_hash.clone();
    pv.attestor = call.attestor.clone();
    let mut urls = rule.endpoints();
    proof {
        lemma_views_add(pv.base_urls@, urls@);
    }
    pv.base_urls.append(&mut urls);
    pv.timestamp = reading.timestamp;
    asset_bals.add_all(reading.rows);
    Ok(())
}

/// Processes the attestation of a Binance spot account.
pub fn app_binance_spot(
    pv: &mut AttestationMetaStruct,
    attestation: &Verification,
    asset_bals: &mut AssetLedger,
) -> (r: Result<(), ZktlsError>)
    ensures
        processed(
            standard_rule(Product::BinanceSpot),
            attestation@,
            old(pv)@,
            final(pv)@,
            old(asset_bals)@,
            final(asset_bals)@,
            r,
        ),
{
    process_call(&Product::BinanceSpot.rule(), pv, attestation, asset_bals)
}

/// Processes the attestation of a spot account.
pub fn app_spot(
    pv: &mut AttestationMetaStruct,
    attestation: &Verification,
    asset_bals: &mut AssetLedger,
) -> (r: Result<(), ZktlsError>)
    ensures
        processed(
            standard_rule(Product::BinanceSpot),
            attestation@,
            old(pv)@,
            final(pv)@,
            old(asset_bals)@,
            final(asset_bals)@,
            r,
        ),
{
    app_binance_spot(pv, attestation, asset_bals)
}

/// Processes the attestation of a Binance futures account.
pub fn app_binance_future(
    pv: &mut AttestationMetaStruct,
    attestation: &Verification,
    asset_bals: &mut AssetLedger,
) -> (r: Result<(), ZktlsError>)
    ensures
        processed(
            standard_rule(Product::BinanceFuture),
            attestation@,
            old(pv)@,
            final(pv)@,
            old(asset_bals)@,
            final(asset_bals)@,
            r,
        ),
{
    process_call(&Product::BinanceFuture.rule(), pv, attestation, asset_bals)
}

/// Processes the attestation of a Binance unified account.
pub fn app_binance_unified(
    pv: &mut AttestationMetaStruct,
    attestation: &Verification,
    asset_bals: &mut AssetLedger,
) -> (r: Result<(), ZktlsError>)
    ensures
        processed(
            standard_rule(Product::BinanceUnified),
            attestation@,
            old(pv)@,
            final(pv)@,
            old(asset_bals)@,
            final(asset_bals)@,
            r,
        ),
{
    process_call(&Product::BinanceUnified.rule(), pv, attestation, asset_bals)
}

/// Processes the attestation of an Aster spot account.
pub fn app_aster_spot(
    pv: &mut AttestationMetaStruct,
    attestation: &Verification,
    asset_bals: &mut AssetLedger,
) -> (r: Result<(), ZktlsError>)
    ensures
        processed(
            standard_rule(Product::AsterSpot),
            attestation@,
            old(pv)@,
            final(pv)@,
            old(asset_bals)@,
            final(asset_bals)@,
            r,
        ),
{
    process_call(&Product::AsterSpot.rule(), pv, attestation, asset_bals)
}

/// Processes the attestation of an Aster futures account.
pub fn app_aster_future(
    pv: &mut AttestationMetaStruct,
    attestation: &Verification,
    asset_bals: &mut AssetLedger,
) -> (r: Result<(), ZktlsError>)
    ensures
        processed(
            standard_rule(Product::AsterFuture),
            attestation@,
            old(pv)@,
            final(pv)@,
            old(asset_bals)@,
            final(asset_bals)@,
            r,
        ),
{
    process_call(&Product::AsterFuture.rule(), pv, attestation, asset_bals)
}

} // verus!
