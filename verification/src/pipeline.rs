//! The assembly of the public record: the metadata first, then the
//! exchanges in their order, each with its products in their order, up to
//! the first failure.

use crate::call::call_outcome;
use crate::category::{categorize, categorized, default_stable_coins, stable_coins};
use crate::errors::{Failure, ZkErrorCode, ZktlsError};
use crate::fields::{Verification, VerificationView};
use crate::ledger::{with_rows, AssetLedger, LedgerView};
use crate::meta::{json_string_map, project_id_of, read_project_id};
use crate::processors::{process_call, recorded};
use crate::product::{product_key, standard_rule, Product};
use crate::structs::{
    empty_meta,
    AttestationMetaStruct,
    AttestationMetaView,
    ExchangeBalance,
    ExchangeBalanceView,
    PublicValuesStruct,
    PublicValuesView,
};
use crate::text::{lemma_views_push, same_text, views_of, Text};
use vstd::prelude::*;

verus! {

/// The kind of the record.
pub const RECORD_KIND: &'static str = "asset-balance";

/// The version of the record.
pub const RECORD_VERSION: &'static str = "0.1.0";

/// The key of the input under which the metadata of a run stands, beside
/// the keys of the products.
pub const META_KEY: &'static str = "__meta__";

/// The name of the first exchange.
pub const BINANCE: &'static str = "binance";

/// The name of the second exchange.
pub const ASTER: &'static str = "aster";

/// The attestation of one product, under the product's key.
#[derive(Debug)]
pub struct AttestationEntry {
    pub key: String,
    pub attestation: Verification,
}

/// The model of an [`AttestationEntry`].
pub struct AttestationEntryView {
    pub key: Text,
    pub attestation: VerificationView,
}

impl View for AttestationEntry {
    type V = AttestationEntryView;

    open spec fn view(&self) -> AttestationEntryView {
        AttestationEntryView { key: self.key@, attestation: self.attestation@ }
    }
}

/// Whether the configuration of the verifier could be read.
#[derive(Debug)]
pub enum ConfigReading {
    Parsed,
    Malformed(String),
}

/// The model of a [`ConfigReading`].
pub enum ConfigReadingView {
    Parsed,
    Malformed(Text),
}

impl View for ConfigReading {
    type V = ConfigReadingView;

    open spec fn view(&self) -> ConfigReadingView {
        match self {
            ConfigReading::Parsed => ConfigReadingView::Parsed,
            ConfigReading::Malformed(reason) => ConfigReadingView::Malformed(reason@),
        }
    }
}

/// The model of metadata that may be missing.
pub open spec fn meta_view(meta: Option<String>) -> Option<Text> {
    match meta {
        Some(text) => Some(text@),
        None => None,
    }
}

/// What one run is given: the metadata, if there is any, whether the
/// configuration could be read, and what the verifier said of each
/// attestation.
#[derive(Debug)]
pub struct PipelineInput {
    pub meta: Option<String>,
    pub config: ConfigReading,
    pub attestations: Vec<AttestationEntry>,
}

/// The model of a [`PipelineInput`].
pub struct PipelineInputView {
    pub meta: Option<Text>,
    pub config: ConfigReadingView,
    pub attestations: Seq<AttestationEntryView>,
}

impl View for PipelineInput {
    type V = PipelineInputView;

    open spec fn view(&self) -> PipelineInputView {
        PipelineInputView {
            meta: meta_view(self.meta),
            config: self.config@,
            attestations: views_of(self.attestations@),
        }
    }
}

/// The first attestation under `key`.
pub open spec fn attestation_of(entries: Seq<AttestationEntryView>, key: Text) -> Option<
    VerificationView,
>
    decreases entries.len(),
{
    if entries.len() == 0 {
        None
    } else if entries[0].key == key {
        Some(entries[0].attestation)
    } else {
        attestation_of(entries.drop_first(), key)
    }
}

/// Looks up the first attestation under `key`.
pub fn find_attestation<'a>(entries: &'a Vec<AttestationEntry>, key: &str) -> (r: Option<
    &'a Verification,
>)
    ensures
        match attestation_of(views_of(entries@), key@) {
            Some(attestation) => r matches Some(found) && found@ == attestation,
            None => r is None,
        },
{
    let ghost all = views_of(entries@);
    let mut i: usize = 0;
    assert(all.skip(0) =~= all);
    while i < entries.len()
        invariant
            i <= entries.len(),
            all == views_of(entries@),
            attestation_of(all, key@) == attestation_of(all.skip(i as int), key@),
        decreases entries.len() - i,
    {
        assert(all.skip(i as int)[0] == entries@[i as int]@);
        if same_text(entries[i].key.as_str(), key) {
            return Some(&entries[i].attestation);
        }
        assert(all.skip(i as int).drop_first() =~= all.skip(i + 1));
        i += 1;
    }
    None
}

/// The products of the first exchange, in the order in which they are
/// processed.
pub open spec fn binance_products() -> Seq<Product> {
    seq![Product::BinanceSpot, Product::BinanceFuture, Product::BinanceUnified]
}

/// The products of the second exchange, in the order in which they are
/// processed.
pub open spec fn aster_products() -> Seq<Product> {
    seq![Product::AsterSpot, Product::AsterFuture]
}

/// How far the products of one exchange were processed: the records of the
/// calls that were read, the ledger of their rows, and the failure that
/// ended the run, if one did.
pub struct ExchangeRun {
    pub metas: Seq<AttestationMetaView>,
    pub ledger: LedgerView,
    pub failure: Option<Failure>,
}

/// The run after one more product. After a failure nothing is processed. A
/// product without attestation is passed over. A call that is read adds its
/// record and its rows; one that is refused ends the run.
pub open spec fn product_step(
    run: ExchangeRun,
    entries: Seq<AttestationEntryView>,
    product: Product,
) -> ExchangeRun {
    if run.failure is Some {
        run
    } else {
        match attestation_of(entries, product_key(product)) {
            None => run,
            Some(attestation) => match call_outcome(standard_rule(product), attestation) {
                Err(failure) => ExchangeRun {
                    metas: run.metas,
                    ledger: run.ledger,
                    failure: Some(failure),
                },
                Ok(reading) => ExchangeRun {
                    metas: run.metas.push(
                        recorded(
                            empty_meta(),
                            standard_rule(product),
                            attestation->Verified_0,
                            reading,
                        ),
                    ),
                    ledger: with_rows(run.ledger, reading.rows),
                    failure: None,
                },
            },
        }
    }
}

/// The run of the products of one exchange, in their order, from an empty
/// ledger.
pub open spec fn exchange_run(entries: Seq<AttestationEntryView>, products: Seq<Product>) -> ExchangeRun
    decreases products.len(),
{
    if products.len() == 0 {
        ExchangeRun { metas: Seq::empty(), ledger: Seq::empty(), failure: None }
    } else {
        product_step(exchange_run(entries, products.drop_last()), entries, products.last())
    }
}

/// The record after the run of one exchange: the records of its calls come
/// after those that the record held and, if the run did not fail, the split
/// ledger of the exchange comes after the summaries that the record held.
pub open spec fn record_after_exchange(
    before: PublicValuesView,
    source: Text,
    run: ExchangeRun,
    stable: Seq<Text>,
) -> PublicValuesView {
    PublicValuesView {
        kind: before.kind,
        version: before.version,
        project_id: before.project_id,
        attestation_meta: before.attestation_meta + run.metas,
        asset_balance: if run.failure is None {
            before.asset_balance.push(
                ExchangeBalanceView { source, ledger: categorized(run.ledger, stable) },
            )
        } else {
            before.asset_balance
        },
        status: before.status,
    }
}

/// Whether a result tells the failure of a run, and success where there is
/// none.
pub open spec fn tells(r: Result<(), ZktlsError>, failure: Option<Failure>) -> bool {
    match failure {
        None => r is Ok,
        Some(f) => r matches Err(e) && e@ == f,
    }
}

/// Processes the products of one exchange and, if none fails, adds the
/// split ledger of the exchange to the record.
pub fn process_exchange(
    pv: &mut PublicValuesStruct,
    attestations: &Vec<AttestationEntry>,
    source: &str,
    products: &Vec<Product>,
    stable: &Vec<String>,
) -> (r: Result<(), ZktlsError>)
    ensures
        final(pv)@ == record_after_exchange(
            old(pv)@,
            source@,
            exchange_run(views_of(attestations@), products@),
            views_of(stable@),
        ),
        tells(r, exchange_run(views_of(attestations@), products@).failure),
{
    let ghost entries = views_of(attestations@);
    let ghost before = pv@;
    let mut asset_bals = AssetLedger::new();
    let mut i: usize = 0;
    proof {
        assert(products@.take(0) =~= Seq::<Product>::empty());
        assert(before.attestation_meta + Seq::<AttestationMetaView>::empty()
            =~= before.attestation_meta);
    }
    while i < products.len()
        invariant
            i <= products.len(),
            entries == views_of(attestations@),
            before == old(pv)@,
            exchange_run(entries, products@.take(i as int)).failure is None,
            asset_bals@ == exchange_run(entries, products@.take(i as int)).ledger,
            pv@ == (PublicValuesView {
                attestation_meta: before.attestation_meta + exchange_run(
                    entries,
                    products@.take(i as int),
                ).metas,
                ..before
            }),
        decreases products.len() - i,
    {
        let product = products[i];
        let ghost so_far = exchange_run(entries, products@.take(i as int));
        proof {
            assert(products@.take(i + 1).drop_last() =~= products@.take(i as int));
            assert(products@.take(i + 1).last() == product);
        }
        match find_attestation(attestations, product.key()) {
            None => {},
            Some(attestation) => {
                let mut meta = AttestationMetaStruct::default();
                match process_call(&product.rule(), &mut meta, attestation, &mut asset_bals) {
                    Ok(()) => {
                        proof {
                            lemma_views_push(pv.attestation_meta@, meta);
                            assert((before.attestation_meta + so_far.metas).push(meta@)
                                =~= before.attestation_meta + so_far.metas.push(meta@));
                        }
                        pv.attestation_meta.push(meta);
                    },
                    Err(e) => {
                        proof {
                            lemma_run_stays_failed(entries, products@, i + 1);
                            assert(products@.take(products@.len() as int) =~= products@);
                        }
                        return Err(e);
                    },
                }
            },
        }
        i += 1;
    }
    proof {
        assert(products@.take(products@.len() as int) =~= products@);
    }
    let ledger = categorize(&asset_bals, stable);
    let balance = ExchangeBalance { source: source.to_string(), ledger };
    proof {
        lemma_views_push(pv.asset_balance@, balance);
    }
    pv.asset_balance.push(balance);
    Ok(())
}

/// A run that has failed after some of the products is the run after all of
/// them.
pub proof fn lemma_run_stays_failed(
    entries: Seq<AttestationEntryView>,
    products: Seq<Product>,
    n: int,
)
    requires
        0 <= n <= products.len(),
        exchange_run(entries, products.take(n)).failure is Some,
    ensures
        exchange_run(entries, products) == exchange_run(entries, products.take(n)),
    decreases products.len() - n,
{
    if n == products.len() {
        assert(products.take(n) =~= products);
    } else {
        assert(products.take(n + 1).drop_last() =~= products.take(n));
        lemma_run_stays_failed(entries, products, n + 1);
    }
}

/// The record with the project that the metadata names, or why the
/// metadata names none. Without metadata the record stays as it is.
pub open spec fn record_with_meta(before: PublicValuesView, meta: Option<Text>) -> Result<
    PublicValuesView,
    Failure,
> {
    match meta {
        None => Ok(before),
        Some(text) => match project_id_of(json_string_map(text)) {
            Err(failure) => Err(failure),
            Ok(id) => Ok(
                PublicValuesView {
                    kind: before.kind,
                    version: before.version,
                    project_id: id,
                    attestation_meta: before.attestation_meta,
                    asset_balance: before.asset_balance,
                    status: before.status,
                },
            ),
        },
    }
}

/// Sets the project of the record from the metadata of the run, if the run
/// has any. After a failure the record is as it was.
pub fn set_meta(pv: &mut PublicValuesStruct, input: &PipelineInput) -> (r: Result<(), ZktlsError>)
    ensures
        match record_with_meta(old(pv)@, input@.meta) {
            Ok(record) => r is Ok && final(pv)@ == record,
            Err(failure) => r matches Err(e) && e@ == failure && final(pv)@ == old(pv)@,
        },
{
    match &input.meta {
        None => Ok(()),
        Some(text) => match read_project_id(text.as_str()) {
            Ok(id) => {
                pv.project_id = id;
                Ok(())
            },
            Err(e) => Err(e),
        },
    }
}

/// The products of the first exchange, in the order in which they are
/// processed.
pub fn binance_product_list() -> (r: Vec<Product>)
    ensures
        r@ == binance_products(),
{
    let mut r: Vec<Product> = Vec::new();
    r.push(Product::BinanceSpot);
    r.push(Product::BinanceFuture);
    r.push(Product::BinanceUnified);
    assert(r@ =~= binance_products());
    r
}

/// The products of the second exchange, in the order in which they are
/// processed.
pub fn aster_product_list() -> (r: Vec<Product>)
    ensures
        r@ == aster_products(),
{
    let mut r: Vec<Product> = Vec::new();
    r.push(Product::AsterSpot);
    r.push(Product::AsterFuture);
    assert(r@ =~= aster_products());
    r
}

/// Processes the spot, futures and unified accounts of the first exchange,
/// in that order and as far as they are attested, and adds its summary to
/// the record.
pub fn app_binance(pv: &mut PublicValuesStruct, attestations: &Vec<AttestationEntry>) -> (r: Result<
    (),
    ZktlsError,
>)
    ensures
        final(pv)@ == record_after_exchange(
            old(pv)@,
            BINANCE@,
            exchange_run(views_of(attestations@), binance_products()),
            default_stable_coins(),
        ),
        tells(r, exchange_run(views_of(attestations@), binance_products()).failure),
{
    process_exchange(pv, attestations, BINANCE, &binance_product_list(), &stable_coins())
}

/// Processes the spot and futures accounts of the second exchange, in that
/// order and as far as they are attested, and adds its summary to the
/// record.
pub fn app_aster(pv: &mut PublicValuesStruct, attestations: &Vec<AttestationEntry>) -> (r: Result<
    (),
    ZktlsError,
>)
    ensures
        final(pv)@ == record_after_exchange(
            old(pv)@,
            ASTER@,
            exchange_run(views_of(attestations@), aster_products()),
            default_stable_coins(),
        ),
        tells(r, exchange_run(views_of(attestations@), aster_products()).failure),
{
    process_exchange(pv, attestations, ASTER, &aster_product_list(), &stable_coins())
}

/// A record together with the failure that ended the run, if one did.
pub struct PipelineEnd {
    pub record: PublicValuesView,
    pub failure: Option<Failure>,
}

/// Where a run ends: the metadata is read first, then the configuration
/// must have been read, then the first exchange is processed, then the
/// second. The first failure ends the run and leaves the record as far as
/// it had come.
pub open spec fn pipeline_end(before: PublicValuesView, input: PipelineInputView) -> PipelineEnd {
    match record_with_meta(before, input.meta) {
        Err(failure) => PipelineEnd { record: before, failure: Some(failure) },
        Ok(named) => match input.config {
            ConfigReadingView::Malformed(reason) => PipelineEnd {
                record: named,
                failure: Some(Failure { code: ZkErrorCode::ParseConfigData, msg: reason }),
            },
            ConfigReadingView::Parsed => {
                let first = exchange_run(input.attestations, binance_products());
                let after_first = record_after_exchange(
                    named,
                    BINANCE@,
                    first,
                    default_stable_coins(),
                );
                if first.failure is Some {
                    PipelineEnd { record: after_first, failure: first.failure }
                } else {
                    let second = exchange_run(input.attestations, aster_products());
                    PipelineEnd {
                        record: record_after_exchange(
                            after_first,
                            ASTER@,
                            second,
                            default_stable_coins(),
                        ),
                        failure: second.failure,
                    }
                }
            },
        },
    }
}

/// Runs the pipeline on a record.
pub fn app_main(pv: &mut PublicValuesStruct, input: &PipelineInput) -> (r: Result<(), ZktlsError>)
    ensures
        final(pv)@ == pipeline_end(old(pv)@, input@).record,
        tells(r, pipeline_end(old(pv)@, input@).failure),
{
    match set_meta(pv, input) {
        Ok(()) => {},
        Err(e) => {
            return Err(e);
        },
    }
    match &input.config {
        ConfigReading::Parsed => {},
        ConfigReading::Malformed(reason) => {
            return Err(ZktlsError::new(ZkErrorCode::ParseConfigData, reason.clone()));
        },
    }
    match app_binance(pv, &input.attestations) {
        Ok(()) => {},
        Err(e) => {
            return Err(e);
        },
    }
    app_aster(pv, &input.attestations)
}

/// The record from which a run starts: kind and version are set, all else
/// is empty, the status is zero.
pub open spec fn starting_record() -> PublicValuesView {
    PublicValuesView {
        kind: RECORD_KIND@,
        version: RECORD_VERSION@,
        project_id: Seq::empty(),
        attestation_meta: Seq::empty(),
        asset_balance: Seq::empty(),
        status: 0,
    }
}

/// The record of a run: the pipeline is run from the starting record, and
/// the status is zero or the number of the failure's code.
pub open spec fn public_record(input: PipelineInputView) -> PublicValuesView {
    let end = pipeline_end(starting_record(), input);
    PublicValuesView {
        kind: end.record.kind,
        version: end.record.version,
        project_id: end.record.project_id,
        attestation_meta: end.record.attestation_meta,
        asset_balance: end.record.asset_balance,
        status: match end.failure {
            None => 0,
            Some(failure) => failure.code.number() as i16,
        },
    }
}

/// A run as it ended: the public record, and the error that ended it, if
/// one did.
#[derive(Debug)]
pub struct RunReport {
    pub record: PublicValuesStruct,
    pub failure: Option<ZktlsError>,
}

/// The model of an error that may be missing.
pub open spec fn failure_view(failure: Option<ZktlsError>) -> Option<Failure> {
    match failure {
        Some(e) => Some(e@),
        None => None,
    }
}

/// Runs the pipeline from the starting record. A failure does not end the
/// function: its number stands in the status of the record, and the error
/// is handed out beside the record.
pub fn run(input: &PipelineInput) -> (report: RunReport)
    ensures
        report.record@ == public_record(input@),
        failure_view(report.failure) == pipeline_end(starting_record(), input@).failure,
{
    let mut pv = PublicValuesStruct::default();
    pv.kind = RECORD_KIND.to_string();
    pv.version = RECORD_VERSION.to_string();
    match app_main(&mut pv, input) {
        Ok(()) => RunReport { record: pv, failure: None },
        Err(e) => {
            pv.status = e.icode();
            RunReport { record: pv, failure: Some(e) }
        },
    }
}

/// Builds the public record of one run.
pub fn public_values(input: &PipelineInput) -> (pv: PublicValuesStruct)
    ensures
        pv@ == public_record(input@),
{
    run(input).record
}

} // verus!
