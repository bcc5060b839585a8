use asset_balance::errors::ZkErrorCode;
use asset_balance::fields::{
    extract, AttestedCall, FieldQuery, FieldValue, MessageFields, Verification,
};
use asset_balance::meta::{find_member, read_project_id, resolve_project_id, StringMap};
use asset_balance::pipeline::{
    app_aster, app_binance, app_main, find_attestation, public_values, run, set_meta,
    AttestationEntry, ConfigReading, PipelineInput, META_KEY,
};
use asset_balance::product::{
    Product, ASTER_FEATURE_BALANCE_URL, ASTER_SPOT_BALANCE_URL, BALANCE_URL, FEATURE_BALANCE_URL,
    RISK_URL, SPOT_BALANCE_URL,
};
use asset_balance::structs::{AttestationMetaStruct, PublicValuesStruct};
use asset_balance::text::unquote;

fn field(text: &str) -> FieldValue {
    let number = unquote(text).parse::<f64>().unwrap_or(0.0);
    FieldValue { text: text.to_string(), number: format!("{}", number) }
}

fn answer(texts: &[&str]) -> FieldQuery {
    FieldQuery::Found(texts.iter().map(|t| field(t)).collect())
}

fn one_call(endpoint: &str, task: &str, identity: &[&str], balances: &[&str]) -> Verification {
    Verification::Verified(AttestedCall {
        task_id: task.to_string(),
        report_tx_hash: format!("0x{}", task),
        attestor: "0xattestor".to_string(),
        requests: vec![format!("{}?timestamp=100", endpoint)],
        messages: vec![MessageFields { identity: answer(identity), balances: answer(balances) }],
    })
}

fn unified_call(task: &str) -> Verification {
    Verification::Verified(AttestedCall {
        task_id: task.to_string(),
        report_tx_hash: format!("0x{}", task),
        attestor: "0xattestor".to_string(),
        requests: vec![
            format!("{}?timestamp=300", RISK_URL),
            format!("{}?timestamp=200", BALANCE_URL),
        ],
        messages: vec![
            MessageFields {
                identity: answer(&["\"BTCUSDT\"", "\"60000\""]),
                balances: FieldQuery::Failed("unused".to_string()),
            },
            MessageFields {
                identity: FieldQuery::Failed("unused".to_string()),
                balances: answer(&["\"USDT\"", "\"7\"", "\"1\""]),
            },
        ],
    })
}

fn entry(key: &str, attestation: Verification) -> AttestationEntry {
    AttestationEntry { key: key.to_string(), attestation }
}

fn input(meta: Option<&str>, attestations: Vec<AttestationEntry>) -> PipelineInput {
    PipelineInput { meta: meta.map(|m| m.to_string()), config: ConfigReading::Parsed, attestations }
}

fn full_input() -> PipelineInput {
    input(
        Some("{\"projectId\":\"2001569168033316864\"}"),
        vec![
            entry("asterFuture", one_call(ASTER_FEATURE_BALANCE_URL, "t5", &["\"al\""], &["\"USDT\"", "\"3\"", "\"0\""])),
            entry("binanceUnified", unified_call("t3")),
            entry("binanceSpot", one_call(SPOT_BALANCE_URL, "t1", &["\"1\""], &["\"BTC\"", "\"1.5\"", "\"0.5\""])),
            entry("asterSpot", one_call(ASTER_SPOT_BALANCE_URL, "t4", &["17"], &["\"ASTER\"", "\"9\"", "\"1\""])),
            entry("binanceUsdSFuture", one_call(FEATURE_BALANCE_URL, "t2", &["\"al\""], &["\"USDT\"", "\"2\"", "\"-1\""])),
            entry("somethingElse", Verification::Rejected("never looked at".to_string())),
        ],
    )
}

fn tasks(pv: &PublicValuesStruct) -> Vec<String> {
    pv.attestation_meta.iter().map(|m: &AttestationMetaStruct| m.task_id.clone()).collect()
}

#[test]
fn extract_hands_the_values_out_untouched() {
    let query = answer(&["\"BTC\"", "1.5"]);
    let values = extract(&query).ok().unwrap();
    assert_eq!(values.len(), 2);
    assert_eq!(values[0].text, "\"BTC\"");
    assert_eq!(values[0].number, "0");
    assert_eq!(values[1].text, "1.5");
    assert_eq!(values[1].number, "1.5");
    let e = extract(&FieldQuery::Failed("invalid expression".to_string())).err().unwrap();
    assert_eq!(e.code(), ZkErrorCode::GetJsonValueFail);
    assert_eq!(e.msg(), "invalid expression");
}

#[test]
fn product_keys_and_products_match() {
    let all = [
        (Product::BinanceSpot, "binanceSpot"),
        (Product::BinanceFuture, "binanceUsdSFuture"),
        (Product::BinanceUnified, "binanceUnified"),
        (Product::AsterSpot, "asterSpot"),
        (Product::AsterFuture, "asterFuture"),
    ];
    for (product, key) in all {
        assert_eq!(product.key(), key);
        assert_eq!(Product::from_key(key), Some(product));
    }
    assert_eq!(META_KEY, "__meta__");
    assert_eq!(Product::from_key(META_KEY), None);
    assert_eq!(Product::from_key("binancespot"), None);
    assert_eq!(Product::from_key(""), None);
}

#[test]
fn product_rules_name_their_endpoints() {
    assert_eq!(Product::BinanceSpot.rule().endpoints(), vec![SPOT_BALANCE_URL.to_string()]);
    assert_eq!(Product::BinanceFuture.rule().endpoints(), vec![FEATURE_BALANCE_URL.to_string()]);
    assert_eq!(
        Product::BinanceUnified.rule().endpoints(),
        vec![RISK_URL.to_string(), BALANCE_URL.to_string()]
    );
    assert_eq!(Product::AsterSpot.rule().endpoints(), vec![ASTER_SPOT_BALANCE_URL.to_string()]);
    assert_eq!(
        Product::AsterFuture.rule().endpoints(),
        vec![ASTER_FEATURE_BALANCE_URL.to_string()]
    );
    assert_eq!(SPOT_BALANCE_URL, "https://api.binance.com/api/v3/account");
    assert_eq!(RISK_URL, "https://papi.binance.com/papi/v1/um/positionRisk");
    assert_eq!(BALANCE_URL, "https://papi.binance.com/papi/v1/balance");
    assert_eq!(FEATURE_BALANCE_URL, "https://fapi.binance.com/fapi/v3/balance");
    assert_eq!(ASTER_SPOT_BALANCE_URL, "https://sapi.asterdex.com/api/v1/account");
    assert_eq!(ASTER_FEATURE_BALANCE_URL, "https://fapi.asterdex.com/fapi/v2/balance");
}

#[test]
fn product_paths_are_those_of_the_exchanges() {
    assert_eq!(Product::BinanceSpot.identity_paths(), vec!["$.uid".to_string()]);
    assert_eq!(Product::AsterSpot.identity_paths(), vec!["$.updateTime".to_string()]);
    assert_eq!(Product::BinanceFuture.identity_paths(), vec!["$.[*].accountAlias".to_string()]);
    assert_eq!(Product::AsterFuture.identity_paths(), vec!["$.[*].accountAlias".to_string()]);
    assert_eq!(
        Product::BinanceUnified.identity_paths(),
        vec!["$.[*].symbol".to_string(), "$.[*].entryPrice".to_string()]
    );
    assert_eq!(
        Product::BinanceSpot.balance_paths(),
        vec![
            "$.balances[*].asset".to_string(),
            "$.balances[*].free".to_string(),
            "$.balances[*].locked".to_string()
        ]
    );
    assert_eq!(Product::AsterSpot.balance_paths(), Product::BinanceSpot.balance_paths());
    assert_eq!(
        Product::BinanceFuture.balance_paths(),
        vec!["$.[*].asset".to_string(), "$.[*].balance".to_string(), "$.[*].crossUnPnl".to_string()]
    );
    assert_eq!(Product::AsterFuture.balance_paths(), Product::BinanceFuture.balance_paths());
    assert_eq!(
        Product::BinanceUnified.balance_paths(),
        vec![
            "$.[*].asset".to_string(),
            "$.[*].totalWalletBalance".to_string(),
            "$.[*].umUnrealizedPNL".to_string()
        ]
    );
}

#[test]
fn project_id_is_read_from_the_metadata() {
    assert_eq!(read_project_id("{\"projectId\":\"42\"}").ok(), Some("42".to_string()));
    assert_eq!(
        read_project_id(" { \"zeta\" : \"z\", \"projectId\" : \"p-1\", \"alpha\" : \"a\" } ").ok(),
        Some("p-1".to_string())
    );
    assert_eq!(
        read_project_id("{\"projectId\":\"first\",\"projectId\":\"last\"}").ok(),
        Some("last".to_string())
    );
}

#[test]
fn metadata_without_project_fails_with_missing_project_id() {
    for meta in ["{}", "{\"project\":\"42\"}", "{\"projectid\":\"42\"}"] {
        let e = read_project_id(meta).err().unwrap();
        assert_eq!(e.code(), ZkErrorCode::MissingProjectId);
        assert_eq!(e.icode(), 1013);
        assert_eq!(e.msg(), "ZkErrorCode::MissingProjectId");
    }
}

#[test]
fn malformed_metadata_fails_with_parse_meta_data() {
    for meta in ["", "not json", "[]", "{\"projectId\":42}", "{\"projectId\":\"42\"} x", "\"projectId\""] {
        let e = read_project_id(meta).err().unwrap();
        assert_eq!(e.code(), ZkErrorCode::ParseMetaData, "{:?}", meta);
        assert_eq!(e.icode(), 1012);
        assert!(!e.msg().is_empty());
    }
}

#[test]
fn resolve_project_id_reads_what_was_parsed() {
    let parsed = StringMap::Parsed(vec![
        ("a".to_string(), "1".to_string()),
        ("projectId".to_string(), "7".to_string()),
    ]);
    assert_eq!(resolve_project_id(&parsed).ok(), Some("7".to_string()));
    let parsed = StringMap::Parsed(vec![("a".to_string(), "1".to_string())]);
    assert_eq!(resolve_project_id(&parsed).err().unwrap().code(), ZkErrorCode::MissingProjectId);
    let parsed = StringMap::Malformed("expected value at line 1 column 1".to_string());
    let e = resolve_project_id(&parsed).err().unwrap();
    assert_eq!(e.code(), ZkErrorCode::ParseMetaData);
    assert_eq!(e.msg(), "expected value at line 1 column 1");
}

#[test]
fn find_member_gives_the_first_of_that_name() {
    let members = vec![
        ("a".to_string(), "1".to_string()),
        ("b".to_string(), "2".to_string()),
        ("a".to_string(), "3".to_string()),
    ];
    assert_eq!(find_member(&members, "a"), Some("1".to_string()));
    assert_eq!(find_member(&members, "b"), Some("2".to_string()));
    assert_eq!(find_member(&members, "c"), None);
    assert_eq!(find_member(&Vec::new(), "a"), None);
}

#[test]
fn set_meta_sets_the_project_and_nothing_else() {
    let mut pv = PublicValuesStruct::default();
    pv.kind = "k".to_string();
    pv.project_id = "default".to_string();
    assert!(set_meta(&mut pv, &input(None, vec![])).is_ok());
    assert_eq!(pv.project_id, "default");
    assert!(set_meta(&mut pv, &input(Some("{\"projectId\":\"p\"}"), vec![])).is_ok());
    assert_eq!(pv.project_id, "p");
    assert_eq!(pv.kind, "k");
    assert_eq!(pv.status, 0);
    let e = set_meta(&mut pv, &input(Some("{}"), vec![])).err().unwrap();
    assert_eq!(e.code(), ZkErrorCode::MissingProjectId);
    assert_eq!(pv.project_id, "p");
    let e = set_meta(&mut pv, &input(Some("{"), vec![])).err().unwrap();
    assert_eq!(e.code(), ZkErrorCode::ParseMetaData);
    assert_eq!(pv.project_id, "p");
}

#[test]
fn find_attestation_gives_the_first_under_the_key() {
    let entries = vec![
        entry("binanceSpot", Verification::Rejected("one".to_string())),
        entry("asterSpot", Verification::Rejected("two".to_string())),
        entry("binanceSpot", Verification::Rejected("three".to_string())),
    ];
    match find_attestation(&entries, "binanceSpot") {
        Some(Verification::Rejected(reason)) => assert_eq!(reason, "one"),
        _ => panic!("the first entry should be found"),
    }
    match find_attestation(&entries, "asterSpot") {
        Some(Verification::Rejected(reason)) => assert_eq!(reason, "two"),
        _ => panic!("the second entry should be found"),
    }
    assert!(find_attestation(&entries, "asterFuture").is_none());
}

#[test]
fn full_run_gives_the_whole_record() {
    let pv = public_values(&full_input());
    assert_eq!(pv.kind, "asset-balance");
    assert_eq!(pv.version, "0.1.0");
    assert_eq!(pv.project_id, "2001569168033316864");
    assert_eq!(pv.status, 0);
    assert_eq!(tasks(&pv), vec!["t1", "t2", "t3", "t4", "t5"]);
    assert_eq!(pv.attestation_meta[0].base_urls, vec![SPOT_BALANCE_URL.to_string()]);
    assert_eq!(
        pv.attestation_meta[2].base_urls,
        vec![RISK_URL.to_string(), BALANCE_URL.to_string()]
    );
    assert_eq!(pv.attestation_meta[0].timestamp, 100);
    assert_eq!(pv.attestation_meta[2].timestamp, 200);
    assert_eq!(pv.attestation_meta[0].report_tx_hash, "0xt1");
    assert_eq!(pv.asset_balance.len(), 2);
    assert_eq!(pv.asset_balance[0].source, "binance");
    assert_eq!(pv.asset_balance[1].source, "aster");
    let binance = &pv.asset_balance[0].ledger;
    assert_eq!(binance.assets.len(), 1);
    assert_eq!(binance.assets[0].asset, "BTC");
    assert_eq!(binance.stablecoin.len(), 1);
    assert_eq!(binance.stablecoin[0].asset, "USDT");
    assert_eq!(binance.stablecoin[0].terms.len(), 2);
    assert_eq!(binance.stablecoin[0].terms[0].first, "2");
    assert_eq!(binance.stablecoin[0].terms[0].second, "-1");
    assert_eq!(binance.stablecoin[0].terms[1].first, "7");
    let aster = &pv.asset_balance[1].ledger;
    assert_eq!(aster.assets.len(), 1);
    assert_eq!(aster.assets[0].asset, "ASTER");
    assert_eq!(aster.stablecoin.len(), 1);
    assert_eq!(aster.stablecoin[0].terms[0].first, "3");
}

#[test]
fn run_without_input_gives_two_empty_summaries() {
    let pv = public_values(&input(None, vec![]));
    assert_eq!(pv.status, 0);
    assert_eq!(pv.project_id, "");
    assert!(pv.attestation_meta.is_empty());
    assert_eq!(pv.asset_balance.len(), 2);
    assert_eq!(pv.asset_balance[0].source, "binance");
    assert!(pv.asset_balance[0].ledger.assets.is_empty());
    assert!(pv.asset_balance[0].ledger.stablecoin.is_empty());
    assert_eq!(pv.asset_balance[1].source, "aster");
}

#[test]
fn metadata_failure_comes_first() {
    let mut run = full_input();
    run.meta = Some("{\"other\":\"x\"}".to_string());
    run.config = ConfigReading::Malformed("bad config".to_string());
    let pv = public_values(&run);
    assert_eq!(pv.status, 1013);
    assert_eq!(pv.project_id, "");
    assert!(pv.attestation_meta.is_empty());
    assert!(pv.asset_balance.is_empty());
    run.meta = Some("nonsense".to_string());
    assert_eq!(public_values(&run).status, 1012);
}

#[test]
fn config_failure_comes_before_the_exchanges() {
    let mut run = full_input();
    run.config = ConfigReading::Malformed("missing field `url`".to_string());
    let mut pv = PublicValuesStruct::default();
    let e = app_main(&mut pv, &run).err().unwrap();
    assert_eq!(e.code(), ZkErrorCode::ParseConfigData);
    assert_eq!(e.icode(), 1001);
    assert_eq!(e.msg(), "missing field `url`");
    assert_eq!(pv.project_id, "2001569168033316864");
    assert!(pv.attestation_meta.is_empty());
    assert!(pv.asset_balance.is_empty());
    assert_eq!(public_values(&run).status, 1001);
}

#[test]
fn failing_product_stops_the_run_and_keeps_what_was_completed() {
    let mut run = full_input();
    run.attestations[1] = entry("binanceUnified", Verification::Rejected("bad proof".to_string()));
    let pv = public_values(&run);
    assert_eq!(pv.status, 1002);
    assert_eq!(tasks(&pv), vec!["t1", "t2"]);
    assert!(pv.asset_balance.is_empty());
    assert_eq!(pv.kind, "asset-balance");
    assert_eq!(pv.project_id, "2001569168033316864");
}

#[test]
fn failure_in_the_second_exchange_keeps_the_summary_of_the_first() {
    let mut run = full_input();
    run.attestations[0] = entry(
        "asterFuture",
        one_call(ASTER_SPOT_BALANCE_URL, "t5", &["\"al\""], &["\"USDT\"", "\"3\"", "\"0\""]),
    );
    let pv = public_values(&run);
    assert_eq!(pv.status, 1010);
    assert_eq!(tasks(&pv), vec!["t1", "t2", "t3", "t4"]);
    assert_eq!(pv.asset_balance.len(), 1);
    assert_eq!(pv.asset_balance[0].source, "binance");
}

#[test]
fn app_binance_looks_at_its_own_products_only() {
    let run = full_input();
    let mut pv = PublicValuesStruct::default();
    assert!(app_binance(&mut pv, &run.attestations).is_ok());
    assert_eq!(tasks(&pv), vec!["t1", "t2", "t3"]);
    assert_eq!(pv.asset_balance.len(), 1);
    assert_eq!(pv.asset_balance[0].source, "binance");
    assert!(app_aster(&mut pv, &run.attestations).is_ok());
    assert_eq!(tasks(&pv), vec!["t1", "t2", "t3", "t4", "t5"]);
    assert_eq!(pv.asset_balance.len(), 2);
    assert_eq!(pv.asset_balance[1].source, "aster");
}

#[test]
fn products_share_the_ledger_of_their_exchange() {
    let run = input(
        None,
        vec![
            entry("binanceSpot", one_call(SPOT_BALANCE_URL, "t1", &["\"1\""], &["\"usdc\"", "\"1\"", "\"0\""])),
            entry("binanceUsdSFuture", one_call(FEATURE_BALANCE_URL, "t2", &["\"a\""], &["\"USDC\"", "\"2\"", "\"0\""])),
            entry("asterSpot", one_call(ASTER_SPOT_BALANCE_URL, "t4", &["17"], &["\"USDC\"", "\"4\"", "\"0\""])),
        ],
    );
    let pv = public_values(&run);
    assert_eq!(pv.status, 0);
    let binance = &pv.asset_balance[0].ledger;
    assert_eq!(binance.stablecoin.len(), 1);
    assert_eq!(binance.stablecoin[0].terms.len(), 2);
    let aster = &pv.asset_balance[1].ledger;
    assert_eq!(aster.stablecoin.len(), 1);
    assert_eq!(aster.stablecoin[0].terms.len(), 1);
    assert_eq!(aster.stablecoin[0].terms[0].first, "4");
}

#[test]
fn run_hands_out_the_error_beside_the_record() {
    let mut input = full_input();
    input.attestations[2] = entry("binanceSpot", Verification::Rejected("bad proof".to_string()));
    let report = run(&input);
    let e = report.failure.expect("the run should fail");
    assert_eq!(e.code(), ZkErrorCode::VerifyAttestation);
    assert_eq!(e.msg(), "bad proof");
    assert_eq!(report.record.status, 1002);
    assert!(report.record.attestation_meta.is_empty());
    let report = run(&full_input());
    assert!(report.failure.is_none());
    assert_eq!(report.record.status, 0);
}

#[test]
fn default_records_are_empty() {
    let meta = AttestationMetaStruct::default();
    assert_eq!(meta.task_id, "");
    assert_eq!(meta.report_tx_hash, "");
    assert_eq!(meta.attestor, "");
    assert!(meta.base_urls.is_empty());
    assert_eq!(meta.timestamp, 0);
    let pv = PublicValuesStruct::default();
    assert_eq!(pv.kind, "");
    assert_eq!(pv.version, "");
    assert_eq!(pv.project_id, "");
    assert!(pv.attestation_meta.is_empty());
    assert!(pv.asset_balance.is_empty());
    assert_eq!(pv.status, 0);
}
