//! The account products that the pipeline knows: their keys in the input,
//! the endpoints they are attested against and the path expressions that
//! are asked of their responses.

use crate::text::{same_text, views_of, Text};
use vstd::prelude::*;

verus! {

/// Position-risk endpoint of the unified account.
pub const RISK_URL: &'static str = "https://papi.binance.com/papi/v1/um/positionRisk";

/// Balance endpoint of the unified account.
pub const BALANCE_URL: &'static str = "https://papi.binance.com/papi/v1/balance";

/// Account endpoint of the Binance spot account.
pub const SPOT_BALANCE_URL: &'static str = "https://api.binance.com/api/v3/account";

/// Balance endpoint of the Binance futures account.
pub const FEATURE_BALANCE_URL: &'static str = "https://fapi.binance.com/fapi/v3/balance";

/// Account endpoint of the Aster spot account.
pub const ASTER_SPOT_BALANCE_URL: &'static str = "https://sapi.asterdex.com/api/v1/account";

/// Balance endpoint of the Aster futures account.
pub const ASTER_FEATURE_BALANCE_URL: &'static str = "https://fapi.asterdex.com/fapi/v2/balance";

/// An account product of an exchange.
#[derive(Clone, Copy, PartialEq, Eq, Debug, Structural)]
pub enum Product {
    BinanceSpot,
    BinanceFuture,
    BinanceUnified,
    AsterSpot,
    AsterFuture,
}

/// How the requests of a product are checked and what identifies an
/// account in its responses.
#[derive(Debug)]
pub enum ProductRule {
    /// One endpoint; the one identity value is the account key.
    Spot { endpoint: String },
    /// One endpoint; the one identity value and the balance rows together
    /// are the account key.
    SpotSnapshot { endpoint: String },
    /// One endpoint; the first identity value is the account key, and a
    /// response without identity values is passed over.
    Future { endpoint: String },
    /// Two endpoints in turn, position risk first; the positions of a risk
    /// response are the account key, the balance responses carry the rows.
    Unified { risk_endpoint: String, balance_endpoint: String },
}

/// The model of a [`ProductRule`].
pub enum RuleView {
    Spot { endpoint: Text },
    SpotSnapshot { endpoint: Text },
    Future { endpoint: Text },
    Unified { risk_endpoint: Text, balance_endpoint: Text },
}

impl View for ProductRule {
    type V = RuleView;

    open spec fn view(&self) -> RuleView {
        match self {
            ProductRule::Spot { endpoint } => RuleView::Spot { endpoint: endpoint@ },
            ProductRule::SpotSnapshot { endpoint } => RuleView::SpotSnapshot {
                endpoint: endpoint@,
            },
            ProductRule::Future { endpoint } => RuleView::Future { endpoint: endpoint@ },
            ProductRule::Unified { risk_endpoint, balance_endpoint } => RuleView::Unified {
                risk_endpoint: risk_endpoint@,
                balance_endpoint: balance_endpoint@,
            },
        }
    }
}

/// The endpoints that a rule accepts, in the order in which they are
/// recorded.
pub open spec fn rule_endpoints(rule: RuleView) -> Seq<Text> {
    match rule {
        RuleView::Spot { endpoint } => seq![endpoint],
        RuleView::SpotSnapshot { endpoint } => seq![endpoint],
        RuleView::Future { endpoint } => seq![endpoint],
        RuleView::Unified { risk_endpoint, balance_endpoint } => seq![
            risk_endpoint,
            balance_endpoint,
        ],
    }
}

/// The rule of each product.
pub open spec fn standard_rule(product: Product) -> RuleView {
    match product {
        Product::BinanceSpot => RuleView::Spot { endpoint: SPOT_BALANCE_URL@ },
        Product::BinanceFuture => RuleView::Future { endpoint: FEATURE_BALANCE_URL@ },
        Product::BinanceUnified => RuleView::Unified {
            risk_endpoint: RISK_URL@,
            balance_endpoint: BALANCE_URL@,
        },
        Product::AsterSpot => RuleView::SpotSnapshot { endpoint: ASTER_SPOT_BALANCE_URL@ },
        Product::AsterFuture => RuleView::Future { endpoint: ASTER_FEATURE_BALANCE_URL@ },
    }
}

/// The key under which the attestation of each product stands in the input.
pub open spec fn product_key(product: Product) -> Text {
    match product {
        Product::BinanceSpot => "binanceSpot"@,
        Product::BinanceFuture => "binanceUsdSFuture"@,
        Product::BinanceUnified => "binanceUnified"@,
        Product::AsterSpot => "asterSpot"@,
        Product::AsterFuture => "asterFuture"@,
    }
}

/// The product that stands under `key`: the first, in the order of their
/// declaration, whose key it is.
pub open spec fn product_of_key(key: Text) -> Option<Product> {
    if key == product_key(Product::BinanceSpot) {
        Some(Product::BinanceSpot)
    } else if key == product_key(Product::BinanceFuture) {
        Some(Product::BinanceFuture)
    } else if key == product_key(Product::BinanceUnified) {
        Some(Product::BinanceUnified)
    } else if key == product_key(Product::AsterSpot) {
        Some(Product::AsterSpot)
    } else if key == product_key(Product::AsterFuture) {
        Some(Product::AsterFuture)
    } else {
        None
    }
}

/// The path expressions that identify the account in a response of each
/// product.
pub open spec fn identity_path_texts(product: Product) -> Seq<Text> {
    match product {
        Product::BinanceSpot => seq!["$.uid"@],
        Product::BinanceFuture => seq!["$.[*].accountAlias"@],
        Product::BinanceUnified => seq!["$.[*].symbol"@, "$.[*].entryPrice"@],
        Product::AsterSpot => seq!["$.updateTime"@],
        Product::AsterFuture => seq!["$.[*].accountAlias"@],
    }
}

/// The three path expressions of the balance rows of each product: the
/// asset and its two amounts.
pub open spec fn balance_path_texts(product: Product) -> Seq<Text> {
    match product {
        Product::BinanceSpot => seq![
            "$.balances[*].asset"@,
            "$.balances[*].free"@,
            "$.balances[*].locked"@,
        ],
        Product::BinanceFuture => seq!["$.[*].asset"@, "$.[*].balance"@, "$.[*].crossUnPnl"@],
        Product::BinanceUnified => seq![
            "$.[*].asset"@,
            "$.[*].totalWalletBalance"@,
            "$.[*].umUnrealizedPNL"@,
        ],
        Product::AsterSpot => seq![
            "$.balances[*].asset"@,
            "$.balances[*].free"@,
            "$.balances[*].locked"@,
        ],
        Product::AsterFuture => seq!["$.[*].asset"@, "$.[*].balance"@, "$.[*].crossUnPnl"@],
    }
}

impl ProductRule {
    /// The endpoints that the rule accepts.
    pub fn endpoints(&self) -> (r: Vec<String>)
        ensures
            views_of(r@) == rule_endpoints(self@),
    {
        let mut r: Vec<String> = Vec::new();
        match self {
            ProductRule::Spot { endpoint } => {
                r.push(endpoint.clone());
            },
            ProductRule::SpotSnapshot { endpoint } => {
                r.push(endpoint.clone());
            },
            ProductRule::Future { endpoint } => {
                r.push(endpoint.clone());
            },
            ProductRule::Unified { risk_endpoint, balance_endpoint } => {
                r.push(risk_endpoint.clone());
                r.push(balance_endpoint.clone());
            },
        }
        assert(views_of(r@) =~= rule_endpoints(self@));
        r
    }
}

impl Product {
    /// The key under which the product's attestation stands in the input.
    pub fn key(&self) -> (r: &'static str)
        ensures
            r@ == product_key(*self),
    {
        match self {
            Product::BinanceSpot => "binanceSpot",
            Product::BinanceFuture => "binanceUsdSFuture",
            Product::BinanceUnified => "binanceUnified",
            Product::AsterSpot => "asterSpot",
            Product::AsterFuture => "asterFuture",
        }
    }

    /// The product whose attestation stands under `key`, if it is the key of
    /// one.
    pub fn from_key(key: &str) -> (r: Option<Product>)
        ensures
            r == product_of_key(key@),
    {
        if same_text(key, "binanceSpot") {
            Some(Product::BinanceSpot)
        } else if same_text(key, "binanceUsdSFuture") {
            Some(Product::BinanceFuture)
        } else if same_text(key, "binanceUnified") {
            Some(Product::BinanceUnified)
        } else if same_text(key, "asterSpot") {
            Some(Product::AsterSpot)
        } else if same_text(key, "asterFuture") {
            Some(Product::AsterFuture)
        } else {
            None
        }
    }

    /// The rule of the product, with its fixed endpoints.
    pub fn rule(&self) -> (r: ProductRule)
        ensures
            r@ == standard_rule(*self),
    {
        match self {
            Product::BinanceSpot => ProductRule::Spot { endpoint: SPOT_BALANCE_URL.to_string() },
            Product::BinanceFuture => ProductRule::Future {
                endpoint: FEATURE_BALANCE_URL.to_string(),
            },
            Product::BinanceUnified => ProductRule::Unified {
                risk_endpoint: RISK_URL.to_string(),
                balance_endpoint: BALANCE_URL.to_string(),
            },
            Product::AsterSpot => ProductRule::SpotSnapshot {
                endpoint: ASTER_SPOT_BALANCE_URL.to_string(),
            },
            Product::AsterFuture => ProductRule::Future {
                endpoint: ASTER_FEATURE_BALANCE_URL.to_string(),
            },
        }
    }

    /// The path expressions that identify the account in a response.
    pub fn identity_paths(&self) -> (r: Vec<String>)
        ensures
            views_of(r@) == identity_path_texts(*self),
    {
        let mut r: Vec<String> = Vec::new();
        match self {
            Product::BinanceSpot => {
                r.push("$.uid".to_string());
            },
            Product::BinanceFuture => {
                r.push("$.[*].accountAlias".to_string());
            },
            Product::BinanceUnified => {
                r.push("$.[*].symbol".to_string());
                r.push("$.[*].entryPrice".to_string());
            },
            Product::AsterSpot => {
                r.push("$.updateTime".to_string());
            },
            Product::AsterFuture => {
                r.push("$.[*].accountAlias".to_string());
            },
        }
        assert(views_of(r@) =~= identity_path_texts(*self));
        r
    }

    /// The three path expressions of the balance rows.
    pub fn balance_paths(&self) -> (r: Vec<String>)
        ensures
            views_of(r@) == balance_path_texts(*self),
    {
        let mut r: Vec<String> = Vec::new();
        match self {
            Product::BinanceSpot => {
                r.push("$.balances[*].asset".to_string());
                r.push("$.balances[*].free".to_string());
                r.push("$.balances[*].locked".to_string());
            },
            Product::BinanceFuture => {
                r.push("$.[*].asset".to_string());
                r.push("$.[*].balance".to_string());
                r.push("$.[*].crossUnPnl".to_string());
            },
            Product::BinanceUnified => {
                r.push("$.[*].asset".to_string());
                r.push("$.[*].totalWalletBalance".to_string());
                r.push("$.[*].umUnrealizedPNL".to_string());
            },
            Product::AsterSpot => {
                r.push("$.balances[*].asset".to_string());
                r.push("$.balances[*].free".to_string());
                r.push("$.balances[*].locked".to_string());
            },
            Product::AsterFuture => {
                r.push("$.[*].asset".to_string());
                r.push("$.[*].balance".to_string());
                r.push("$.[*].crossUnPnl".to_string());
            },
        }
        assert(views_of(r@) =~= balance_path_texts(*self));
        r
    }
}

} // verus!
