//! Records and addresses of the MT5 bridge API.
use vstd::prelude::*;

use crate::text::{concat2, concat4};

verus! {

/// Bridge health report.
#[derive(Clone, Debug)]
pub struct HealthStatus {
    pub status: String,
    pub mt5_connected: bool,
    pub mt5_version: String,
    pub api_version: String,
}

/// Result of sending an order.
#[derive(Clone, Debug)]
pub struct TradeResult {
    pub retcode: u32,
    pub order: u64,
    pub comment: String,
}

/// The first record of a response list, if it has one.
pub fn first_record<T>(data: Vec<T>) -> (r: Option<T>)
    ensures
        data@.len() == 0 ==> r is None,
        data@.len() > 0 ==> r == Some(data@[0]),
{
    let mut data = data;
    if data.len() == 0 {
        None
    } else {
        Some(data.remove(0))
    }
}

/// `<base>/health`.
pub fn health_url(base: &str) -> (r: String)
    ensures
        r@ == base@ + "/health"@,
{
    concat2(base, "/health")
}

/// `<base>/account`.
pub fn account_url(base: &str) -> (r: String)
    ensures
        r@ == base@ + "/account"@,
{
    concat2(base, "/account")
}

/// `<base>/symbols/<name>`.
pub fn symbol_url(base: &str, name: &str) -> (r: String)
    ensures
        r@ == base@ + "/symbols/"@ + name@,
{
    let mut s = concat2(base, "/symbols/");
    s.append(name);
    s
}

/// `<base>/symbols/<symbol>/tick`.
pub fn tick_url(base: &str, symbol: &str) -> (r: String)
    ensures
        r@ == base@ + "/symbols/"@ + symbol@ + "/tick"@,
{
    concat4(base, "/symbols/", symbol, "/tick")
}

/// `<base>/rates/from-pos`.
pub fn rates_url(base: &str) -> (r: String)
    ensures
        r@ == base@ + "/rates/from-pos"@,
{
    concat2(base, "/rates/from-pos")
}

/// `<base>/positions`.
pub fn positions_url(base: &str) -> (r: String)
    ensures
        r@ == base@ + "/positions"@,
{
    concat2(base, "/positions")
}

/// `<base>/order/check`.
pub fn order_check_url(base: &str) -> (r: String)
    ensures
        r@ == base@ + "/order/check"@,
{
    concat2(base, "/order/check")
}

/// `<base>/order/send`.
pub fn order_send_url(base: &str) -> (r: String)
    ensures
        r@ == base@ + "/order/send"@,
{
    concat2(base, "/order/send")
}

} // verus!
