//! Decisions of the live trading loop: the daily summary trigger, error classification
//! and the profit-and-loss summary of closed deals.
use vstd::prelude::*;

use crate::decimal::{checked_add, dec_lt, spec_add, spec_zero, Dec};
use crate::domain::Deal;
use crate::text::{contains_text, has_infix, lowercase, to_lowercase};

verus! {

/// Magic number tagging the orders of this system.
pub const MAGIC: u64 = 19731u64;

/// One tick of the daily-summary trigger: it fires when the current hour is the target
/// hour and it has not fired in this hour yet; it re-arms once the hour has passed.
/// Gives whether to send the summary and the hour it last fired in.
pub open spec fn summary_step(target_hour: u32, current_hour: u32, last_fired: Option<u32>) -> (bool, Option<u32>) {
    if current_hour == target_hour && last_fired != Some(current_hour) {
        (true, Some(current_hour))
    } else if current_hour != target_hour {
        (false, None)
    } else {
        (false, last_fired)
    }
}

/// One tick of the daily-summary trigger.
pub fn summary_trigger(target_hour: u32, current_hour: u32, last_fired: Option<u32>) -> (r: (bool, Option<u32>))
    ensures
        r == summary_step(target_hour, current_hour, last_fired),
{
    if current_hour == target_hour && last_fired != Some(current_hour) {
        (true, Some(current_hour))
    } else if current_hour != target_hour {
        (false, None)
    } else {
        (false, last_fired)
    }
}

/// The summary fires only in the target hour, at most once while that hour lasts, and
/// again in the next target hour once another hour has passed in between.
pub proof fn lemma_summary_fires_once_per_day(target_hour: u32, hour: u32, other_hour: u32, last_fired: Option<u32>)
    requires
        other_hour != target_hour,
    ensures
        summary_step(target_hour, hour, last_fired).0 ==> hour == target_hour,
        summary_step(target_hour, hour, last_fired).0 ==> !summary_step(target_hour, hour, summary_step(target_hour, hour, last_fired).1).0,
        summary_step(target_hour, target_hour, summary_step(target_hour, other_hour, last_fired).1).0,
{
}

/// Whether an error message says the market is closed: it mentions retcode 10018 or,
/// ignoring case, "market closed".
pub open spec fn says_market_closed(msg: Seq<char>) -> bool {
    has_infix(msg, "10018"@) || has_infix(lowercase(msg), "market closed"@)
}

/// Whether an error message says the market is closed (such errors are not reported).
pub fn is_market_closed(msg: &str) -> (r: bool)
    ensures
        r == says_market_closed(msg@),
{
    if contains_text(msg, "10018") {
        return true;
    }
    let lower = to_lowercase(msg);
    contains_text(lower.as_str(), "market closed")
}

/// Summary of closing deals.
#[derive(Clone, Copy, Debug)]
pub struct DealSummary {
    pub total: usize,
    pub wins: usize,
    pub losses: usize,
    pub net: Dec,
}

/// A deal that closed a position of this system.
pub open spec fn is_closing(d: Deal, magic: u64) -> bool {
    d.entry == 1 && d.magic == magic
}

/// (count, wins, net) over deals `0 .. k` that close positions: a win has a positive
/// profit, and the net adds profit, commission and swap of each; `None` where a sum
/// overflows a decimal.
pub open spec fn summary_upto(deals: Seq<Deal>, magic: u64, k: int) -> Option<(int, int, Dec)>
    decreases k,
{
    if k <= 0 {
        Some((0, 0, spec_zero()))
    } else {
        match summary_upto(deals, magic, k - 1) {
            None => None,
            Some(acc) => {
                let d = deals[k - 1];
                if is_closing(d, magic) {
                    match spec_add(d.profit, d.commission) {
                        None => None,
                        Some(a) => match spec_add(a, d.swap) {
                            None => None,
                            Some(b) => match spec_add(acc.2, b) {
                                None => None,
                                Some(net) => Some((acc.0 + 1, acc.1 + if dec_lt(spec_zero(), d.profit) { 1int } else { 0int }, net)),
                            },
                        },
                    }
                } else {
                    Some(acc)
                }
            },
        }
    }
}

proof fn lemma_summary_counts(deals: Seq<Deal>, magic: u64, k: int)
    requires
        0 <= k,
    ensures
        summary_upto(deals, magic, k) matches Some(acc) ==> 0 <= acc.1 <= acc.0 <= k,
    decreases k,
{
    if k > 0 {
        lemma_summary_counts(deals, magic, k - 1);
    }
}

fn summary_checked(deals: &[Deal], magic: u64) -> (r: Option<DealSummary>)
    ensures
        r is Some <==> summary_upto(deals@, magic, deals@.len() as int) is Some,
        r matches Some(s) ==> ({
            let acc = summary_upto(deals@, magic, deals@.len() as int).unwrap();
            s.total == acc.0 && s.wins == acc.1 && s.losses == acc.0 - acc.1 && s.net == acc.2
        }),
{
    let mut total: usize = 0;
    let mut wins: usize = 0;
    let mut net = Dec::zero();
    let mut k: usize = 0;
    while k < deals.len()
        invariant
            k <= deals@.len(),
            summary_upto(deals@, magic, k as int) == Some((total as int, wins as int, net)),
            wins <= total <= k,
        decreases deals@.len() - k,
    {
        let d = &deals[k];
        proof {
            lemma_summary_counts(deals@, magic, k + 1);
        }
        if d.entry == 1 && d.magic == magic {
            let a = match checked_add(d.profit, d.commission) {
                Some(a) => a,
                None => {
                    proof {
                        lemma_summary_none_stays(deals@, magic, k + 1, deals@.len() as int);
                    }
                    return None;
                },
            };
            let b = match checked_add(a, d.swap) {
                Some(b) => b,
                None => {
                    proof {
                        lemma_summary_none_stays(deals@, magic, k + 1, deals@.len() as int);
                    }
                    return None;
                },
            };
            net = match checked_add(net, b) {
                Some(n) => n,
                None => {
                    proof {
                        lemma_summary_none_stays(deals@, magic, k + 1, deals@.len() as int);
                    }
                    return None;
                },
            };
            if Dec::zero().lt(&d.profit) {
                wins = wins + 1;
            }
            total = total + 1;
        }
        k = k + 1;
    }
    Some(DealSummary { total, wins, losses: total - wins, net })
}

proof fn lemma_summary_none_stays(deals: Seq<Deal>, magic: u64, k: int, n: int)
    requires
        0 <= k <= n,
        summary_upto(deals, magic, k) is None,
    ensures
        summary_upto(deals, magic, n) is None,
    decreases n - k,
{
    if k < n {
        lemma_summary_none_stays(deals, magic, k + 1, n);
    }
}

/// Profit-and-loss summary of the deals that closed positions with the given magic number.
pub fn summarize_deals(deals: &[Deal], magic: u64) -> (r: DealSummary)
    requires
        summary_upto(deals@, magic, deals@.len() as int) is Some,
    ensures
        ({
            let acc = summary_upto(deals@, magic, deals@.len() as int).unwrap();
            r.total == acc.0 && r.wins == acc.1 && r.losses == acc.0 - acc.1 && r.net == acc.2
        }),
{
    summary_checked(deals, magic).unwrap()
}

/// `summarize_deals`, or `None` where a sum would overflow a decimal.
pub fn try_summarize_deals(deals: &[Deal], magic: u64) -> (r: Option<DealSummary>)
    ensures
        r is Some <==> summary_upto(deals@, magic, deals@.len() as int) is Some,
        r matches Some(s) ==> ({
            let acc = summary_upto(deals@, magic, deals@.len() as int).unwrap();
            s.total == acc.0 && s.wins == acc.1 && s.losses == acc.0 - acc.1 && s.net == acc.2
        }),
{
    summary_checked(deals, magic)
}

/// The deals that close positions of the system, in their order.
pub open spec fn closing_deals(deals: Seq<Deal>, magic: u64) -> Seq<Deal> {
    deals.filter(|d: Deal| d.entry == 1 && d.magic == magic)
}

/// The closing deals with a positive profit.
pub open spec fn winning_deals(deals: Seq<Deal>, magic: u64) -> Seq<Deal> {
    deals.filter(|d: Deal| d.entry == 1 && d.magic == magic && dec_lt(spec_zero(), d.profit))
}

proof fn lemma_summary_counts_upto(deals: Seq<Deal>, magic: u64, k: int)
    requires
        0 <= k <= deals.len(),
    ensures
        summary_upto(deals, magic, k) matches Some(acc) ==> acc.0 == closing_deals(deals.take(k), magic).len()
            && acc.1 == winning_deals(deals.take(k), magic).len(),
    decreases k,
{
    reveal(Seq::filter);
    if k > 0 {
        lemma_summary_counts_upto(deals, magic, k - 1);
        let t = deals.take(k);
        assert(t.drop_last() =~= deals.take(k - 1));
        assert(t.last() == deals[k - 1]);
    } else {
        assert(deals.take(k).len() == 0);
    }
}

/// The summary counts what it says: the total is the number of deals that close positions
/// of the system, the wins the number of those with a positive profit, and the losses the
/// rest.
pub proof fn lemma_summary_counts_closing_deals(deals: Seq<Deal>, magic: u64)
    ensures
        summary_upto(deals, magic, deals.len() as int) matches Some(acc) ==> acc.0 == closing_deals(deals, magic).len()
            && acc.1 == winning_deals(deals, magic).len(),
{
    lemma_summary_counts_upto(deals, magic, deals.len() as int);
    assert(deals.take(deals.len() as int) =~= deals);
}

} // verus!
