//! N-candle pivot (swing point) detection.
use vstd::prelude::*;

use crate::decimal::{dec_lt, Dec};
use crate::domain::Candle;

verus! {

/// Whether a swing point is a high or a low.
#[derive(Clone, Copy, Debug, PartialEq, Eq, Structural)]
pub enum SwingKind {
    High,
    Low,
}

/// A pivot at candle `index`; `price` is its high (for a high) or its low (for a low).
#[derive(Clone, Copy, Debug)]
pub struct SwingPoint {
    pub index: usize,
    pub price: Dec,
    pub kind: SwingKind,
    pub time: i64,
}

/// Candle `i` has a strictly higher high than each of the `n` candles on either side.
pub open spec fn is_pivot_high(c: Seq<Candle>, n: int, i: int) -> bool {
    forall|j: int| #![trigger c[j]] i - n <= j <= i + n && j != i ==> dec_lt(c[j].high, c[i].high)
}

/// Candle `i` has a strictly lower low than each of the `n` candles on either side.
pub open spec fn is_pivot_low(c: Seq<Candle>, n: int, i: int) -> bool {
    forall|j: int| #![trigger c[j]] i - n <= j <= i + n && j != i ==> dec_lt(c[i].low, c[j].low)
}

/// The swing points found at candle `i`: its high first, then its low.
pub open spec fn swings_at(c: Seq<Candle>, n: int, i: int) -> Seq<SwingPoint> {
    let high = if is_pivot_high(c, n, i) {
        seq![SwingPoint { index: i as usize, price: c[i].high, kind: SwingKind::High, time: c[i].time }]
    } else {
        Seq::empty()
    };
    let low = if is_pivot_low(c, n, i) {
        seq![SwingPoint { index: i as usize, price: c[i].low, kind: SwingKind::Low, time: c[i].time }]
    } else {
        Seq::empty()
    };
    high + low
}

/// The swing points of candles `n .. k`, in candle order.
pub open spec fn swings_between(c: Seq<Candle>, n: int, k: int) -> Seq<SwingPoint>
    decreases k - n,
{
    if k <= n {
        Seq::empty()
    } else {
        swings_between(c, n, k - 1) + swings_at(c, n, k - 1)
    }
}

/// All swing points with `n` candles on each side; none when there are fewer than `2n + 1` candles.
pub open spec fn spec_detect_swings(c: Seq<Candle>, n: int) -> Seq<SwingPoint> {
    if c.len() < 2 * n + 1 {
        Seq::empty()
    } else {
        swings_between(c, n, c.len() - n)
    }
}

fn pivot_high(candles: &[Candle], i: usize, n: usize) -> (r: bool)
    requires
        n <= i,
        i + n < candles@.len(),
    ensures
        r == is_pivot_high(candles@, n as int, i as int),
{
    let len = candles.len();
    let last = i + n;
    let mut j = i - n;
    while j <= last
        invariant
            len == candles@.len(),
            last == i + n,
            n <= i,
            i + n < candles@.len(),
            i - n <= j <= i + n + 1,
            forall|k: int| #![trigger candles@[k]] i - n <= k < j && k != i ==> dec_lt(candles@[k].high, candles@[i as int].high),
        decreases i + n + 1 - j,
    {
        if j != i && !candles[j].high.lt(&candles[i].high) {
            return false;
        }
        j = j + 1;
    }
    true
}

fn pivot_low(candles: &[Candle], i: usize, n: usize) -> (r: bool)
    requires
        n <= i,
        i + n < candles@.len(),
    ensures
        r == is_pivot_low(candles@, n as int, i as int),
{
    let len = candles.len();
    let last = i + n;
    let mut j = i - n;
    while j <= last
        invariant
            len == candles@.len(),
            last == i + n,
            n <= i,
            i + n < candles@.len(),
            i - n <= j <= i + n + 1,
            forall|k: int| #![trigger candles@[k]] i - n <= k < j && k != i ==> dec_lt(candles@[i as int].low, candles@[k].low),
        decreases i + n + 1 - j,
    {
        if j != i && !candles[i].low.lt(&candles[j].low) {
            return false;
        }
        j = j + 1;
    }
    true
}

/// N-candle pivot detection: a swing high where a candle's high is strictly above the
/// highs of the `n` candles on each side, a swing low where its low is strictly below
/// their lows.  Needs at least `2n + 1` candles; returns nothing otherwise.
pub fn detect_swings(candles: &[Candle], n: usize) -> (r: Vec<SwingPoint>)
    ensures
        r@ == spec_detect_swings(candles@, n as int),
{
    let len = candles.len();
    if n >= len || len - n <= n {
        return Vec::new();
    }
    let mut result: Vec<SwingPoint> = Vec::new();
    let mut i = n;
    while i < len - n
        invariant
            len == candles@.len(),
            n < len,
            2 * n < len,
            n <= i <= len - n,
            result@ == swings_between(candles@, n as int, i as int),
        decreases len - n - i,
    {
        let is_high = pivot_high(candles, i, n);
        let is_low = pivot_low(candles, i, n);
        let ghost before = result@;
        if is_high {
            result.push(SwingPoint { index: i, price: candles[i].high, kind: SwingKind::High, time: candles[i].time });
        }
        if is_low {
            result.push(SwingPoint { index: i, price: candles[i].low, kind: SwingKind::Low, time: candles[i].time });
        }
        proof {
            assert(swings_between(candles@, n as int, i + 1) == swings_between(candles@, n as int, i as int) + swings_at(candles@, n as int, i as int));
            assert(result@ =~= before + swings_at(candles@, n as int, i as int));
        }
        i = i + 1;
    }
    result
}

} // verus!
