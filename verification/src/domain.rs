//! Market data records and the chart timeframes of the MT5 bridge.
use vstd::prelude::*;

use crate::decimal::Dec;
use crate::text::{concat2, str_eq};

verus! {

/// Direction of a position or signal.
#[derive(Clone, Copy, Debug, PartialEq, Eq, Structural)]
pub enum Side {
    Long,
    Short,
}

/// One OHLC bar; `time` is its opening time in seconds since the Unix epoch (UTC).
#[derive(Clone, Copy, Debug)]
pub struct Candle {
    pub time: i64,
    pub open: Dec,
    pub high: Dec,
    pub low: Dec,
    pub close: Dec,
    pub tick_volume: u64,
    pub spread: i32,
    pub real_volume: u64,
}

/// Trading account summary as reported by the bridge.
#[derive(Clone, Debug)]
pub struct AccountInfo {
    pub login: u64,
    pub leverage: u32,
    pub trade_allowed: bool,
    pub trade_expert: bool,
    pub currency: String,
    pub currency_digits: u8,
    pub server: String,
    pub name: String,
    pub company: String,
    pub balance: Dec,
    pub equity: Dec,
    pub profit: Dec,
    pub credit: Dec,
    pub margin: Dec,
    pub margin_free: Dec,
    pub margin_level: Dec,
}

/// A closed or opened deal from the account history.
#[derive(Clone, Debug)]
pub struct Deal {
    pub ticket: u64,
    pub order: u64,
    pub time: String,
    /// 0 = buy, 1 = sell, 2 = balance.
    pub kind: u32,
    /// 0 = in, 1 = out.
    pub entry: u32,
    pub symbol: String,
    pub volume: Dec,
    pub price: Dec,
    pub commission: Dec,
    pub swap: Dec,
    pub profit: Dec,
    pub comment: String,
    pub magic: u64,
}

/// An open position.
#[derive(Clone, Debug)]
pub struct Position {
    pub ticket: u64,
    pub symbol: String,
    pub side: Side,
    pub volume: Dec,
    pub price_open: Dec,
    pub sl: Dec,
    pub tp: Dec,
    pub price_current: Dec,
    pub swap: Dec,
    pub profit: Dec,
    pub comment: String,
    pub magic: u64,
}

/// Contract specification of a traded symbol.
#[derive(Clone, Debug)]
pub struct Symbol {
    pub name: String,
    pub description: String,
    pub digits: u8,
    pub point: Dec,
    pub bid: Dec,
    pub ask: Dec,
    pub spread: i32,
    pub spread_float: bool,
    pub volume_min: Dec,
    pub volume_max: Dec,
    pub volume_step: Dec,
    pub trade_contract_size: Dec,
    pub currency_base: String,
    pub currency_profit: String,
    pub category: String,
}

/// Latest quote; `time` in seconds and `time_msc` in milliseconds since the Unix epoch (UTC).
#[derive(Clone, Copy, Debug)]
pub struct Tick {
    pub time: i64,
    pub time_msc: i64,
    pub bid: Dec,
    pub ask: Dec,
    pub last: Dec,
    pub volume: u64,
    pub flags: u32,
    pub volume_real: Dec,
}

/// Position type code of the bridge: 0 is a buy (long), 1 a sell (short).
pub open spec fn side_of_code(code: u8) -> Option<Side> {
    if code == 0 {
        Some(Side::Long)
    } else if code == 1 {
        Some(Side::Short)
    } else {
        None
    }
}

/// Reads the bridge's position type code.
pub fn side_from_code(code: u8) -> (r: Option<Side>)
    ensures
        r == side_of_code(code),
{
    if code == 0 {
        Some(Side::Long)
    } else if code == 1 {
        Some(Side::Short)
    } else {
        None
    }
}

/// Chart timeframes of MT5.
#[derive(Clone, Copy, Debug, PartialEq, Eq, Structural, Hash)]
pub enum Timeframe {
    M1,
    M2,
    M3,
    M4,
    M5,
    M6,
    M10,
    M12,
    M15,
    M20,
    M30,
    H1,
    H2,
    H3,
    H4,
    H6,
    H8,
    H12,
    D1,
    W1,
    Mn1,
}

/// The short name of a timeframe, as configured (`"M15"`).
pub open spec fn short_name(tf: Timeframe) -> Seq<char> {
    match tf {
        Timeframe::M1 => "M1"@,
        Timeframe::M2 => "M2"@,
        Timeframe::M3 => "M3"@,
        Timeframe::M4 => "M4"@,
        Timeframe::M5 => "M5"@,
        Timeframe::M6 => "M6"@,
        Timeframe::M10 => "M10"@,
        Timeframe::M12 => "M12"@,
        Timeframe::M15 => "M15"@,
        Timeframe::M20 => "M20"@,
        Timeframe::M30 => "M30"@,
        Timeframe::H1 => "H1"@,
        Timeframe::H2 => "H2"@,
        Timeframe::H3 => "H3"@,
        Timeframe::H4 => "H4"@,
        Timeframe::H6 => "H6"@,
        Timeframe::H8 => "H8"@,
        Timeframe::H12 => "H12"@,
        Timeframe::D1 => "D1"@,
        Timeframe::W1 => "W1"@,
        Timeframe::Mn1 => "MN1"@,
    }
}

/// The name the bridge API uses for a timeframe (`"TIMEFRAME_M15"`).
pub open spec fn api_name(tf: Timeframe) -> Seq<char> {
    match tf {
        Timeframe::M1 => "TIMEFRAME_M1"@,
        Timeframe::M2 => "TIMEFRAME_M2"@,
        Timeframe::M3 => "TIMEFRAME_M3"@,
        Timeframe::M4 => "TIMEFRAME_M4"@,
        Timeframe::M5 => "TIMEFRAME_M5"@,
        Timeframe::M6 => "TIMEFRAME_M6"@,
        Timeframe::M10 => "TIMEFRAME_M10"@,
        Timeframe::M12 => "TIMEFRAME_M12"@,
        Timeframe::M15 => "TIMEFRAME_M15"@,
        Timeframe::M20 => "TIMEFRAME_M20"@,
        Timeframe::M30 => "TIMEFRAME_M30"@,
        Timeframe::H1 => "TIMEFRAME_H1"@,
        Timeframe::H2 => "TIMEFRAME_H2"@,
        Timeframe::H3 => "TIMEFRAME_H3"@,
        Timeframe::H4 => "TIMEFRAME_H4"@,
        Timeframe::H6 => "TIMEFRAME_H6"@,
        Timeframe::H8 => "TIMEFRAME_H8"@,
        Timeframe::H12 => "TIMEFRAME_H12"@,
        Timeframe::D1 => "TIMEFRAME_D1"@,
        Timeframe::W1 => "TIMEFRAME_W1"@,
        Timeframe::Mn1 => "TIMEFRAME_MN1"@,
    }
}

/// The timeframe whose short name is `s`, if any.
pub open spec fn timeframe_named(s: Seq<char>) -> Option<Timeframe> {
    if s == "M1"@ {
        Some(Timeframe::M1)
    } else     if s == "M2"@ {
        Some(Timeframe::M2)
    } else     if s == "M3"@ {
        Some(Timeframe::M3)
    } else     if s == "M4"@ {
        Some(Timeframe::M4)
    } else     if s == "M5"@ {
        Some(Timeframe::M5)
    } else     if s == "M6"@ {
        Some(Timeframe::M6)
    } else     if s == "M10"@ {
        Some(Timeframe::M10)
    } else     if s == "M12"@ {
        Some(Timeframe::M12)
    } else     if s == "M15"@ {
        Some(Timeframe::M15)
    } else     if s == "M20"@ {
        Some(Timeframe::M20)
    } else     if s == "M30"@ {
        Some(Timeframe::M30)
    } else     if s == "H1"@ {
        Some(Timeframe::H1)
    } else     if s == "H2"@ {
        Some(Timeframe::H2)
    } else     if s == "H3"@ {
        Some(Timeframe::H3)
    } else     if s == "H4"@ {
        Some(Timeframe::H4)
    } else     if s == "H6"@ {
        Some(Timeframe::H6)
    } else     if s == "H8"@ {
        Some(Timeframe::H8)
    } else     if s == "H12"@ {
        Some(Timeframe::H12)
    } else     if s == "D1"@ {
        Some(Timeframe::D1)
    } else     if s == "W1"@ {
        Some(Timeframe::W1)
    } else     if s == "MN1"@ {
        Some(Timeframe::Mn1)
    } else {
        None
    }
}

/// The message of a refused timeframe name.
pub open spec fn unknown_timeframe_message(s: Seq<char>) -> Seq<char> {
    "unknown timeframe: "@ + s
}

impl Timeframe {
    /// The name the bridge API uses for this timeframe.
    pub fn as_api_str(self) -> (r: &'static str)
        ensures
            r@ == api_name(self),
    {
        match self {
            Timeframe::M1 => "TIMEFRAME_M1",
            Timeframe::M2 => "TIMEFRAME_M2",
            Timeframe::M3 => "TIMEFRAME_M3",
            Timeframe::M4 => "TIMEFRAME_M4",
            Timeframe::M5 => "TIMEFRAME_M5",
            Timeframe::M6 => "TIMEFRAME_M6",
            Timeframe::M10 => "TIMEFRAME_M10",
            Timeframe::M12 => "TIMEFRAME_M12",
            Timeframe::M15 => "TIMEFRAME_M15",
            Timeframe::M20 => "TIMEFRAME_M20",
            Timeframe::M30 => "TIMEFRAME_M30",
            Timeframe::H1 => "TIMEFRAME_H1",
            Timeframe::H2 => "TIMEFRAME_H2",
            Timeframe::H3 => "TIMEFRAME_H3",
            Timeframe::H4 => "TIMEFRAME_H4",
            Timeframe::H6 => "TIMEFRAME_H6",
            Timeframe::H8 => "TIMEFRAME_H8",
            Timeframe::H12 => "TIMEFRAME_H12",
            Timeframe::D1 => "TIMEFRAME_D1",
            Timeframe::W1 => "TIMEFRAME_W1",
            Timeframe::Mn1 => "TIMEFRAME_MN1",
        }
    }

    /// Reads a short timeframe name such as `"M15"`; any other text is refused
    /// with the message `unknown timeframe: <text>`.
    pub fn parse_name(s: &str) -> (r: Result<Timeframe, String>)
        ensures
            timeframe_named(s@) matches Some(tf) ==> r == Ok::<Timeframe, String>(tf),
            timeframe_named(s@) is None ==> (r matches Err(m) && m@ == unknown_timeframe_message(s@)),
    {
        if str_eq(s, "M1") {
            return Ok(Timeframe::M1);
        }
        if str_eq(s, "M2") {
            return Ok(Timeframe::M2);
        }
        if str_eq(s, "M3") {
            return Ok(Timeframe::M3);
        }
        if str_eq(s, "M4") {
            return Ok(Timeframe::M4);
        }
        if str_eq(s, "M5") {
            return Ok(Timeframe::M5);
        }
        if str_eq(s, "M6") {
            return Ok(Timeframe::M6);
        }
        if str_eq(s, "M10") {
            return Ok(Timeframe::M10);
        }
        if str_eq(s, "M12") {
            return Ok(Timeframe::M12);
        }
        if str_eq(s, "M15") {
            return Ok(Timeframe::M15);
        }
        if str_eq(s, "M20") {
            return Ok(Timeframe::M20);
        }
        if str_eq(s, "M30") {
            return Ok(Timeframe::M30);
        }
        if str_eq(s, "H1") {
            return Ok(Timeframe::H1);
        }
        if str_eq(s, "H2") {
            return Ok(Timeframe::H2);
        }
        if str_eq(s, "H3") {
            return Ok(Timeframe::H3);
        }
        if str_eq(s, "H4") {
            return Ok(Timeframe::H4);
        }
        if str_eq(s, "H6") {
            return Ok(Timeframe::H6);
        }
        if str_eq(s, "H8") {
            return Ok(Timeframe::H8);
        }
        if str_eq(s, "H12") {
            return Ok(Timeframe::H12);
        }
        if str_eq(s, "D1") {
            return Ok(Timeframe::D1);
        }
        if str_eq(s, "W1") {
            return Ok(Timeframe::W1);
        }
        if str_eq(s, "MN1") {
            return Ok(Timeframe::Mn1);
        }
        Err(concat2("unknown timeframe: ", s))
    }
}

impl std::str::FromStr for Timeframe {
    type Err = String;

    fn from_str(s: &str) -> (r: Result<Timeframe, String>)
        ensures
            timeframe_named(s@) matches Some(tf) ==> r == Ok::<Timeframe, String>(tf),
            timeframe_named(s@) is None ==> (r matches Err(m) && m@ == unknown_timeframe_message(s@)),
    {
        Timeframe::parse_name(s)
    }
}

/// Every timeframe is read back from its short name.
pub proof fn lemma_timeframe_round_trip(tf: Timeframe)
    ensures
        timeframe_named(short_name(tf)) == Some(tf),
{
    match tf {
        Timeframe::M1 => {
            reveal_strlit("M1");
            assert("M1"@.len() == 2);
        },
        Timeframe::M2 => {
            reveal_strlit("M2");
            reveal_strlit("M1");
            assert("M2"@.len() == 2);
            assert("M2"@[1] != "M1"@[1]);
        },
        Timeframe::M3 => {
            reveal_strlit("M3");
            reveal_strlit("M1");
            reveal_strlit("M2");
            assert("M3"@.len() == 2);
            assert("M3"@[1] != "M1"@[1]);
            assert("M3"@[1] != "M2"@[1]);
        },
        Timeframe::M4 => {
            reveal_strlit("M4");
            reveal_strlit("M1");
            reveal_strlit("M2");
            reveal_strlit("M3");
            assert("M4"@.len() == 2);
            assert("M4"@[1] != "M1"@[1]);
            assert("M4"@[1] != "M2"@[1]);
            assert("M4"@[1] != "M3"@[1]);
        },
        Timeframe::M5 => {
            reveal_strlit("M5");
            reveal_strlit("M1");
            reveal_strlit("M2");
            reveal_strlit("M3");
            reveal_strlit("M4");
            assert("M5"@.len() == 2);
            assert("M5"@[1] != "M1"@[1]);
            assert("M5"@[1] != "M2"@[1]);
            assert("M5"@[1] != "M3"@[1]);
            assert("M5"@[1] != "M4"@[1]);
        },
        Timeframe::M6 => {
            reveal_strlit("M6");
            reveal_strlit("M1");
            reveal_strlit("M2");
            reveal_strlit("M3");
            reveal_strlit("M4");
            reveal_strlit("M5");
            assert("M6"@.len() == 2);
            assert("M6"@[1] != "M1"@[1]);
            assert("M6"@[1] != "M2"@[1]);
            assert("M6"@[1] != "M3"@[1]);
            assert("M6"@[1] != "M4"@[1]);
            assert("M6"@[1] != "M5"@[1]);
        },
        Timeframe::M10 => {
            reveal_strlit("M10");
            reveal_strlit("M1");
            reveal_strlit("M2");
            reveal_strlit("M3");
            reveal_strlit("M4");
            reveal_strlit("M5");
            reveal_strlit("M6");
            assert("M10"@.len() == 3);
            assert("M1"@.len() == 2);
            assert("M2"@.len() == 2);
            assert("M3"@.len() == 2);
            assert("M4"@.len() == 2);
            assert("M5"@.len() == 2);
            assert("M6"@.len() == 2);
        },
        Timeframe::M12 => {
            reveal_strlit("M12");
            reveal_strlit("M1");
            reveal_strlit("M2");
            reveal_strlit("M3");
            reveal_strlit("M4");
            reveal_strlit("M5");
            reveal_strlit("M6");
            reveal_strlit("M10");
            assert("M12"@.len() == 3);
            assert("M1"@.len() == 2);
            assert("M2"@.len() == 2);
            assert("M3"@.len() == 2);
            assert("M4"@.len() == 2);
            assert("M5"@.len() == 2);
            assert("M6"@.len() == 2);
            assert("M12"@[2] != "M10"@[2]);
        },
        Timeframe::M15 => {
            reveal_strlit("M15");
            reveal_strlit("M1");
            reveal_strlit("M2");
            reveal_strlit("M3");
            reveal_strlit("M4");
            reveal_strlit("M5");
            reveal_strlit("M6");
            reveal_strlit("M10");
            reveal_strlit("M12");
            assert("M15"@.len() == 3);
            assert("M1"@.len() == 2);
            assert("M2"@.len() == 2);
            assert("M3"@.len() == 2);
            assert("M4"@.len() == 2);
            assert("M5"@.len() == 2);
            assert("M6"@.len() == 2);
            assert("M15"@[2] != "M10"@[2]);
            assert("M15"@[2] != "M12"@[2]);
        },
        Timeframe::M20 => {
            reveal_strlit("M20");
            reveal_strlit("M1");
            reveal_strlit("M2");
            reveal_strlit("M3");
            reveal_strlit("M4");
            reveal_strlit("M5");
            reveal_strlit("M6");
            reveal_strlit("M10");
            reveal_strlit("M12");
            reveal_strlit("M15");
            assert("M20"@.len() == 3);
            assert("M1"@.len() == 2);
            assert("M2"@.len() == 2);
            assert("M3"@.len() == 2);
            assert("M4"@.len() == 2);
            assert("M5"@.len() == 2);
            assert("M6"@.len() == 2);
            assert("M20"@[1] != "M10"@[1]);
            assert("M20"@[1] != "M12"@[1]);
            assert("M20"@[1] != "M15"@[1]);
        },
        Timeframe::M30 => {
            reveal_strlit("M30");
            reveal_strlit("M1");
            reveal_strlit("M2");
            reveal_strlit("M3");
            reveal_strlit("M4");
            reveal_strlit("M5");
            reveal_strlit("M6");
            reveal_strlit("M10");
            reveal_strlit("M12");
            reveal_strlit("M15");
            reveal_strlit("M20");
            assert("M30"@.len() == 3);
            assert("M1"@.len() == 2);
            assert("M2"@.len() == 2);
            assert("M3"@.len() == 2);
            assert("M4"@.len() == 2);
            assert("M5"@.len() == 2);
            assert("M6"@.len() == 2);
            assert("M30"@[1] != "M10"@[1]);
            assert("M30"@[1] != "M12"@[1]);
            assert("M30"@[1] != "M15"@[1]);
            assert("M30"@[1] != "M20"@[1]);
        },
        Timeframe::H1 => {
            reveal_strlit("H1");
            reveal_strlit("M1");
            reveal_strlit("M2");
            reveal_strlit("M3");
            reveal_strlit("M4");
            reveal_strlit("M5");
            reveal_strlit("M6");
            reveal_strlit("M10");
            reveal_strlit("M12");
            reveal_strlit("M15");
            reveal_strlit("M20");
            reveal_strlit("M30");
            assert("H1"@.len() == 2);
            assert("H1"@[0] != "M1"@[0]);
            assert("H1"@[0] != "M2"@[0]);
            assert("H1"@[0] != "M3"@[0]);
            assert("H1"@[0] != "M4"@[0]);
            assert("H1"@[0] != "M5"@[0]);
            assert("H1"@[0] != "M6"@[0]);
            assert("M10"@.len() == 3);
            assert("M12"@.len() == 3);
            assert("M15"@.len() == 3);
            assert("M20"@.len() == 3);
            assert("M30"@.len() == 3);
        },
        Timeframe::H2 => {
            reveal_strlit("H2");
            reveal_strlit("M1");
            reveal_strlit("M2");
            reveal_strlit("M3");
            reveal_strlit("M4");
            reveal_strlit("M5");
            reveal_strlit("M6");
            reveal_strlit("M10");
            reveal_strlit("M12");
            reveal_strlit("M15");
            reveal_strlit("M20");
            reveal_strlit("M30");
            reveal_strlit("H1");
            assert("H2"@.len() == 2);
            assert("H2"@[0] != "M1"@[0]);
            assert("H2"@[0] != "M2"@[0]);
            assert("H2"@[0] != "M3"@[0]);
            assert("H2"@[0] != "M4"@[0]);
            assert("H2"@[0] != "M5"@[0]);
            assert("H2"@[0] != "M6"@[0]);
            assert("M10"@.len() == 3);
            assert("M12"@.len() == 3);
            assert("M15"@.len() == 3);
            assert("M20"@.len() == 3);
            assert("M30"@.len() == 3);
            assert("H2"@[1] != "H1"@[1]);
        },
        Timeframe::H3 => {
            reveal_strlit("H3");
            reveal_strlit("M1");
            reveal_strlit("M2");
            reveal_strlit("M3");
            reveal_strlit("M4");
            reveal_strlit("M5");
            reveal_strlit("M6");
            reveal_strlit("M10");
            reveal_strlit("M12");
            reveal_strlit("M15");
            reveal_strlit("M20");
            reveal_strlit("M30");
            reveal_strlit("H1");
            reveal_strlit("H2");
            assert("H3"@.len() == 2);
            assert("H3"@[0] != "M1"@[0]);
            assert("H3"@[0] != "M2"@[0]);
            assert("H3"@[0] != "M3"@[0]);
            assert("H3"@[0] != "M4"@[0]);
            assert("H3"@[0] != "M5"@[0]);
            assert("H3"@[0] != "M6"@[0]);
            assert("M10"@.len() == 3);
            assert("M12"@.len() == 3);
            assert("M15"@.len() == 3);
            assert("M20"@.len() == 3);
            assert("M30"@.len() == 3);
            assert("H3"@[1] != "H1"@[1]);
            assert("H3"@[1] != "H2"@[1]);
        },
        Timeframe::H4 => {
            reveal_strlit("H4");
            reveal_strlit("M1");
            reveal_strlit("M2");
            reveal_strlit("M3");
            reveal_strlit("M4");
            reveal_strlit("M5");
            reveal_strlit("M6");
            reveal_strlit("M10");
            reveal_strlit("M12");
            reveal_strlit("M15");
            reveal_strlit("M20");
            reveal_strlit("M30");
            reveal_strlit("H1");
            reveal_strlit("H2");
            reveal_strlit("H3");
            assert("H4"@.len() == 2);
            assert("H4"@[0] != "M1"@[0]);
            assert("H4"@[0] != "M2"@[0]);
            assert("H4"@[0] != "M3"@[0]);
            assert("H4"@[0] != "M4"@[0]);
            assert("H4"@[0] != "M5"@[0]);
            assert("H4"@[0] != "M6"@[0]);
            assert("M10"@.len() == 3);
            assert("M12"@.len() == 3);
            assert("M15"@.len() == 3);
            assert("M20"@.len() == 3);
            assert("M30"@.len() == 3);
            assert("H4"@[1] != "H1"@[1]);
            assert("H4"@[1] != "H2"@[1]);
            assert("H4"@[1] != "H3"@[1]);
        },
        Timeframe::H6 => {
            reveal_strlit("H6");
            reveal_strlit("M1");
            reveal_strlit("M2");
            reveal_strlit("M3");
            reveal_strlit("M4");
            reveal_strlit("M5");
            reveal_strlit("M6");
            reveal_strlit("M10");
            reveal_strlit("M12");
            reveal_strlit("M15");
            reveal_strlit("M20");
            reveal_strlit("M30");
            reveal_strlit("H1");
            reveal_strlit("H2");
            reveal_strlit("H3");
            reveal_strlit("H4");
            assert("H6"@.len() == 2);
            assert("H6"@[0] != "M1"@[0]);
            assert("H6"@[0] != "M2"@[0]);
            assert("H6"@[0] != "M3"@[0]);
            assert("H6"@[0] != "M4"@[0]);
            assert("H6"@[0] != "M5"@[0]);
            assert("H6"@[0] != "M6"@[0]);
            assert("M10"@.len() == 3);
            assert("M12"@.len() == 3);
            assert("M15"@.len() == 3);
            assert("M20"@.len() == 3);
            assert("M30"@.len() == 3);
            assert("H6"@[1] != "H1"@[1]);
            assert("H6"@[1] != "H2"@[1]);
            assert("H6"@[1] != "H3"@[1]);
            assert("H6"@[1] != "H4"@[1]);
        },
        Timeframe::H8 => {
            reveal_strlit("H8");
            reveal_strlit("M1");
            reveal_strlit("M2");
            reveal_strlit("M3");
            reveal_strlit("M4");
            reveal_strlit("M5");
            reveal_strlit("M6");
            reveal_strlit("M10");
            reveal_strlit("M12");
            reveal_strlit("M15");
            reveal_strlit("M20");
            reveal_strlit("M30");
            reveal_strlit("H1");
            reveal_strlit("H2");
            reveal_strlit("H3");
            reveal_strlit("H4");
            reveal_strlit("H6");
            assert("H8"@.len() == 2);
            assert("H8"@[0] != "M1"@[0]);
            assert("H8"@[0] != "M2"@[0]);
            assert("H8"@[0] != "M3"@[0]);
            assert("H8"@[0] != "M4"@[0]);
            assert("H8"@[0] != "M5"@[0]);
            assert("H8"@[0] != "M6"@[0]);
            assert("M10"@.len() == 3);
            assert("M12"@.len() == 3);
            assert("M15"@.len() == 3);
            assert("M20"@.len() == 3);
            assert("M30"@.len() == 3);
            assert("H8"@[1] != "H1"@[1]);
            assert("H8"@[1] != "H2"@[1]);
            assert("H8"@[1] != "H3"@[1]);
            assert("H8"@[1] != "H4"@[1]);
            assert("H8"@[1] != "H6"@[1]);
        },
        Timeframe::H12 => {
            reveal_strlit("H12");
            reveal_strlit("M1");
            reveal_strlit("M2");
            reveal_strlit("M3");
            reveal_strlit("M4");
            reveal_strlit("M5");
            reveal_strlit("M6");
            reveal_strlit("M10");
            reveal_strlit("M12");
            reveal_strlit("M15");
            reveal_strlit("M20");
            reveal_strlit("M30");
            reveal_strlit("H1");
            reveal_strlit("H2");
            reveal_strlit("H3");
            reveal_strlit("H4");
            reveal_strlit("H6");
            reveal_strlit("H8");
            assert("H12"@.len() == 3);
            assert("M1"@.len() == 2);
            assert("M2"@.len() == 2);
            assert("M3"@.len() == 2);
            assert("M4"@.len() == 2);
            assert("M5"@.len() == 2);
            assert("M6"@.len() == 2);
            assert("H12"@[0] != "M10"@[0]);
            assert("H12"@[0] != "M12"@[0]);
            assert("H12"@[0] != "M15"@[0]);
            assert("H12"@[0] != "M20"@[0]);
            assert("H12"@[0] != "M30"@[0]);
            assert("H1"@.len() == 2);
            assert("H2"@.len() == 2);
            assert("H3"@.len() == 2);
            assert("H4"@.len() == 2);
            assert("H6"@.len() == 2);
            assert("H8"@.len() == 2);
        },
        Timeframe::D1 => {
            reveal_strlit("D1");
            reveal_strlit("M1");
            reveal_strlit("M2");
            reveal_strlit("M3");
            reveal_strlit("M4");
            reveal_strlit("M5");
            reveal_strlit("M6");
            reveal_strlit("M10");
            reveal_strlit("M12");
            reveal_strlit("M15");
            reveal_strlit("M20");
            reveal_strlit("M30");
            reveal_strlit("H1");
            reveal_strlit("H2");
            reveal_strlit("H3");
            reveal_strlit("H4");
            reveal_strlit("H6");
            reveal_strlit("H8");
            reveal_strlit("H12");
            assert("D1"@.len() == 2);
            assert("D1"@[0] != "M1"@[0]);
            assert("D1"@[0] != "M2"@[0]);
            assert("D1"@[0] != "M3"@[0]);
            assert("D1"@[0] != "M4"@[0]);
            assert("D1"@[0] != "M5"@[0]);
            assert("D1"@[0] != "M6"@[0]);
            assert("M10"@.len() == 3);
            assert("M12"@.len() == 3);
            assert("M15"@.len() == 3);
            assert("M20"@.len() == 3);
            assert("M30"@.len() == 3);
            assert("D1"@[0] != "H1"@[0]);
            assert("D1"@[0] != "H2"@[0]);
            assert("D1"@[0] != "H3"@[0]);
            assert("D1"@[0] != "H4"@[0]);
            assert("D1"@[0] != "H6"@[0]);
            assert("D1"@[0] != "H8"@[0]);
            assert("H12"@.len() == 3);
        },
        Timeframe::W1 => {
            reveal_strlit("W1");
            reveal_strlit("M1");
            reveal_strlit("M2");
            reveal_strlit("M3");
            reveal_strlit("M4");
            reveal_strlit("M5");
            reveal_strlit("M6");
            reveal_strlit("M10");
            reveal_strlit("M12");
            reveal_strlit("M15");
            reveal_strlit("M20");
            reveal_strlit("M30");
            reveal_strlit("H1");
            reveal_strlit("H2");
            reveal_strlit("H3");
            reveal_strlit("H4");
            reveal_strlit("H6");
            reveal_strlit("H8");
            reveal_strlit("H12");
            reveal_strlit("D1");
            assert("W1"@.len() == 2);
            assert("W1"@[0] != "M1"@[0]);
            assert("W1"@[0] != "M2"@[0]);
            assert("W1"@[0] != "M3"@[0]);
            assert("W1"@[0] != "M4"@[0]);
            assert("W1"@[0] != "M5"@[0]);
            assert("W1"@[0] != "M6"@[0]);
            assert("M10"@.len() == 3);
            assert("M12"@.len() == 3);
            assert("M15"@.len() == 3);
            assert("M20"@.len() == 3);
            assert("M30"@.len() == 3);
            assert("W1"@[0] != "H1"@[0]);
            assert("W1"@[0] != "H2"@[0]);
            assert("W1"@[0] != "H3"@[0]);
            assert("W1"@[0] != "H4"@[0]);
            assert("W1"@[0] != "H6"@[0]);
            assert("W1"@[0] != "H8"@[0]);
            assert("H12"@.len() == 3);
            assert("W1"@[0] != "D1"@[0]);
        },
        Timeframe::Mn1 => {
            reveal_strlit("MN1");
            reveal_strlit("M1");
            reveal_strlit("M2");
            reveal_strlit("M3");
            reveal_strlit("M4");
            reveal_strlit("M5");
            reveal_strlit("M6");
            reveal_strlit("M10");
            reveal_strlit("M12");
            reveal_strlit("M15");
            reveal_strlit("M20");
            reveal_strlit("M30");
            reveal_strlit("H1");
            reveal_strlit("H2");
            reveal_strlit("H3");
            reveal_strlit("H4");
            reveal_strlit("H6");
            reveal_strlit("H8");
            reveal_strlit("H12");
            reveal_strlit("D1");
            reveal_strlit("W1");
            assert("MN1"@.len() == 3);
            assert("M1"@.len() == 2);
            assert("M2"@.len() == 2);
            assert("M3"@.len() == 2);
            assert("M4"@.len() == 2);
            assert("M5"@.len() == 2);
            assert("M6"@.len() == 2);
            assert("MN1"@[1] != "M10"@[1]);
            assert("MN1"@[1] != "M12"@[1]);
            assert("MN1"@[1] != "M15"@[1]);
            assert("MN1"@[1] != "M20"@[1]);
            assert("MN1"@[1] != "M30"@[1]);
            assert("H1"@.len() == 2);
            assert("H2"@.len() == 2);
            assert("H3"@.len() == 2);
            assert("H4"@.len() == 2);
            assert("H6"@.len() == 2);
            assert("H8"@.len() == 2);
            assert("MN1"@[0] != "H12"@[0]);
            assert("D1"@.len() == 2);
            assert("W1"@.len() == 2);
        },
    }
}

/// A short name that is accepted names the timeframe whose API name is
/// `"TIMEFRAME_"` followed by that same short name.
pub proof fn lemma_api_name_extends_short_name(s: Seq<char>)
    requires
        timeframe_named(s) is Some,
    ensures
        api_name(timeframe_named(s).unwrap()) == "TIMEFRAME_"@ + s,
{
        reveal_strlit("TIMEFRAME_");
        reveal_strlit("M1");
        reveal_strlit("M2");
        reveal_strlit("M3");
        reveal_strlit("M4");
        reveal_strlit("M5");
        reveal_strlit("M6");
        reveal_strlit("M10");
        reveal_strlit("M12");
        reveal_strlit("M15");
        reveal_strlit("M20");
        reveal_strlit("M30");
        reveal_strlit("H1");
        reveal_strlit("H2");
        reveal_strlit("H3");
        reveal_strlit("H4");
        reveal_strlit("H6");
        reveal_strlit("H8");
        reveal_strlit("H12");
        reveal_strlit("D1");
        reveal_strlit("W1");
        reveal_strlit("MN1");
        reveal_strlit("TIMEFRAME_M1");
        reveal_strlit("TIMEFRAME_M2");
        reveal_strlit("TIMEFRAME_M3");
        reveal_strlit("TIMEFRAME_M4");
        reveal_strlit("TIMEFRAME_M5");
        reveal_strlit("TIMEFRAME_M6");
        reveal_strlit("TIMEFRAME_M10");
        reveal_strlit("TIMEFRAME_M12");
        reveal_strlit("TIMEFRAME_M15");
        reveal_strlit("TIMEFRAME_M20");
        reveal_strlit("TIMEFRAME_M30");
        reveal_strlit("TIMEFRAME_H1");
        reveal_strlit("TIMEFRAME_H2");
        reveal_strlit("TIMEFRAME_H3");
        reveal_strlit("TIMEFRAME_H4");
        reveal_strlit("TIMEFRAME_H6");
        reveal_strlit("TIMEFRAME_H8");
        reveal_strlit("TIMEFRAME_H12");
        reveal_strlit("TIMEFRAME_D1");
        reveal_strlit("TIMEFRAME_W1");
        reveal_strlit("TIMEFRAME_MN1");
    assert(api_name(timeframe_named(s).unwrap()) =~= "TIMEFRAME_"@ + s);
}

/// Distinct timeframes have distinct API names (and distinct short names), so the API
/// name identifies the timeframe.
pub proof fn lemma_api_names_distinct(a: Timeframe, b: Timeframe)
    requires
        a != b,
    ensures
        short_name(a) != short_name(b),
        api_name(a) != api_name(b),
{
    lemma_timeframe_round_trip(a);
    lemma_timeframe_round_trip(b);
    lemma_api_name_extends_short_name(short_name(a));
    lemma_api_name_extends_short_name(short_name(b));
    if api_name(a) == api_name(b) {
        let p = "TIMEFRAME_"@;
        assert(short_name(a) =~= api_name(a).subrange(p.len() as int, api_name(a).len() as int));
        assert(short_name(b) =~= api_name(b).subrange(p.len() as int, api_name(b).len() as int));
    }
}

} // verus!
