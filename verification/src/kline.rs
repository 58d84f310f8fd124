//! Candle intervals.

use vstd::prelude::*;
use vstd::string::StringExecFns;

verus! {

/// The path of the candle history.
pub const GET_KLINE_DATA: &'static str = "kline";

/// The length of one candle.
#[derive(Debug, Clone, Copy, PartialEq, Eq, Structural)]
pub enum KlineInterval {
    I1m,
    I3m,
    I5m,
    I15m,
    I30m,
    I1h,
    I2h,
    I4h,
    I8h,
    I12h,
    I1d,
}

impl KlineInterval {
    /// The interval as the exchange writes it.
    pub open spec fn wire(self) -> Seq<char> {
        match self {
            KlineInterval::I1m => "1m"@,
            KlineInterval::I3m => "3m"@,
            KlineInterval::I5m => "5m"@,
            KlineInterval::I15m => "15m"@,
            KlineInterval::I30m => "30m"@,
            KlineInterval::I1h => "1h"@,
            KlineInterval::I2h => "2h"@,
            KlineInterval::I4h => "4h"@,
            KlineInterval::I8h => "8h"@,
            KlineInterval::I12h => "12h"@,
            KlineInterval::I1d => "1d"@,
        }
    }

    /// The interval as the exchange writes it.
    pub fn as_str(&self) -> (r: &'static str)
        ensures
            r@ == self.wire(),
    {
        match self {
            KlineInterval::I1m => "1m",
            KlineInterval::I3m => "3m",
            KlineInterval::I5m => "5m",
            KlineInterval::I15m => "15m",
            KlineInterval::I30m => "30m",
            KlineInterval::I1h => "1h",
            KlineInterval::I2h => "2h",
            KlineInterval::I4h => "4h",
            KlineInterval::I8h => "8h",
            KlineInterval::I12h => "12h",
            KlineInterval::I1d => "1d",
        }
    }

    /// The interval as the exchange writes it, as an owned string.
    pub fn to_string(&self) -> (r: String)
        ensures
            r@ == self.wire(),
    {
        self.as_str().to_string()
    }
}

/// The character of one decimal digit.
pub open spec fn digit(d: nat) -> char {
    if d == 0 {
        '0'
    } else if d == 1 {
        '1'
    } else if d == 2 {
        '2'
    } else if d == 3 {
        '3'
    } else if d == 4 {
        '4'
    } else if d == 5 {
        '5'
    } else if d == 6 {
        '6'
    } else if d == 7 {
        '7'
    } else if d == 8 {
        '8'
    } else {
        '9'
    }
}

/// A number in decimal digits, without leading zeros.
pub open spec fn decimal_digits(n: nat) -> Seq<char>
    decreases n,
{
    if n < 10 {
        seq![digit(n)]
    } else {
        decimal_digits(n / 10).push(digit(n % 10))
    }
}

/// One decimal digit as text.
fn digit_str(d: u8) -> (r: &'static str)
    requires
        d < 10,
    ensures
        r@ == seq![digit(d as nat)],
{
    proof {
        reveal_strlit("0");
        reveal_strlit("1");
        reveal_strlit("2");
        reveal_strlit("3");
        reveal_strlit("4");
        reveal_strlit("5");
        reveal_strlit("6");
        reveal_strlit("7");
        reveal_strlit("8");
        reveal_strlit("9");
    }
    let r = if d == 0 {
        "0"
    } else if d == 1 {
        "1"
    } else if d == 2 {
        "2"
    } else if d == 3 {
        "3"
    } else if d == 4 {
        "4"
    } else if d == 5 {
        "5"
    } else if d == 6 {
        "6"
    } else if d == 7 {
        "7"
    } else if d == 8 {
        "8"
    } else {
        "9"
    };
    assert(r@ =~= seq![digit(d as nat)]);
    r
}

/// Writes a number's decimal digits behind what `out` holds.
fn append_digits(n: u128, out: &mut String)
    ensures
        final(out)@ == old(out)@ + decimal_digits(n as nat),
    decreases n,
{
    if n >= 10 {
        append_digits(n / 10, out);
    }
    let last = digit_str((n % 10) as u8);
    out.append(last);
    proof {
        if n >= 10 {
            assert(old(out)@ + decimal_digits((n / 10) as nat) + seq![digit((n % 10) as nat)]
                =~= old(out)@ + decimal_digits(n as nat));
        }
    }
}

/// A number in decimal digits.
pub fn number_text(n: u128) -> (r: String)
    ensures
        r@ == decimal_digits(n as nat),
{
    let mut out = String::new();
    append_digits(n, &mut out);
    proof {
        assert(Seq::<char>::empty() + decimal_digits(n as nat) =~= decimal_digits(n as nat));
    }
    out
}

/// The names and values of each pair, one by one.
pub open spec fn pairs_view(pairs: Seq<(String, String)>) -> Seq<(Seq<char>, Seq<char>)> {
    Seq::new(pairs.len(), |i: int| (pairs[i].0@, pairs[i].1@))
}

/// The query of a request for candles: the market, the interval, the start
/// and, only where an end is given, the end.
pub open spec fn kline_query_view(
    symbol: Seq<char>,
    interval: KlineInterval,
    start_time: u128,
    end_time: Option<u128>,
) -> Seq<(Seq<char>, Seq<char>)> {
    let always = seq![
        ("symbol"@, symbol),
        ("interval"@, interval.wire()),
        ("start_time"@, decimal_digits(start_time as nat)),
    ];
    match end_time {
        Some(end) => always.push(("end_time"@, decimal_digits(end as nat))),
        None => always,
    }
}

/// The query of a request for the candles of a market from `start_time` on,
/// in milliseconds, up to `end_time` or, where none is given, up to now.
pub fn kline_query(
    symbol: &str,
    interval: KlineInterval,
    start_time: u128,
    end_time: Option<u128>,
) -> (r: Vec<(String, String)>)
    ensures
        pairs_view(r@) == kline_query_view(symbol@, interval, start_time, end_time),
{
    let mut pairs: Vec<(String, String)> = Vec::new();
    pairs.push(("symbol".to_string(), symbol.to_string()));
    pairs.push(("interval".to_string(), interval.to_string()));
    pairs.push(("start_time".to_string(), number_text(start_time)));
    match end_time {
        Some(end) => {
            pairs.push(("end_time".to_string(), number_text(end)));
        },
        None => {},
    }
    proof {
        assert(pairs_view(pairs@) =~= kline_query_view(symbol@, interval, start_time, end_time));
    }
    pairs
}

} // verus!
