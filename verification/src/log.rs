//! The append-only history log.
//!
//! A log is a sequence of lines: a fixed column-header line first,
//! then one rendered record per successful ingestion cycle. Records
//! are rendered here, down to the digit, by verified formatting:
//! readings to 3 decimal places, the residual to 6, the temperature
//! to 2, each fixed-point value truncated toward zero. Writing the
//! lines to storage is the caller's business; a storage failure
//! cannot touch what is proved here.

use vstd::prelude::*;
use vstd::string::StringExecFns;
use crate::fixed::{abs_int, FP_SCALE};

verus! {

/// The decimal digit character for `d` in `0 ..= 9`.
pub open spec fn digit_char(d: int) -> char {
    if d == 0 {
        '0'
    } else if d == 1 {
        '1'
    } else if d == 2 {
        '2'
    } else if d == 3 {
        '3'
    } else if d == 4 {
        '4'
    } else if d == 5 {
        '5'
    } else if d == 6 {
        '6'
    } else if d == 7 {
        '7'
    } else if d == 8 {
        '8'
    } else {
        '9'
    }
}

/// Decimal digits of `n`, most significant first, no leading zeros
/// (a single `'0'` for zero).
pub open spec fn dec_digits(n: nat) -> Seq<char>
    decreases n,
{
    if n < 10 {
        seq![digit_char(n as int)]
    } else {
        dec_digits(n / 10).push(digit_char((n % 10) as int))
    }
}

/// Exactly `width` decimal digits of `n`, zero-padded on the left,
/// most significant first.
pub open spec fn dec_digits_fixed(n: nat, width: nat) -> Seq<char>
    decreases width,
{
    if width == 0 {
        Seq::empty()
    } else {
        dec_digits_fixed(n / 10, (width - 1) as nat).push(digit_char((n % 10) as int))
    }
}

/// `10 ^ k`.
pub open spec fn pow10(k: nat) -> nat
    decreases k,
{
    if k == 0 {
        1
    } else {
        10 * pow10((k - 1) as nat)
    }
}

/// Decimal rendering of the nano-unit value `v` with `places`
/// fractional digits, truncated toward zero: an optional minus sign,
/// the integer part without leading zeros, a dot, then the first
/// `places` digits of the nine-digit fraction. Truncation, not
/// rounding, is the defined behavior: the dropped digits never carry
/// into the ones kept, so every rendered digit is a digit of the
/// stored value.
pub open spec fn fmt_fixed(v: int, places: nat) -> Seq<char> {
    let sign: Seq<char> = if v < 0 {
        seq!['-']
    } else {
        Seq::empty()
    };
    let m = abs_int(v);
    sign + dec_digits((m / (FP_SCALE as int)) as nat) + seq!['.'] + dec_digits_fixed(
        ((m % (FP_SCALE as int)) / (pow10((9 - places) as nat) as int)) as nat,
        places,
    )
}

fn digit_str(d: u64) -> (s: &'static str)
    requires
        d < 10,
    ensures
        s@ == seq![digit_char(d as int)],
{
    let s: &'static str = if d == 0 {
        "0"
    } else if d == 1 {
        "1"
    } else if d == 2 {
        "2"
    } else if d == 3 {
        "3"
    } else if d == 4 {
        "4"
    } else if d == 5 {
        "5"
    } else if d == 6 {
        "6"
    } else if d == 7 {
        "7"
    } else if d == 8 {
        "8"
    } else {
        "9"
    };
    proof {
        reveal_strlit("0");
        reveal_strlit("1");
        reveal_strlit("2");
        reveal_strlit("3");
        reveal_strlit("4");
        reveal_strlit("5");
        reveal_strlit("6");
        reveal_strlit("7");
        reveal_strlit("8");
        reveal_strlit("9");
    }
    assert(s@ =~= seq![digit_char(d as int)]);
    s
}

fn push_digits(n: u64, out: &mut String)
    ensures
        final(out)@ == old(out)@ + dec_digits(n as nat),
    decreases n,
{
    let ghost pre: Seq<char> = out@;
    if n < 10 {
        out.append(digit_str(n));
    } else {
        push_digits(n / 10, out);
        out.append(digit_str(n % 10));
        proof {
            assert(pre + dec_digits(n as nat) =~= (pre + dec_digits((n / 10) as nat)) + seq![
                digit_char((n % 10) as int),
            ]);
        }
    }
}

fn push_digits_fixed(n: u64, width: u64, out: &mut String)
    ensures
        final(out)@ == old(out)@ + dec_digits_fixed(n as nat, width as nat),
    decreases width,
{
    let ghost pre: Seq<char> = out@;
    if width == 0 {
        proof {
            assert(pre + dec_digits_fixed(n as nat, 0) =~= pre);
        }
    } else {
        push_digits_fixed(n / 10, width - 1, out);
        out.append(digit_str(n % 10));
        proof {
            assert(pre + dec_digits_fixed(n as nat, width as nat) =~= (pre + dec_digits_fixed(
                (n / 10) as nat,
                (width - 1) as nat,
            )) + seq![digit_char((n % 10) as int)]);
        }
    }
}

/// Render a nano-unit value with `places` fractional digits; returns
/// exactly `fmt_fixed`.
pub fn format_fixed(v: i64, places: u64) -> (s: String)
    requires
        1 <= places <= 9,
    ensures
        s@ == fmt_fixed(v as int, places as nat),
{
    let mut out = String::from_str("");
    proof {
        reveal_strlit("");
        reveal_strlit("-");
        reveal_strlit(".");
    }
    assert(out@ =~= Seq::<char>::empty());
    if v < 0 {
        out.append("-");
        assert(out@ =~= seq!['-']);
    }
    let m: u64 = if v < 0 {
        (-(v as i128)) as u64
    } else {
        v as u64
    };
    assert(m as int == abs_int(v as int));
    proof {
        reveal_with_fuel(pow10, 10);
    }
    let divisor: u64 = if places == 1 {
        100_000_000
    } else if places == 2 {
        10_000_000
    } else if places == 3 {
        1_000_000
    } else if places == 4 {
        100_000
    } else if places == 5 {
        10_000
    } else if places == 6 {
        1_000
    } else if places == 7 {
        100
    } else if places == 8 {
        10
    } else {
        1
    };
    assert(divisor as nat == pow10((9 - places) as nat));
    let ipart: u64 = m / 1_000_000_000;
    let frac: u64 = (m % 1_000_000_000) / divisor;
    push_digits(ipart, &mut out);
    out.append(".");
    push_digits_fixed(frac, places, &mut out);
    assert(out@ =~= fmt_fixed(v as int, places as nat));
    out
}

/// One record of the history log, ready to render.
#[derive(Clone, Debug, PartialEq, Eq)]
pub struct LogRecord {
    /// Timestamp text, second precision, supplied by the caller.
    pub timestamp: String,
    pub actual: i64,
    pub predicted: i64,
    pub residual_error: i64,
    pub temperature: i64,
}

/// A rendered line from its parts: timestamp text, then the four
/// numeric fields to 3, 3, 6 and 2 decimal places, comma-separated.
pub open spec fn record_fields_line(
    ts: Seq<char>,
    actual: i64,
    predicted: i64,
    residual_error: i64,
    temperature: i64,
) -> Seq<char> {
    ts + seq![','] + fmt_fixed(actual as int, 3) + seq![','] + fmt_fixed(predicted as int, 3)
        + seq![','] + fmt_fixed(residual_error as int, 6) + seq![','] + fmt_fixed(
        temperature as int,
        2,
    )
}

/// The rendered line of a record.
pub open spec fn record_line(rec: LogRecord) -> Seq<char> {
    record_fields_line(
        rec.timestamp@,
        rec.actual,
        rec.predicted,
        rec.residual_error,
        rec.temperature,
    )
}

/// The fixed first line of every log.
pub open spec fn header_line() -> Seq<char> {
    "timestamp,actual_humidity,predicted_humidity,residual_error,temperature"@
}

/// Append-only sink of rendered records.
pub struct HistoryLog {
    lines: Vec<String>,
}

impl HistoryLog {
    /// The lines the log holds, first to last.
    pub closed spec fn lines(&self) -> Seq<Seq<char>> {
        self.lines@.map_values(|s: String| s@)
    }

    /// A log always starts with the header line.
    pub open spec fn wf(&self) -> bool {
        &&& self.lines().len() >= 1
        &&& self.lines()[0] == header_line()
    }

    /// Fresh log: the header line and nothing else.
    pub fn new() -> (log: HistoryLog)
        ensures
            log.wf(),
            log.lines().len() == 1,
            log.lines()[0] == header_line(),
    {
        let mut lines: Vec<String> = Vec::new();
        lines.push(String::from_str(
            "timestamp,actual_humidity,predicted_humidity,residual_error,temperature",
        ));
        let log = HistoryLog { lines };
        assert(log.lines() =~= seq![header_line()]);
        log
    }

    /// Append one record, rendered; exactly one line is added and
    /// every earlier line stays as it was.
    pub fn append(&mut self, rec: &LogRecord)
        ensures
            final(self).lines() == old(self).lines().push(record_line(*rec)),
            final(self).lines().len() == old(self).lines().len() + 1,
            old(self).wf() ==> final(self).wf(),
    {
        let ts = rec.timestamp.clone();
        proof {
            reveal_strlit(",");
        }
        let mut line = ts;
        line.append(",");
        let a = format_fixed(rec.actual, 3);
        line.append(a.as_str());
        line.append(",");
        let p = format_fixed(rec.predicted, 3);
        line.append(p.as_str());
        line.append(",");
        let e = format_fixed(rec.residual_error, 6);
        line.append(e.as_str());
        line.append(",");
        let t = format_fixed(rec.temperature, 2);
        line.append(t.as_str());
        assert(line@ =~= record_line(*rec));
        let ghost prelines: Seq<String> = self.lines@;
        self.lines.push(line);
        proof {
            assert(self.lines@.map_values(|s: String| s@) =~= prelines.map_values(|s: String| s@)
                .push(line@));
        }
    }

    /// Append one record stamped by the wall clock, read through the
    /// trusted chrono call. The timestamp text is not promised, so
    /// the contract states what holds of every outcome: exactly one
    /// line is appended, rendering the given fields after some
    /// timestamp.
    pub fn append_now(&mut self, actual: i64, predicted: i64, residual_error: i64, temperature: i64)
        ensures
            final(self).lines().len() == old(self).lines().len() + 1,
            exists|ts: Seq<char>|
                final(self).lines() == old(self).lines().push(
                    record_fields_line(ts, actual, predicted, residual_error, temperature),
                ),
            old(self).wf() ==> final(self).wf(),
    {
        let timestamp = crate::clock::timestamp_now();
        let ghost ts: Seq<char> = timestamp@;
        let ghost pre: Seq<Seq<char>> = self.lines();
        let rec = LogRecord { timestamp, actual, predicted, residual_error, temperature };
        self.append(&rec);
        proof {
            assert(self.lines() == pre.push(
                record_fields_line(ts, actual, predicted, residual_error, temperature),
            ));
        }
    }

    /// Number of lines, header included.
    pub fn line_count(&self) -> (n: usize)
        ensures
            n == self.lines().len(),
    {
        self.lines.len()
    }

    /// The `i`-th line.
    pub fn line(&self, i: usize) -> (s: &String)
        requires
            i < self.lines().len(),
        ensures
            s@ == self.lines()[i as int],
    {
        &self.lines[i]
    }
}

} // verus!
