use vstd::prelude::*;

use crate::error::RemindmeError;

verus! {

broadcast use vstd::string::to_string_from_display_ensures_for_str;

/// Earliest instant, in seconds since the Unix epoch, that chrono represents.
pub const MIN_TIMESTAMP: i64 = -8334601315200;

/// Latest instant, in seconds since the Unix epoch, that chrono represents.
pub const MAX_TIMESTAMP: i64 = 8210266876799;

/// Largest number of whole seconds a chrono `TimeDelta` holds.
pub const MAX_DELTA_SECS: i64 = 9223372036854775;

/// An absolute instant, in whole seconds since the Unix epoch (UTC).
#[derive(Debug, Clone, Copy, PartialEq, Eq, Structural, Hash)]
pub struct Time {
    pub secs: i64,
}

impl Time {
    /// The instant lies within the range chrono can represent.
    pub open spec fn wf(self) -> bool {
        MIN_TIMESTAMP <= self.secs <= MAX_TIMESTAMP
    }

    /// The instant `secs` seconds after the epoch, if chrono can represent it.
    pub fn from_timestamp(secs: i64) -> (r: Option<Time>)
        ensures
            r == (if MIN_TIMESTAMP <= secs <= MAX_TIMESTAMP {
                Some(Time { secs })
            } else {
                None::<Time>
            }),
    {
        if MIN_TIMESTAMP <= secs && secs <= MAX_TIMESTAMP {
            Some(Time { secs })
        } else {
            None
        }
    }

    pub fn timestamp(&self) -> (r: i64)
        ensures
            r == self.secs,
    {
        self.secs
    }
}

/// What chrono's `NaiveDateTime::parse_from_str` makes of `input` under
/// `format`, read as UTC seconds since the epoch.
pub uninterp spec fn naive_parse(input: Seq<char>, format: Seq<char>) -> Option<int>;

/// Relies on chrono's `Local::now`: the current instant, which chrono can
/// represent.
#[verifier::external_body]
pub fn now() -> (r: Time)
    ensures
        r.wf(),
{
    Time { secs: chrono::Local::now().timestamp() }
}

/// Relies on chrono's `NaiveDateTime::parse_from_str`, read as UTC; a parsed
/// date lies within chrono's range.
#[verifier::external_body]
fn parse_naive(input: &str, format: &str) -> (r: Option<Time>)
    ensures
        r matches Some(t) ==> Some(t.secs as int) == naive_parse(input@, format@) && t.wf(),
        r is None ==> naive_parse(input@, format@) is None,
{
    chrono::NaiveDateTime::parse_from_str(input, format)
        .ok()
        .map(|dt| Time { secs: dt.and_utc().timestamp() })
}

/// Relies on chrono's `DateTime::checked_add_signed`, which fails exactly
/// when the sum leaves chrono's range; the delta is built with
/// `TimeDelta::new`, which holds any count up to `MAX_DELTA_SECS`.
#[verifier::external_body]
fn checked_add_secs(t: Time, secs: i64) -> (r: Option<Time>)
    requires
        t.wf(),
        0 <= secs <= MAX_DELTA_SECS,
    ensures
        r == (if t.secs + secs <= MAX_TIMESTAMP {
            Some(Time { secs: (t.secs + secs) as i64 })
        } else {
            None::<Time>
        }),
{
    let start = chrono::DateTime::from_timestamp(t.secs, 0).unwrap();
    let delta = chrono::TimeDelta::new(secs, 0).unwrap();
    start.checked_add_signed(delta).map(|d| Time { secs: d.timestamp() })
}

/// Seconds in one of the units `s`, `m`, `h`, `d`, `w`.
pub open spec fn unit_secs(unit: char) -> int {
    if unit == 's' {
        1
    } else if unit == 'm' {
        60
    } else if unit == 'h' {
        3600
    } else if unit == 'd' {
        86400
    } else {
        604800
    }
}

pub open spec fn is_unit(c: char) -> bool {
    c == 's' || c == 'm' || c == 'h' || c == 'd' || c == 'w'
}

pub open spec fn is_digit(c: char) -> bool {
    '0' <= c <= '9'
}

/// Value of a string of decimal digits.
pub open spec fn digits_value(s: Seq<char>) -> int
    decreases s.len(),
{
    if s.len() == 0 {
        0
    } else {
        digits_value(s.drop_last()) * 10 + (s.last() as int - '0' as int)
    }
}

/// The digits of an unsigned decimal literal: an optional `+`, then at least one digit.
pub open spec fn literal_digits(s: Seq<char>) -> Seq<char> {
    if s.len() > 0 && s[0] == '+' {
        s.subrange(1, s.len() as int)
    } else {
        s
    }
}

/// `s` is an unsigned decimal literal whose value fits in a `u64`.
pub open spec fn is_u64_literal(s: Seq<char>) -> bool {
    let d = literal_digits(s);
    &&& d.len() > 0
    &&& forall|i: int| 0 <= i < d.len() ==> is_digit(#[trigger] d[i])
    &&& digits_value(d) <= u64::MAX
}

/// The error that reports an out-of-bounds count `n` of `unit`.
pub open spec fn unit_error(unit: char, n: u64) -> RemindmeError {
    if unit == 's' {
        RemindmeError::TimeDeltaSec(n)
    } else if unit == 'm' {
        RemindmeError::TimeDeltaMin(n)
    } else if unit == 'h' {
        RemindmeError::TimeDeltaH(n)
    } else if unit == 'd' {
        RemindmeError::TimeDeltaD(n)
    } else {
        RemindmeError::TimeDeltaW(n)
    }
}

/// The day-first absolute format, tried first.
pub open spec fn day_first_format() -> Seq<char> {
    seq!['%', 'd', '.', '%', 'm', '.', '%', 'Y', ' ', '%', 'H', ':', '%', 'M']
}

/// The year-first absolute format, tried second.
pub open spec fn year_first_format() -> Seq<char> {
    seq!['%', 'Y', '-', '%', 'm', '-', '%', 'd', ' ', '%', 'H', ':', '%', 'M']
}

/// Whether `s` parses at `now`, and to which instant: `Ok(Some(t))` for an
/// instant, `Ok(None)` for a malformed expression, `Err(n)` for a count `n`
/// of the unit that does not fit in a duration or whose sum leaves the range.
pub open spec fn parse_spec(s: Seq<char>, now: int) -> Result<Option<int>, u64> {
    if s.len() > 0 && is_unit(s.last()) {
        let digits = s.drop_last();
        if !is_u64_literal(digits) {
            Ok(None)
        } else {
            let n = digits_value(literal_digits(digits));
            let secs = n * unit_secs(s.last());
            if secs > MAX_DELTA_SECS || now + secs > MAX_TIMESTAMP {
                Err(n as u64)
            } else {
                Ok(Some(now + secs))
            }
        }
    } else if naive_parse(s, day_first_format()) is Some {
        Ok(naive_parse(s, day_first_format()))
    } else {
        Ok(naive_parse(s, year_first_format()))
    }
}


/// `r` is what parsing `s` at `now` gives, as `parse_spec` describes it.
pub open spec fn parse_outcome(s: Seq<char>, now: int, r: Result<Time, RemindmeError>) -> bool {
    match parse_spec(s, now) {
        Ok(Some(v)) => r == Ok::<Time, RemindmeError>(Time { secs: v as i64 }),
        Ok(None) => r is Err && r->Err_0 is ParseTime && r->Err_0->ParseTime_0@ == s,
        Err(n) => r == Err::<Time, RemindmeError>(unit_error(s.last(), n)),
    }
}

proof fn lemma_digits_value_nonneg(s: Seq<char>)
    requires
        forall|i: int| 0 <= i < s.len() ==> is_digit(#[trigger] s[i]),
    ensures
        digits_value(s) >= 0,
    decreases s.len(),
{
    if s.len() > 0 {
        lemma_digits_value_nonneg(s.drop_last());
    }
}

/// A longer string of digits is worth at least as much as its prefix.
proof fn lemma_digits_value_prefix(s: Seq<char>, k: int)
    requires
        0 <= k <= s.len(),
        forall|i: int| 0 <= i < s.len() ==> is_digit(#[trigger] s[i]),
    ensures
        digits_value(s) >= digits_value(s.subrange(0, k)),
    decreases s.len(),
{
    if k < s.len() {
        let p = s.drop_last();
        lemma_digits_value_prefix(p, k);
        lemma_digits_value_nonneg(p);
        assert(p.subrange(0, k) =~= s.subrange(0, k));
    } else {
        assert(s.subrange(0, k) =~= s);
    }
}

/// Reads the unsigned decimal literal that makes up the first `end`
/// characters of `s`, as `str::parse::<u64>` accepts it.
fn parse_u64_prefix(s: &str, end: usize) -> (r: Option<u64>)
    requires
        end <= s@.len(),
    ensures
        r == (if is_u64_literal(s@.subrange(0, end as int)) {
            Some(digits_value(literal_digits(s@.subrange(0, end as int))) as u64)
        } else {
            None::<u64>
        }),
        r matches Some(v) ==> v as int == digits_value(literal_digits(s@.subrange(0, end as int))),
{
    let ghost text = s@.subrange(0, end as int);
    let start: usize = if end > 0 && s.get_char(0) == '+' { 1 } else { 0 };
    let ghost d = literal_digits(text);
    assert(d =~= s@.subrange(start as int, end as int));
    if start == end {
        return None;
    }
    let mut i: usize = start;
    while i < end
        invariant
            start <= i <= end <= s@.len(),
            d =~= s@.subrange(start as int, end as int),
            text == s@.subrange(0, end as int),
            d == literal_digits(text),
            forall|j: int| start <= j < i ==> is_digit(#[trigger] s@[j]),
        decreases end - i,
    {
        let c = s.get_char(i);
        assert(d[i - start] == c);
        if !('0' <= c && c <= '9') {
            assert(!is_digit(d[i - start]));
            return None;
        }
        i = i + 1;
    }
    assert(forall|j: int| 0 <= j < d.len() ==> is_digit(#[trigger] d[j])) by {
        assert(forall|j: int| 0 <= j < d.len() ==> d[j] == s@[start + j]);
    }
    let mut acc: u64 = 0;
    let mut i: usize = start;
    assert(d.subrange(0, 0) =~= Seq::<char>::empty());
    while i < end
        invariant
            start <= i <= end <= s@.len(),
            d =~= s@.subrange(start as int, end as int),
            text == s@.subrange(0, end as int),
            d == literal_digits(text),
            forall|j: int| 0 <= j < d.len() ==> is_digit(#[trigger] d[j]),
            acc as int == digits_value(d.subrange(0, i - start)),
        decreases end - i,
    {
        let c = s.get_char(i);
        assert(d[i - start] == c);
        assert(is_digit(c));
        let digit = (c as u32 - '0' as u32) as u64;
        let ghost prefix = d.subrange(0, i + 1 - start);
        assert(prefix.drop_last() =~= d.subrange(0, i - start));
        assert(prefix.last() == c);
        if acc > (u64::MAX - digit) / 10 {
            proof {
                lemma_digits_value_prefix(d, i + 1 - start);
                assert(acc * 10 + digit > u64::MAX) by (nonlinear_arith)
                    requires acc > (u64::MAX - digit) / 10, digit <= 9;
                assert(digits_value(prefix) == acc * 10 + digit);
                assert(digits_value(d) > u64::MAX);
                assert(!is_u64_literal(text));
            }
            return None;
        }
        acc = acc * 10 + digit;
        i = i + 1;
    }
    assert(d.subrange(0, end - start) =~= d);
    proof {
        lemma_digits_value_nonneg(d);
    }
    Some(acc)
}

/// Converts a time expression into an absolute instant, relative to `now`:
/// `<n><unit>` adds `n` seconds, minutes, hours, days or weeks to `now`;
/// anything else must be a date in the form `DD.MM.YYYY HH:MM` or, failing
/// that, `YYYY-MM-DD HH:MM`, read as UTC.
pub fn parse_at(s: &str, now: Time) -> (r: Result<Time, RemindmeError>)
    requires
        now.wf(),
    ensures
        parse_outcome(s@, now.secs as int, r),
        r matches Ok(t) ==> t.wf(),
{
    let len = s.unicode_len();
    if len > 0 {
        let unit = s.get_char(len - 1);
        if unit == 's' || unit == 'm' || unit == 'h' || unit == 'd' || unit == 'w' {
            proof {
                assert(s@.drop_last() =~= s@.subrange(0, len - 1));
            }
            let n = match parse_u64_prefix(s, len - 1) {
                Some(n) => n,
                None => return Err(RemindmeError::ParseTime(s.to_string())),
            };
            let per: u64 = if unit == 's' {
                1
            } else if unit == 'm' {
                60
            } else if unit == 'h' {
                3600
            } else if unit == 'd' {
                86400
            } else {
                604800
            };
            let over = if unit == 's' {
                RemindmeError::TimeDeltaSec(n)
            } else if unit == 'm' {
                RemindmeError::TimeDeltaMin(n)
            } else if unit == 'h' {
                RemindmeError::TimeDeltaH(n)
            } else if unit == 'd' {
                RemindmeError::TimeDeltaD(n)
            } else {
                RemindmeError::TimeDeltaW(n)
            };
            assert(per == unit_secs(s@.last()));
            assert(over == unit_error(s@.last(), n));
            let ghost digits = s@.drop_last();
            assert(is_u64_literal(digits));
            assert(n == digits_value(literal_digits(digits)));
            if n > (MAX_DELTA_SECS as u64) / per {
                assert(n * per > MAX_DELTA_SECS) by (nonlinear_arith)
                    requires n > (MAX_DELTA_SECS as u64) / per, per > 0;
                assert(parse_spec(s@, now.secs as int) == Err::<Option<int>, u64>(n));
                return Err(over);
            }
            assert(n * per <= MAX_DELTA_SECS) by (nonlinear_arith)
                requires n <= (MAX_DELTA_SECS as u64) / per, per > 0;
            let secs = (n * per) as i64;
            return match checked_add_secs(now, secs) {
                Some(t) => Ok(t),
                None => Err(over),
            };
        }
    }
    proof {
        reveal_strlit("%d.%m.%Y %H:%M");
        reveal_strlit("%Y-%m-%d %H:%M");
        assert("%d.%m.%Y %H:%M"@ =~= day_first_format());
        assert("%Y-%m-%d %H:%M"@ =~= year_first_format());
    }
    match parse_naive(s, "%d.%m.%Y %H:%M") {
        Some(t) => Ok(t),
        None => match parse_naive(s, "%Y-%m-%d %H:%M") {
            Some(t) => Ok(t),
            None => Err(RemindmeError::ParseTime(s.to_string())),
        },
    }
}

/// Converts a time expression into an absolute instant, relative to the
/// current time, as `parse_at` does.
pub fn parse(s: &str) -> (r: Result<Time, RemindmeError>)
    ensures
        exists|t: Time| t.wf() && #[trigger] parse_outcome(s@, t.secs as int, r),
{
    let t = now();
    parse_at(s, t)
}

} // verus!
