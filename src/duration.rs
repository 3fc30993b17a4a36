//! Parsing of the `interval` and `period` durations.
use vstd::prelude::*;
use vstd::string::StrSliceExecFns;

verus! {

/// Unit in which the sampling interval was given.
#[derive(Clone, Copy, Debug, PartialEq, Eq, Structural)]
pub enum TimeType {
    SECONDS,
    MILLISECONDS,
}

/// Why a duration text was rejected.
#[derive(Clone, Copy, Debug, PartialEq, Eq, Structural)]
pub enum DurationFault {
    /// The text is not a (suffixed) unsigned decimal integer.
    Unparsable,
    /// A millisecond value below the 10 ms floor.
    BelowFloor,
    /// A duration of zero.
    Zero,
    /// The value in milliseconds does not fit in a `u64`.
    OutOfRange,
}

/// Errors of the collection and visualization core.
#[derive(Clone, Debug)]
pub enum PDError {
    /// A duration field (`interval` or `period`) could not be accepted.
    CollectorInvalidParams { field: String, fault: DurationFault },
    /// No client-side script is registered under this identifier.
    VisualizerJSFileGetError(String),
    /// No visualizer is registered under this name.
    VisualizerHashMapEntryError(String),
    /// A collector reported a failure.
    CollectorError { name: String, message: String },
    /// A visualizer reported a failure.
    VisualizerError { name: String, message: String },
    /// The directory holds no run manifest document.
    ManifestMissing(String),
    /// The run names could not be written as JSON.
    RunNamesEncodeError,
}

pub open spec fn is_digit(c: char) -> bool {
    '0' <= c && c <= '9'
}

pub open spec fn all_digits(d: Seq<char>) -> bool {
    forall|i: int| 0 <= i < d.len() ==> is_digit(#[trigger] d[i])
}

/// The value of a sequence of decimal digits, most significant first.
pub open spec fn digits_value(d: Seq<char>) -> int
    decreases d.len(),
{
    if d.len() == 0 {
        0
    } else {
        digits_value(d.drop_last()) * 10 + (d.last() as int - '0' as int)
    }
}

/// The digits of an unsigned integer text, after an optional leading `+`.
pub open spec fn unsigned_body(s: Seq<char>) -> Seq<char> {
    if s.len() > 0 && s[0] == '+' {
        s.drop_first()
    } else {
        s
    }
}

/// `s` is the text of an unsigned 64-bit integer.
pub open spec fn parses_u64(s: Seq<char>) -> bool {
    let d = unsigned_body(s);
    d.len() > 0 && all_digits(d) && digits_value(d) <= u64::MAX
}

pub open spec fn u64_value(s: Seq<char>) -> int {
    digits_value(unsigned_body(s))
}

pub open spec fn ends_with_ms(s: Seq<char>) -> bool {
    s.len() >= 2 && s[s.len() - 2] == 'm' && s[s.len() - 1] == 's'
}

pub open spec fn ends_with_s(s: Seq<char>) -> bool {
    s.len() >= 1 && s[s.len() - 1] == 's'
}

/// A whole number of seconds, given as digits, scaled to milliseconds.
pub open spec fn seconds_spec(d: Seq<char>) -> Result<(u64, TimeType), DurationFault> {
    if !parses_u64(d) {
        Err(DurationFault::Unparsable)
    } else if u64_value(d) * 1000 > u64::MAX {
        Err(DurationFault::OutOfRange)
    } else if u64_value(d) == 0 {
        Err(DurationFault::Zero)
    } else {
        Ok(((u64_value(d) * 1000) as u64, TimeType::SECONDS))
    }
}

/// What a duration text means: `<n>ms` is n milliseconds (at least 10),
/// `<n>s` and a bare `<n>` are n seconds, reported as n * 1000.
pub open spec fn duration_spec(s: Seq<char>) -> Result<(u64, TimeType), DurationFault> {
    if ends_with_ms(s) {
        let d = s.subrange(0, s.len() - 2);
        if !parses_u64(d) {
            Err(DurationFault::Unparsable)
        } else if u64_value(d) < 10 {
            Err(DurationFault::BelowFloor)
        } else {
            Ok((u64_value(d) as u64, TimeType::MILLISECONDS))
        }
    } else if ends_with_s(s) {
        seconds_spec(s.subrange(0, s.len() - 1))
    } else {
        seconds_spec(s)
    }
}

proof fn lemma_digits_value_prefix_monotone(d: Seq<char>, j: int)
    requires
        0 <= j <= d.len(),
        all_digits(d),
    ensures
        digits_value(d.subrange(0, j)) <= digits_value(d),
    decreases d.len() - j,
{
    if j < d.len() {
        let e = d.drop_last();
        assert(all_digits(e)) by {
            assert forall|i: int| 0 <= i < e.len() implies is_digit(#[trigger] e[i]) by {
                assert(e[i] == d[i]);
            }
        }
        lemma_digits_value_prefix_monotone(e, j);
        assert(e.subrange(0, j) =~= d.subrange(0, j));
        assert(is_digit(d[d.len() - 1]));
        lemma_digits_value_nonneg(e);
    }
    assert(d.subrange(0, d.len() as int) =~= d);
}

proof fn lemma_digits_value_nonneg(d: Seq<char>)
    requires
        all_digits(d),
    ensures
        digits_value(d) >= 0,
    decreases d.len(),
{
    if d.len() > 0 {
        let e = d.drop_last();
        assert(all_digits(e)) by {
            assert forall|i: int| 0 <= i < e.len() implies is_digit(#[trigger] e[i]) by {
                assert(e[i] == d[i]);
            }
        }
        lemma_digits_value_nonneg(e);
        assert(is_digit(d[d.len() - 1]));
    }
}

/// Parses the characters `from..to` of `s` as an unsigned 64-bit integer.
fn parse_u64_range(s: &str, from: usize, to: usize) -> (r: Option<u64>)
    requires
        from <= to <= s@.len(),
    ensures
        r matches Some(v) <==> parses_u64(s@.subrange(from as int, to as int)),
        r matches Some(v) ==> v == u64_value(s@.subrange(from as int, to as int)),
{
    let ghost t = s@.subrange(from as int, to as int);
    let mut start = from;
    if from < to && s.get_char(from) == '+' {
        start = from + 1;
    }
    let ghost d = s@.subrange(start as int, to as int);
    assert(unsigned_body(t) =~= d);
    if start == to {
        return None;
    }
    let mut acc: u64 = 0;
    let mut i = start;
    while i < to
        invariant
            from <= start <= i <= to <= s@.len(),
            d == s@.subrange(start as int, to as int),
            t == s@.subrange(from as int, to as int),
            unsigned_body(t) == d,
            all_digits(s@.subrange(start as int, i as int)),
            acc == digits_value(s@.subrange(start as int, i as int)),
        decreases to - i,
    {
        let c = s.get_char(i);
        let ghost p = s@.subrange(start as int, i as int);
        let ghost q = s@.subrange(start as int, i + 1);
        assert(q.drop_last() =~= p);
        assert(q.last() == c);
        if !('0' <= c && c <= '9') {
            assert(d[i - start] == c);
            assert(!is_digit(d[i - start]));
            return None;
        }
        assert(all_digits(q)) by {
            assert forall|k: int| 0 <= k < q.len() implies is_digit(#[trigger] q[k]) by {
                if k < p.len() {
                    assert(q[k] == p[k]);
                }
            }
        }
        let dv = (c as u32 - '0' as u32) as u64;
        assert(digits_value(q) == digits_value(p) * 10 + dv);
        let m = acc.checked_mul(10);
        let next = match m {
            Some(m) => m.checked_add(dv),
            None => None,
        };
        match next {
            Some(n) => {
                acc = n;
            },
            None => {
                let ghost k = i + 1 - start;
                assert(d.subrange(0, k) =~= q);
                assert(digits_value(q) > u64::MAX);
                proof {
                    if all_digits(d) {
                        lemma_digits_value_prefix_monotone(d, k);
                    }
                }
                return None;
            },
        }
        i = i + 1;
    }
    assert(s@.subrange(start as int, i as int) =~= d);
    Some(acc)
}

/// Parses a duration field; `option` names the field in the error.
pub fn get_time_value(time_str: String, option: String) -> (r: Result<(u64, TimeType), PDError>)
    ensures
        r is Ok <==> duration_spec(time_str@) is Ok,
        r matches Ok(v) ==> duration_spec(time_str@) == Ok::<(u64, TimeType), DurationFault>(v),
        r matches Err(e) ==> (e matches PDError::CollectorInvalidParams { field, fault }
            && field@ == option@ && duration_spec(time_str@) == Err::<(u64, TimeType), DurationFault>(fault)),
{
    let s = time_str.as_str();
    let n = s.unicode_len();
    let ghost t = s@;
    let outcome: Result<(u64, TimeType), DurationFault>;
    if n >= 2 && s.get_char(n - 2) == 'm' && s.get_char(n - 1) == 's' {
        assert(ends_with_ms(t));
        outcome = match parse_u64_range(s, 0, n - 2) {
            None => Err(DurationFault::Unparsable),
            Some(v) => if v < 10 {
                Err(DurationFault::BelowFloor)
            } else {
                Ok((v, TimeType::MILLISECONDS))
            },
        };
    } else {
        let end = if n >= 1 && s.get_char(n - 1) == 's' { n - 1 } else { n };
        assert(end < n ==> ends_with_s(t));
        assert(end == n ==> t.subrange(0, end as int) =~= t);
        outcome = match parse_u64_range(s, 0, end) {
            None => Err(DurationFault::Unparsable),
            Some(v) => if v > u64::MAX / 1000 {
                Err(DurationFault::OutOfRange)
            } else if v == 0 {
                Err(DurationFault::Zero)
            } else {
                Ok((v * 1000, TimeType::SECONDS))
            },
        };
    }
    match outcome {
        Ok(v) => Ok(v),
        Err(fault) => Err(PDError::CollectorInvalidParams { field: option, fault }),
    }
}

} // verus!
