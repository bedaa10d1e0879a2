//! The typed count selector of `tail -n` / `tail -c` and the start offset it
//! picks for a stream with a known number of units.

use vstd::prelude::*;

verus! {

/// A parsed count selector.
///
/// `TakeNum(n)` with `n < 0` takes the last `|n|` units; with `n > 0` it
/// starts at the 1-based unit `n`; `TakeNum(0)` selects nothing.
/// `PlusZero` is the `+0` form: everything, unless the stream is empty.
#[derive(Debug, Clone, Copy, PartialEq, Eq, Structural)]
pub enum TakeValue {
    PlusZero,
    TakeNum(i64),
}

pub open spec fn is_digit(c: char) -> bool {
    '0' <= c && c <= '9'
}

/// A non-empty run of decimal digits.
pub open spec fn all_digits(s: Seq<char>) -> bool {
    s.len() > 0 && forall|i: int| 0 <= i < s.len() ==> is_digit(#[trigger] s[i])
}

/// The value of a run of decimal digits, most significant first.
pub open spec fn digits_value(s: Seq<char>) -> int
    decreases s.len(),
{
    if s.len() == 0 {
        0
    } else {
        digits_value(s.drop_last()) * 10 + (s.last() as int - '0' as int)
    }
}

/// The integer an optionally signed decimal text denotes, if it is one.
pub open spec fn signed_value(s: Seq<char>) -> Option<int> {
    if s.len() > 0 && s[0] == '+' && all_digits(s.skip(1)) {
        Some(digits_value(s.skip(1)))
    } else if s.len() > 0 && s[0] == '-' && all_digits(s.skip(1)) {
        Some(-digits_value(s.skip(1)))
    } else if all_digits(s) {
        Some(digits_value(s))
    } else {
        None
    }
}

pub open spec fn has_sign(s: Seq<char>) -> bool {
    s.len() > 0 && (s[0] == '+' || s[0] == '-')
}

/// The selector a count text denotes: a bare count `n` takes the last `n`
/// units, an explicit sign is kept as it is, and the text `+0` alone is
/// `PlusZero`. A text that is no integer in the range of `i64` denotes none.
pub open spec fn parse_selector(s: Seq<char>) -> Option<TakeValue> {
    match signed_value(s) {
        Some(v) => if i64::MIN <= v <= i64::MAX {
            if s == seq!['+', '0'] {
                Some(TakeValue::PlusZero)
            } else if has_sign(s) {
                Some(TakeValue::TakeNum(v as i64))
            } else {
                Some(TakeValue::TakeNum((-v) as i64))
            }
        } else {
            None
        },
        None => None,
    }
}

proof fn lemma_digits_value_nonneg(s: Seq<char>)
    requires
        forall|i: int| 0 <= i < s.len() ==> is_digit(#[trigger] s[i]),
    ensures
        digits_value(s) >= 0,
    decreases s.len(),
{
    if s.len() > 0 {
        lemma_digits_value_nonneg(s.drop_last());
    }
}

/// One more than the magnitude of `i64::MIN`: magnitudes are held saturated
/// at this bound while digits are read.
const MAGNITUDE_CAP: u64 = 0x8000_0000_0000_0001;

/// Reads a count selector: `N` or `-N` takes the last `N` units, `+N` starts
/// at unit `N`, and `+0` is `PlusZero`. Any other text is returned as the
/// error, verbatim.
pub fn parse_num(val: &str) -> (r: Result<TakeValue, String>)
    ensures
        match parse_selector(val@) {
            Some(t) => r == Ok::<TakeValue, String>(t),
            None => r matches Err(e) && e@ == val@,
        },
{
    let len = val.unicode_len();
    if len == 0 {
        return Err(val.to_owned());
    }
    let first = val.get_char(0);
    let plus = first == '+';
    let minus = first == '-';
    let start: usize = if plus || minus { 1 } else { 0 };
    if start == len {
        proof {
            assert(val@.skip(1).len() == 0);
        }
        return Err(val.to_owned());
    }
    let ghost body = val@.skip(start as int);
    let mut magnitude: u64 = 0;
    let mut i: usize = start;
    while i < len
        invariant
            start <= i <= len,
            len == val@.len(),
            first == val@[0],
            plus == (first == '+'),
            minus == (first == '-'),
            start == (if plus || minus { 1usize } else { 0usize }),
            body == val@.skip(start as int),
            forall|j: int| 0 <= j < i - start ==> is_digit(#[trigger] body[j]),
            magnitude as int == if digits_value(body.take(i - start)) < MAGNITUDE_CAP as int {
                digits_value(body.take(i - start))
            } else {
                MAGNITUDE_CAP as int
            },
        decreases len - i,
    {
        let c = val.get_char(i);
        if !('0' <= c && c <= '9') {
            proof {
                assert(body[i - start] == c);
                assert(!all_digits(body));
                assert(!all_digits(val@)) by {
                    if start == 0 {
                        assert(body =~= val@);
                    } else {
                        assert(val@[0] == first);
                    }
                }
            }
            return Err(val.to_owned());
        }
        proof {
            let k = i - start;
            let pre = body.take(k);
            let next = body.take(k + 1);
            assert(next.drop_last() =~= pre);
            assert(next.last() == c);
            lemma_digits_value_nonneg(pre);
        }
        let d = (c as u32 - '0' as u32) as u128;
        let next: u128 = magnitude as u128 * 10 + d;
        magnitude = if next >= MAGNITUDE_CAP as u128 { MAGNITUDE_CAP } else { next as u64 };
        i = i + 1;
    }
    proof {
        assert(body.take(len - start) =~= body);
        assert(all_digits(body));
        if start == 0 {
            assert(body =~= val@);
        }
        lemma_digits_value_nonneg(body);
    }
    let value: i64;
    if minus {
        if magnitude > 0x8000_0000_0000_0000 {
            return Err(val.to_owned());
        }
        value = if magnitude == 0x8000_0000_0000_0000 { i64::MIN } else { -(magnitude as i64) };
    } else {
        if magnitude > 0x7fff_ffff_ffff_ffff {
            return Err(val.to_owned());
        }
        value = magnitude as i64;
    }
    proof {
        if plus {
            assert(signed_value(val@) == Some(value as int));
        } else if minus {
            assert(signed_value(val@) == Some(value as int));
        } else {
            assert(signed_value(val@) == Some(value as int));
        }
        if len == 2 && plus {
            assert(body =~= seq![val@[1]]);
            assert(body.drop_last() =~= Seq::<char>::empty());
            assert(body.last() == val@[1]);
            assert(digits_value(body) == digits_value(body.drop_last()) * 10 + (val@[1] as int
                - '0' as int));
            assert(value == val@[1] as int - '0' as int);
        }
    }
    if plus && len == 2 && value == 0 {
        proof {
            assert(val@ =~= seq!['+', '0']);
        }
        Ok(TakeValue::PlusZero)
    } else if plus || minus {
        Ok(TakeValue::TakeNum(value))
    } else {
        Ok(TakeValue::TakeNum(-value))
    }
}

/// The 0-based index of the first unit to emit, or `None` when nothing is
/// emitted, for a stream of `total` units.
pub open spec fn start_index(take: TakeValue, total: int) -> Option<int> {
    match take {
        TakeValue::PlusZero => if total == 0 { None } else { Some(0) },
        TakeValue::TakeNum(n) => if n > 0 {
            if n > total { None } else { Some(n - 1) }
        } else if n < 0 {
            if -n > total { Some(0) } else { Some(total + n) }
        } else {
            None
        },
    }
}

/// Where output starts for a stream of `total` units (lines or bytes).
pub fn get_start_index(take_val: &TakeValue, total: i64) -> (r: Option<u64>)
    requires
        total >= 0,
    ensures
        r matches Some(i) ==> start_index(*take_val, total as int) == Some(i as int),
        r is None <==> start_index(*take_val, total as int) is None,
        r matches Some(i) ==> i <= total,
{
    match *take_val {
        TakeValue::PlusZero => if total == 0 { None } else { Some(0) },
        TakeValue::TakeNum(n) => if n > 0 {
            if n > total { None } else { Some((n - 1) as u64) }
        } else if n < 0 {
            if total + n < 0 { Some(0) } else { Some((total + n) as u64) }
        } else {
            None
        },
    }
}

/// Taking more units from the end never moves the start later, and once
/// the count reaches the total the start is the first unit.
pub proof fn lemma_from_end_monotonic(a: i64, b: i64, total: int)
    requires
        b <= a < 0,
        total >= 0,
    ensures
        start_index(TakeValue::TakeNum(b), total) matches Some(j) && start_index(
            TakeValue::TakeNum(a),
            total,
        ) matches Some(k) && 0 <= j <= k,
        -b >= total ==> start_index(TakeValue::TakeNum(b), total) == Some(0int),
{
}

/// Starting at a 1-based unit `n` selects nothing exactly when `n` is past
/// the end, and otherwise starts at the 0-based index `n - 1`.
pub proof fn lemma_from_start(n: i64, total: int)
    requires
        n >= 1,
        total >= 0,
    ensures
        start_index(TakeValue::TakeNum(n), total) is None <==> n > total,
        n <= total ==> start_index(TakeValue::TakeNum(n), total) == Some(n - 1),
{
}

} // verus!
