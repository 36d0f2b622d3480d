//! Numeric settings read from the environment.

use vstd::prelude::*;

use crate::frames::{DEFAULT_ATTACH_BUFFER_BYTES, DEFAULT_ATTACH_LINGER_SECS};
use crate::text::{str_to_chars, trim_seq, trim_str};

verus! {

/// The number a string of ASCII digits spells.
pub open spec fn digits_value(s: Seq<char>) -> nat
    decreases s.len(),
{
    if s.len() == 0 {
        0
    } else {
        digits_value(s.drop_last()) * 10 + ((s.last() as u32) - ('0' as u32)) as nat
    }
}

/// Every character is an ASCII digit.
pub open spec fn all_digits(s: Seq<char>) -> bool {
    forall|i: int| 0 <= i < s.len() ==> '0' <= #[trigger] s[i] && s[i] <= '9'
}

/// What `str::parse::<u64>` gives: an optional `+`, then one or more ASCII
/// digits whose value fits.
pub open spec fn parsed_u64(s: Seq<char>) -> Option<u64> {
    let d = if s.len() > 0 && s[0] == '+' {
        s.drop_first()
    } else {
        s
    };
    if d.len() > 0 && all_digits(d) && digits_value(d) <= u64::MAX {
        Some(digits_value(d) as u64)
    } else {
        None
    }
}

proof fn lemma_digits_monotone(s: Seq<char>, i: int)
    requires
        0 <= i <= s.len(),
        all_digits(s),
    ensures
        digits_value(s.take(i)) <= digits_value(s),
    decreases s.len() - i,
{
    if i < s.len() {
        lemma_digits_monotone(s, i + 1);
        assert(s.take(i + 1).drop_last() =~= s.take(i));
        assert(digits_value(s.take(i + 1)) == digits_value(s.take(i)) * 10 + ((s[i] as u32) - (
        '0' as u32)) as nat);
    } else {
        assert(s.take(i) =~= s);
    }
}

/// Parse a decimal `u64` as `str::parse::<u64>` does.
pub fn parse_u64(s: &str) -> (r: Option<u64>)
    ensures
        r == parsed_u64(s@),
{
    let chars = str_to_chars(s);
    let start: usize = if chars.len() > 0 && chars[0] == '+' {
        1
    } else {
        0
    };
    let ghost d = if s@.len() > 0 && s@[0] == '+' {
        s@.drop_first()
    } else {
        s@
    };
    proof {
        assert(chars@.subrange(start as int, chars@.len() as int) =~= d);
    }
    if start == chars.len() {
        return None;
    }
    let mut value: u64 = 0;
    let mut i = start;
    while i < chars.len()
        invariant
            chars@ == s@,
            d == (if s@.len() > 0 && s@[0] == '+' {
                s@.drop_first()
            } else {
                s@
            }),
            d == chars@.subrange(start as int, chars@.len() as int),
            start <= i <= chars@.len(),
            forall|k: int| start <= k < i ==> '0' <= #[trigger] chars@[k] && chars@[k] <= '9',
            value as nat == digits_value(d.take(i - start)),
        decreases chars@.len() - i,
    {
        let c = chars[i];
        proof {
            assert(d.take(i - start + 1).drop_last() =~= d.take(i - start));
            assert(d.take(i - start + 1).last() == c);
        }
        if !('0' <= c && c <= '9') {
            proof {
                assert(d[i - start] == c);
                assert(!all_digits(d));
            }
            return None;
        }
        let digit: u64 = ((c as u32) - ('0' as u32)) as u64;
        let next = match value.checked_mul(10) {
            Some(v) => v.checked_add(digit),
            None => None,
        };
        match next {
            Some(v) => {
                value = v;
            },
            None => {
                proof {
                    assert(digits_value(d.take(i - start + 1)) > u64::MAX);
                    if all_digits(d) {
                        lemma_digits_monotone(d, i - start + 1);
                    }
                }
                return None;
            },
        }
        i = i + 1;
    }
    proof {
        assert(d.take(d.len() as int) =~= d);
        assert forall|k: int| 0 <= k < d.len() implies '0' <= #[trigger] d[k] && d[k] <= '9' by {
            assert(d[k] == chars@[start + k]);
        }
    }
    Some(value)
}

/// The ring size a setting selects: a positive number that fits a `usize`,
/// else the default.
pub open spec fn attach_buffer_bytes_of(raw: Option<Seq<char>>) -> usize {
    match raw {
        Some(v) => match parsed_u64(trim_seq(v)) {
            Some(n) => if 0 < n && n <= usize::MAX {
                n as usize
            } else {
                DEFAULT_ATTACH_BUFFER_BYTES
            },
            None => DEFAULT_ATTACH_BUFFER_BYTES,
        },
        None => DEFAULT_ATTACH_BUFFER_BYTES,
    }
}

/// Ring size from the value of `BLINK_ATTACH_BUFFER_BYTES`.
pub fn attach_buffer_bytes(raw: Option<&str>) -> (r: usize)
    ensures
        r == attach_buffer_bytes_of(
            match raw {
                Some(v) => Some(v@),
                None => None,
            },
        ),
{
    match raw {
        Some(v) => {
            let t = trim_str(v);
            match parse_u64(t.as_str()) {
                Some(n) => {
                    if 0 < n && n <= usize::MAX as u64 {
                        n as usize
                    } else {
                        DEFAULT_ATTACH_BUFFER_BYTES
                    }
                },
                None => DEFAULT_ATTACH_BUFFER_BYTES,
            }
        },
        None => DEFAULT_ATTACH_BUFFER_BYTES,
    }
}

/// The linger a setting selects: a positive number, else the default.
pub open spec fn attach_linger_secs_of(raw: Option<Seq<char>>) -> u64 {
    match raw {
        Some(v) => match parsed_u64(trim_seq(v)) {
            Some(n) => if n > 0 {
                n
            } else {
                DEFAULT_ATTACH_LINGER_SECS
            },
            None => DEFAULT_ATTACH_LINGER_SECS,
        },
        None => DEFAULT_ATTACH_LINGER_SECS,
    }
}

/// Linger in seconds from the value of `BLINK_ATTACH_LINGER_SECS`.
pub fn attach_linger_secs(raw: Option<&str>) -> (r: u64)
    ensures
        r == attach_linger_secs_of(
            match raw {
                Some(v) => Some(v@),
                None => None,
            },
        ),
{
    match raw {
        Some(v) => {
            let t = trim_str(v);
            match parse_u64(t.as_str()) {
                Some(n) => if n > 0 {
                    n
                } else {
                    DEFAULT_ATTACH_LINGER_SECS
                },
                None => DEFAULT_ATTACH_LINGER_SECS,
            }
        },
        None => DEFAULT_ATTACH_LINGER_SECS,
    }
}

} // verus!
