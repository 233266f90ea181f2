//! Command-line value parsing for the headless renderer.
use vstd::prelude::*;

use crate::text::{first_index, lemma_first_index};

verus! {

pub open spec fn is_digit(c: char) -> bool {
    '0' <= c && c <= '9'
}

pub open spec fn all_digits(s: Seq<char>) -> bool {
    forall|i: int| 0 <= i < s.len() ==> is_digit(#[trigger] s[i])
}

/// The value of a string of decimal digits.
pub open spec fn digits_value(s: Seq<char>) -> nat
    decreases s.len(),
{
    if s.len() == 0 {
        0
    } else {
        digits_value(s.drop_last()) * 10 + (s.last() as nat - 48) as nat
    }
}

/// What `str::parse::<u32>` accepts: an optional `+`, then one or more ASCII
/// digits whose value fits in `u32`.
pub open spec fn parse_u32_spec(s: Seq<char>) -> Option<u32> {
    let body = if s.len() > 0 && s[0] == '+' {
        s.drop_first()
    } else {
        s
    };
    if body.len() == 0 || !all_digits(body) || digits_value(body) > u32::MAX {
        None
    } else {
        Some(digits_value(body) as u32)
    }
}

pub open spec fn clamp_spec(v: u32, lo: u32, hi: u32) -> u32 {
    if v < lo {
        lo
    } else if v > hi {
        hi
    } else {
        v
    }
}

/// A command-line `u32`: the parsed value clamped to `[lo, hi]`, or `cur`
/// when the value is absent or does not parse.
pub open spec fn cli_u32_spec(arg: Option<Seq<char>>, cur: u32, lo: u32, hi: u32) -> u32 {
    match arg {
        None => cur,
        Some(s) => match parse_u32_spec(s) {
            None => cur,
            Some(v) => clamp_spec(v, lo, hi),
        },
    }
}

proof fn lemma_digits_value_prefix_mono(s: Seq<char>, j: int, k: int)
    requires
        all_digits(s),
        0 <= k <= j <= s.len(),
    ensures
        digits_value(s.take(k)) <= digits_value(s.take(j)),
    decreases j - k,
{
    if k < j {
        lemma_digits_value_prefix_mono(s, j - 1, k);
        assert(s.take(j).drop_last() =~= s.take(j - 1));
    }
}

/// Parses a `u32` the way `str::parse` does.
pub fn parse_u32_str(s: &str) -> (r: Option<u32>)
    ensures
        r == parse_u32_spec(s@),
{
    let n = s.unicode_len();
    let mut i: usize = 0;
    if n > 0 && s.get_char(0) == '+' {
        i = 1;
    }
    let start = i;
    let ghost body = if s@.len() > 0 && s@[0] == '+' {
        s@.drop_first()
    } else {
        s@
    };
    assert(body =~= s@.subrange(start as int, n as int));
    if start == n {
        return None;
    }
    let mut v: u64 = 0;
    while i < n
        invariant
            n == s@.len(),
            start <= i <= n,
            start < n,
            body == s@.subrange(start as int, n as int),
            body == (if s@.len() > 0 && s@[0] == '+' {
                s@.drop_first()
            } else {
                s@
            }),
            all_digits(body.take(i - start)),
            v == digits_value(body.take(i - start)),
            v <= u32::MAX,
        decreases n - i,
    {
        let c = s.get_char(i);
        assert(body[i - start] == c);
        if !('0' <= c && c <= '9') {
            assert(!all_digits(body));
            return None;
        }
        assert(body.take(i + 1 - start).drop_last() =~= body.take(i - start));
        v = v * 10 + (c as u64 - 48);
        i = i + 1;
        if v > 0xFFFF_FFFF {
            proof {
                if all_digits(body) {
                    assert(body.take(body.len() as int) =~= body);
                    lemma_digits_value_prefix_mono(body, body.len() as int, i - start);
                }
            }
            return None;
        }
    }
    assert(body.take(n - start) =~= body);
    Some(v as u32)
}

/// `--frames`-style option: next argument parsed as `u32` and clamped.
pub fn parse_u32(arg: Option<&str>, cur: u32, lo: u32, hi: u32) -> (r: u32)
    requires
        (arg matches Some(s) && parse_u32_spec(s@) is Some) ==> lo <= hi,
    ensures
        r == cli_u32_spec(
            match arg {
                Some(s) => Some(s@),
                None => None,
            },
            cur,
            lo,
            hi,
        ),
{
    match arg {
        None => cur,
        Some(s) => match parse_u32_str(s) {
            None => cur,
            Some(v) => if v < lo {
                lo
            } else if v > hi {
                hi
            } else {
                v
            },
        },
    }
}

/// Law: an accepted value always lands in `[lo, hi]`.
pub proof fn cli_u32_in_range(s: Seq<char>, cur: u32, lo: u32, hi: u32)
    requires
        lo <= hi,
        parse_u32_spec(s) is Some,
    ensures
        lo <= cli_u32_spec(Some(s), cur, lo, hi) <= hi,
{
}

/// `--size WxH`: split at the first `x`, both halves parsed as `u32` and
/// clamped to `[16, 4096]`; anything else keeps `cur`.
pub open spec fn size_spec(arg: Option<Seq<char>>, cur: (u32, u32)) -> (u32, u32) {
    match arg {
        None => cur,
        Some(s) => match first_index(s, 'x') {
            None => cur,
            Some(k) => match (parse_u32_spec(s.take(k)), parse_u32_spec(s.skip(k + 1))) {
                (Some(a), Some(b)) => (clamp_spec(a, 16, 4096), clamp_spec(b, 16, 4096)),
                _ => cur,
            },
        },
    }
}

/// Parses `--size WxH`.
pub fn parse_size(arg: Option<&str>, cur: (u32, u32)) -> (r: (u32, u32))
    ensures
        r == size_spec(
            match arg {
                Some(s) => Some(s@),
                None => None,
            },
            cur,
        ),
{
    let s = match arg {
        None => return cur,
        Some(s) => s,
    };
    let n = s.unicode_len();
    let mut k: usize = 0;
    while k < n && s.get_char(k) != 'x'
        invariant
            n == s@.len(),
            k <= n,
            forall|j: int| 0 <= j < k ==> s@[j] != 'x',
        decreases n - k,
    {
        k = k + 1;
    }
    proof {
        lemma_first_index(s@, 'x', k as int);
    }
    if k == n {
        return cur;
    }
    let left = s.substring_char(0, k);
    let right = s.substring_char(k + 1, n);
    assert(left@ =~= s@.take(k as int));
    assert(right@ =~= s@.skip(k + 1));
    match (parse_u32_str(left), parse_u32_str(right)) {
        (Some(a), Some(b)) => (
            if a < 16 {
                16
            } else if a > 4096 {
                4096
            } else {
                a
            },
            if b < 16 {
                16
            } else if b > 4096 {
                4096
            } else {
                b
            },
        ),
        _ => cur,
    }
}

fn str_is(s: &str, lit: &str) -> (r: bool)
    ensures
        r == (s@ == lit@),
{
    String::from_str(s) == String::from_str(lit)
}

/// Frames a headless shot renders: the requested frames, plus the warm-up
/// frames when every frame is dumped.
pub fn shot_total_frames(frames: u32, warmup: u32, dumping: bool) -> (r: u32)
    requires
        dumping ==> frames + warmup <= u32::MAX,
    ensures
        r == frames + if dumping {
            warmup
        } else {
            0
        },
{
    if dumping {
        frames + warmup
    } else {
        frames
    }
}

/// `--demo`: the demo storm stays on unless the value is exactly `0`.
pub fn demo_from_arg(arg: Option<&str>) -> (r: bool)
    ensures
        r == !(arg matches Some(s) && s@ == "0"@),
{
    match arg {
        Some(s) => !str_is(s, "0"),
        None => true,
    }
}

} // verus!
