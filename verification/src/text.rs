//! Small verified text builders: decimal and hexadecimal digits, zero padding.
use vstd::prelude::*;
use vstd::utf8::*;
use vstd::string::StringSliceAdditionalSpecFns;

verus! {

/// `String::push` appends one character.
pub assume_specification[ String::push ](s: &mut String, ch: char)
    ensures
        final(s)@ == old(s)@.push(ch),
;

/// The ASCII decimal digit for `d < 10`.
pub open spec fn digit_char(d: nat) -> char {
    ((48 + d) as u32) as char
}

/// Decimal representation of `n`, most significant digit first, no leading zeros.
pub open spec fn dec_chars(n: nat) -> Seq<char>
    decreases n,
{
    if n < 10 {
        seq![digit_char(n)]
    } else {
        dec_chars(n / 10).push(digit_char(n % 10))
    }
}

/// `n` in decimal, left-padded with zeros to at least `width` characters.
pub open spec fn padded_dec(n: nat, width: nat) -> Seq<char> {
    let d = dec_chars(n);
    if d.len() >= width {
        d
    } else {
        Seq::new((width - d.len()) as nat, |i: int| '0') + d
    }
}

/// Upper-case hexadecimal digit for `d < 16`.
pub open spec fn hex_char(d: nat) -> char {
    if d < 10 {
        digit_char(d)
    } else {
        ((55 + d) as u32) as char
    }
}

/// `10^k`.
pub open spec fn pow10(k: nat) -> nat
    decreases k,
{
    if k == 0 {
        1
    } else {
        10 * pow10((k - 1) as nat)
    }
}

pub proof fn lemma_dec_chars_len(n: nat)
    ensures
        dec_chars(n).len() >= 1,
        n < 10 <==> dec_chars(n).len() == 1,
        forall|k: nat| 1 <= k && n < #[trigger] pow10(k) ==> dec_chars(n).len() <= k,
    decreases n,
{
    if n >= 10 {
        lemma_dec_chars_len(n / 10);
        assert forall|k: nat| 1 <= k && n < #[trigger] pow10(k) implies dec_chars(n).len() <= k by {
            if k == 1 {
                assert(pow10(1) == 10) by {
                    reveal_with_fuel(pow10, 2);
                }
            } else {
                assert(pow10(k) == 10 * pow10((k - 1) as nat));
                assert(n / 10 < pow10((k - 1) as nat));
            }
        }
    } else {
        assert forall|k: nat| 1 <= k && n < #[trigger] pow10(k) implies dec_chars(n).len() <= k by {}
    }
}

/// Every `u64` has at most twenty decimal digits.
pub proof fn lemma_dec_chars_len_u64(n: u64)
    ensures
        dec_chars(n as nat).len() <= 20,
{
    reveal_with_fuel(pow10, 21);
    assert(pow10(20) == 100000000000000000000nat);
    lemma_dec_chars_len(n as nat);
}

pub fn digit(d: u64) -> (c: char)
    requires
        d < 10,
    ensures
        c == digit_char(d as nat),
{
    ((48 + d) as u8) as char
}

pub fn hex_digit(d: u8) -> (c: char)
    requires
        d < 16,
    ensures
        c == hex_char(d as nat),
{
    if d < 10 {
        (48 + d) as char
    } else {
        (55 + d) as char
    }
}

/// Appends the decimal representation of `n`.
pub fn push_dec(s: &mut String, n: u64)
    ensures
        final(s)@ == old(s)@ + dec_chars(n as nat),
    decreases n,
{
    if n >= 10 {
        push_dec(s, n / 10);
    }
    s.push(digit(n % 10));
    proof {
        if n >= 10 {
            assert(old(s)@ + dec_chars(n as nat) =~= old(s)@ + dec_chars((n / 10) as nat) + seq![
                digit_char((n % 10) as nat),
            ]);
        }
    }
}

/// Appends `n` in decimal, zero-padded to at least `width` characters.
pub fn push_padded(s: &mut String, n: u64, width: u64)
    ensures
        final(s)@ == old(s)@ + padded_dec(n as nat, width as nat),
{
    let mut len: u64 = 1;
    let mut m = n;
    proof {
        lemma_dec_chars_len(n as nat);
        lemma_dec_chars_len_u64(n);
        lemma_dec_chars_len(m as nat);
    }
    while m >= 10
        invariant
            1 <= len,
            dec_chars(n as nat).len() <= 20,
            dec_chars(m as nat).len() >= 1,
            dec_chars(n as nat).len() == len - 1 + dec_chars(m as nat).len(),
        decreases m,
    {
        proof {
            lemma_dec_chars_len((m / 10) as nat);
        }
        m = m / 10;
        len = len + 1;
    }
    proof {
        lemma_dec_chars_len(m as nat);
    }
    let ghost start = s@;
    let mut k = len;
    while k < width
        invariant
            len <= k,
            k <= width || k == len,
            dec_chars(n as nat).len() == len,
            s@ == start + Seq::new((k - len) as nat, |i: int| '0'),
        decreases width - k,
    {
        s.push('0');
        k = k + 1;
        assert(s@ =~= start + Seq::new((k - len) as nat, |i: int| '0'));
    }
    push_dec(s, n);
    proof {
        if len >= width {
            assert(k == len);
            assert(Seq::new((k - len) as nat, |i: int| '0') =~= Seq::<char>::empty());
            assert(s@ =~= start + dec_chars(n as nat));
        } else {
            assert(s@ =~= start + padded_dec(n as nat, width as nat));
        }
    }
}

/// Number of occurrences of `c` in `s`.
pub open spec fn count_char(s: Seq<char>, c: char) -> nat
    decreases s.len(),
{
    if s.len() == 0 {
        0
    } else {
        count_char(s.drop_last(), c) + if s.last() == c {
            1nat
        } else {
            0nat
        }
    }
}

/// `s` without its occurrences of `c`.
pub open spec fn drop_char(s: Seq<char>, c: char) -> Seq<char>
    decreases s.len(),
{
    if s.len() == 0 {
        s
    } else if s.last() == c {
        drop_char(s.drop_last(), c)
    } else {
        drop_char(s.drop_last(), c).push(s.last())
    }
}

/// `s` with every `from` replaced by `to`.
pub open spec fn replace_char(s: Seq<char>, from: char, to: char) -> Seq<char> {
    Seq::new(s.len(), |i: int| if s[i] == from { to } else { s[i] })
}

/// Appends a string slice.
pub fn push_str(s: &mut String, t: &str)
    ensures
        final(s)@ == old(s)@ + t@,
{
    s.append(t);
}

/// The characters whose UTF-8 encoding is bytes `a..b` of `s`, for `a` and
/// `b` on character boundaries.
pub fn byte_range(s: &str, a: usize, b: usize) -> (r: &str)
    requires
        a <= b <= s.spec_bytes().len(),
        is_char_boundary(s.spec_bytes(), a as int),
        is_char_boundary(s.spec_bytes(), b as int),
    ensures
        r@ == decode_utf8(s.spec_bytes().subrange(a as int, b as int)),
{
    let ghost sb = s.spec_bytes();
    proof {
        encode_utf8_valid_utf8(s@);
        valid_utf8_split(sb, b as int);
    }
    let (head, _tail) = s.split_at(b);
    let ghost hb = head.spec_bytes();
    proof {
        assert(hb =~= sb.subrange(0, b as int));
        if a == 0 {
        } else if a == b {
            is_char_boundary_start_end_of_seq(hb);
        } else {
            is_char_boundary_iff_not_is_continuation_byte(sb, a as int);
            is_char_boundary_iff_not_is_continuation_byte(hb, a as int);
        }
    }
    let (_pre, mid) = head.split_at(a);
    proof {
        assert(mid.spec_bytes() =~= sb.subrange(a as int, b as int));
        encode_utf8_decode_utf8(mid@);
    }
    mid
}

/// Copies `s` without its occurrences of `c`.
pub fn push_without(out: &mut String, s: &str, c: char)
    ensures
        final(out)@ == old(out)@ + drop_char(s@, c),
{
    let n = s.unicode_len();
    let ghost start = out@;
    let mut i: usize = 0;
    while i < n
        invariant
            n == s@.len(),
            i <= n,
            out@ == start + drop_char(s@.take(i as int), c),
        decreases n - i,
    {
        let ch = s.get_char(i);
        assert(s@.take(i + 1).drop_last() =~= s@.take(i as int));
        if ch != c {
            out.push(ch);
        }
        i = i + 1;
    }
    assert(s@.take(n as int) =~= s@);
}

/// Copies `s` with every `from` replaced by `to`; also counts the `from`s.
pub fn push_replaced(out: &mut String, s: &str, from: char, to: char) -> (count: usize)
    ensures
        final(out)@ == old(out)@ + replace_char(s@, from, to),
        count == count_char(s@, from),
{
    let n = s.unicode_len();
    let ghost start = out@;
    let mut i: usize = 0;
    let mut k: usize = 0;
    while i < n
        invariant
            n == s@.len(),
            i <= n,
            k <= i,
            k == count_char(s@.take(i as int), from),
            out@ == start + replace_char(s@.take(i as int), from, to),
        decreases n - i,
    {
        let ch = s.get_char(i);
        assert(s@.take(i + 1).drop_last() =~= s@.take(i as int));
        if ch == from {
            out.push(to);
            k = k + 1;
        } else {
            out.push(ch);
        }
        i = i + 1;
        assert(out@ =~= start + replace_char(s@.take(i as int), from, to));
    }
    assert(s@.take(n as int) =~= s@);
    k
}

/// Index of the first `c` in `s`.
pub open spec fn first_index(s: Seq<char>, c: char) -> Option<int>
    decreases s.len(),
{
    if s.len() == 0 {
        None
    } else if s[0] == c {
        Some(0)
    } else {
        match first_index(s.drop_first(), c) {
            Some(k) => Some(k + 1),
            None => None,
        }
    }
}

pub proof fn lemma_first_index(s: Seq<char>, c: char, k: int)
    requires
        0 <= k <= s.len(),
        forall|j: int| 0 <= j < k ==> s[j] != c,
    ensures
        k < s.len() && s[k] == c ==> first_index(s, c) == Some(k),
        k == s.len() ==> first_index(s, c) is None,
    decreases k,
{
    if s.len() > 0 && k > 0 {
        lemma_first_index(s.drop_first(), c, k - 1);
    }
}

/// Whether `pat` occurs in `s`.
pub open spec fn contains_seq(s: Seq<char>, pat: Seq<char>) -> bool {
    exists|i: int| 0 <= i && i + pat.len() <= s.len() && #[trigger] s.subrange(i, i + pat.len()) == pat
}

/// Substring search, as `str::contains` with a string pattern.
pub fn contains_str(s: &str, pat: &str) -> (r: bool)
    ensures
        r == contains_seq(s@, pat@),
{
    let n = s.unicode_len();
    let m = pat.unicode_len();
    if m > n {
        proof {
            assert forall|i: int| 0 <= i && i + pat@.len() <= s@.len() implies #[trigger] s@.subrange(
                i,
                i + pat@.len(),
            ) != pat@ by {}
        }
        return false;
    }
    let mut i: usize = 0;
    while i <= n - m
        invariant
            n == s@.len(),
            m == pat@.len(),
            m <= n,
            i <= n - m + 1,
            forall|k: int| 0 <= k < i ==> #[trigger] s@.subrange(k, k + m) != pat@,
        decreases n - m + 1 - i,
    {
        let mut j: usize = 0;
        while j < m && s.get_char(i + j) == pat.get_char(j)
            invariant
                n == s@.len(),
                m == pat@.len(),
                i + m <= n,
                j <= m,
                forall|k: int| 0 <= k < j ==> s@[i + k] == pat@[k],
            decreases m - j,
        {
            j = j + 1;
        }
        if j == m {
            assert(s@.subrange(i as int, i + m) =~= pat@);
            return true;
        }
        assert(s@.subrange(i as int, i + m)[j as int] != pat@[j as int]);
        i = i + 1;
    }
    proof {
        assert forall|k: int| 0 <= k && k + pat@.len() <= s@.len() implies #[trigger] s@.subrange(
            k,
            k + pat@.len(),
        ) != pat@ by {
            assert(k < i);
        }
    }
    false
}

} // verus!
