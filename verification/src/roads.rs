//! OSM road network: road classes, the Overpass request, ribbon indices.
use vstd::prelude::*;
use vstd::string::StringSliceAdditionalSpecFns;

use crate::text::{hex_char, hex_digit, push_str};

verus! {

/// Road class (0 motorway .. 5 minor) and ribbon width in decimetres for an
/// OSM `highway` tag.
pub open spec fn class_spec(hw: Seq<char>) -> (u8, u32) {
    if hw == "motorway"@ {
        (0, 150)
    } else if hw == "motorway_link"@ || hw == "trunk_link"@ {
        (1, 75)
    } else if hw == "trunk"@ {
        (1, 130)
    } else if hw == "primary"@ {
        (2, 110)
    } else if hw == "secondary"@ {
        (3, 90)
    } else if hw == "tertiary"@ {
        (4, 70)
    } else {
        (5, 55)
    }
}

pub fn class_of(hw: &str) -> (r: (u8, u32))
    ensures
        r == class_spec(hw@),
        r.0 <= 5,
{
    let s = String::from_str(hw);
    if s == String::from_str("motorway") {
        (0, 150)
    } else if s == String::from_str("motorway_link") || s == String::from_str("trunk_link") {
        (1, 75)
    } else if s == String::from_str("trunk") {
        (1, 130)
    } else if s == String::from_str("primary") {
        (2, 110)
    } else if s == String::from_str("secondary") {
        (3, 90)
    } else if s == String::from_str("tertiary") {
        (4, 70)
    } else {
        (5, 55)
    }
}

/// Law: the road classes. Class 0 is exactly `motorway`, class 1 exactly
/// `trunk` and the two link roads, class 2 `primary`, class 3 `secondary`,
/// class 4 `tertiary`; every other tag (`unclassified`, `residential`, ...)
/// is a minor road, class 5 at 5.5 m. Ribbon widths: motorway 15 m, trunk
/// 13 m, links 7.5 m, primary 11 m, secondary 9 m, tertiary 7 m.
pub proof fn road_classes(hw: Seq<char>)
    ensures
        (class_spec(hw).0 == 0) == (hw == "motorway"@),
        (class_spec(hw).0 == 1) == (hw == "trunk"@ || hw == "motorway_link"@ || hw == "trunk_link"@),
        (class_spec(hw).0 == 2) == (hw == "primary"@),
        (class_spec(hw).0 == 3) == (hw == "secondary"@),
        (class_spec(hw).0 == 4) == (hw == "tertiary"@),
        hw == "motorway"@ ==> class_spec(hw).1 == 150,
        hw == "trunk"@ ==> class_spec(hw).1 == 130,
        hw == "motorway_link"@ || hw == "trunk_link"@ ==> class_spec(hw).1 == 75,
        hw == "primary"@ ==> class_spec(hw).1 == 110,
        hw == "secondary"@ ==> class_spec(hw).1 == 90,
        hw == "tertiary"@ ==> class_spec(hw).1 == 70,
        !(hw == "motorway"@ || hw == "trunk"@ || hw == "motorway_link"@ || hw == "trunk_link"@
            || hw == "primary"@ || hw == "secondary"@ || hw == "tertiary"@) ==> class_spec(hw) == (
            5u8,
            55u32,
        ),
{
    reveal_strlit("motorway");
    reveal_strlit("trunk");
    reveal_strlit("motorway_link");
    reveal_strlit("trunk_link");
    reveal_strlit("primary");
    reveal_strlit("secondary");
    reveal_strlit("tertiary");
    let (mw, tr, ml, tl, pr, se, te) = (
        "motorway"@,
        "trunk"@,
        "motorway_link"@,
        "trunk_link"@,
        "primary"@,
        "secondary"@,
        "tertiary"@,
    );
    assert(mw.len() == 8 && tr.len() == 5 && ml.len() == 13 && tl.len() == 10 && pr.len() == 7
        && se.len() == 9 && te.len() == 8);
    assert(mw != te) by {
        assert(mw[0] != te[0]);
    }
    assert(mw != tr && mw != ml && mw != tl && mw != pr && mw != se);
    assert(tr != ml && tr != tl && tr != pr && tr != se && tr != te);
    assert(ml != tl && ml != pr && ml != se && ml != te);
    assert(tl != pr && tl != se && tl != te);
    assert(pr != se && pr != te && se != te);
}

/// Bytes that stay as they are in a URL query.
pub open spec fn unreserved(b: u8) -> bool {
    (65 <= b <= 90) || (97 <= b <= 122) || (48 <= b <= 57) || b == 45 || b == 95 || b == 46 || b
        == 126
}

/// Percent-encoding of one byte.
pub open spec fn encode_byte(b: u8) -> Seq<char> {
    if unreserved(b) {
        seq![b as char]
    } else {
        seq!['%', hex_char((b / 16) as nat), hex_char((b % 16) as nat)]
    }
}

/// Percent-encoding of a byte string.
pub open spec fn urlencode_spec(bs: Seq<u8>) -> Seq<char>
    decreases bs.len(),
{
    if bs.len() == 0 {
        Seq::empty()
    } else {
        urlencode_spec(bs.drop_last()) + encode_byte(bs.last())
    }
}

/// Characters a percent-encoded string may hold.
pub open spec fn url_safe(c: char) -> bool {
    ('A' <= c <= 'Z') || ('a' <= c <= 'z') || ('0' <= c <= '9') || c == '-' || c == '_' || c == '.'
        || c == '~' || c == '%'
}

proof fn lemma_urlencode_safe(bs: Seq<u8>)
    ensures
        forall|i: int| 0 <= i < urlencode_spec(bs).len() ==> url_safe(#[trigger] urlencode_spec(bs)[i]),
    decreases bs.len(),
{
    if bs.len() > 0 {
        lemma_urlencode_safe(bs.drop_last());
        let b = bs.last();
        let prev = urlencode_spec(bs.drop_last());
        let e = encode_byte(b);
        assert forall|i: int| 0 <= i < e.len() implies url_safe(#[trigger] e[i]) by {
            if unreserved(b) {
                assert(e[i] == b as char);
            }
        }
        assert forall|i: int| 0 <= i < urlencode_spec(bs).len() implies url_safe(
            #[trigger] urlencode_spec(bs)[i],
        ) by {
            if i < prev.len() {
                assert(urlencode_spec(bs)[i] == prev[i]);
            } else {
                assert(urlencode_spec(bs)[i] == e[i - prev.len()]);
            }
        }
    }
}

/// An uppercase hexadecimal digit.
pub open spec fn is_hex_upper(c: char) -> bool {
    ('0' <= c <= '9') || ('A' <= c <= 'F')
}

/// The value of an uppercase hexadecimal digit.
pub open spec fn hex_val(c: char) -> int {
    if '0' <= c <= '9' {
        c as int - 48
    } else {
        c as int - 55
    }
}

/// Percent-decoding: `%XY` (uppercase hex) gives the byte `0xXY`, a character
/// below 256 gives itself; `None` on a malformed escape or a wider character.
pub open spec fn percent_decode(s: Seq<char>) -> Option<Seq<u8>>
    decreases s.len(),
{
    if s.len() == 0 {
        Some(Seq::empty())
    } else if s[0] == '%' {
        if s.len() >= 3 && is_hex_upper(s[1]) && is_hex_upper(s[2]) {
            match percent_decode(s.skip(3)) {
                Some(r) => Some(seq![(hex_val(s[1]) * 16 + hex_val(s[2])) as u8] + r),
                None => None,
            }
        } else {
            None
        }
    } else if (s[0] as int) < 256 {
        match percent_decode(s.skip(1)) {
            Some(r) => Some(seq![s[0] as u8] + r),
            None => None,
        }
    } else {
        None
    }
}

/// Length of the encoding: one character per unreserved byte, three per
/// escaped one.
pub open spec fn encoded_len(bs: Seq<u8>) -> nat
    decreases bs.len(),
{
    if bs.len() == 0 {
        0
    } else {
        encoded_len(bs.drop_last()) + if unreserved(bs.last()) {
            1nat
        } else {
            3nat
        }
    }
}

/// Every `%` is followed by two uppercase hex digits.
pub open spec fn escapes_well_formed(s: Seq<char>) -> bool {
    forall|i: int|
        0 <= i < s.len() && #[trigger] s[i] == '%' ==> i + 2 < s.len() && is_hex_upper(s[i + 1])
            && is_hex_upper(s[i + 2])
}

proof fn lemma_urlencode_append(a: Seq<u8>, b: Seq<u8>)
    ensures
        urlencode_spec(a + b) == urlencode_spec(a) + urlencode_spec(b),
    decreases b.len(),
{
    if b.len() == 0 {
        assert(a + b =~= a);
        assert(urlencode_spec(a) + urlencode_spec(b) =~= urlencode_spec(a));
    } else {
        assert((a + b).drop_last() =~= a + b.drop_last());
        assert((a + b).last() == b.last());
        lemma_urlencode_append(a, b.drop_last());
        assert(urlencode_spec(a + b) =~= urlencode_spec(a) + urlencode_spec(b));
    }
}

proof fn lemma_hex_char(d: nat)
    requires
        d < 16,
    ensures
        is_hex_upper(hex_char(d)),
        hex_val(hex_char(d)) == d,
{
}

proof fn lemma_decode_byte(b: u8, rest: Seq<char>)
    ensures
        percent_decode(encode_byte(b) + rest) == match percent_decode(rest) {
            Some(r) => Some(seq![b] + r),
            None => None::<Seq<u8>>,
        },
{
    let s = encode_byte(b) + rest;
    if unreserved(b) {
        assert(s[0] == b as char);
        assert(s.skip(1) =~= rest);
        assert((b as char) as int == b as int);
    } else {
        lemma_hex_char((b / 16) as nat);
        lemma_hex_char((b % 16) as nat);
        assert(s[0] == '%');
        assert(s[1] == hex_char((b / 16) as nat));
        assert(s[2] == hex_char((b % 16) as nat));
        assert(s.skip(3) =~= rest);
        assert(hex_val(s[1]) * 16 + hex_val(s[2]) == b);
    }
}

/// Law: percent-decoding the encoding of any bytes gives them back; the
/// encoding has one character per unreserved byte and three per other byte,
/// and every `%` starts an escape of two uppercase hex digits.
pub proof fn urlencode_roundtrip(bs: Seq<u8>)
    ensures
        percent_decode(urlencode_spec(bs)) == Some(bs),
        urlencode_spec(bs).len() == encoded_len(bs),
        escapes_well_formed(urlencode_spec(bs)),
    decreases bs.len(),
{
    if bs.len() == 0 {
        assert(urlencode_spec(bs) =~= Seq::<char>::empty());
    } else {
        let b = bs[0];
        let tail = bs.drop_first();
        assert(bs =~= seq![b] + tail);
        lemma_urlencode_append(seq![b], tail);
        let one = seq![b];
        assert(one.drop_last() =~= Seq::<u8>::empty());
        assert(one.last() == b);
        assert(urlencode_spec(one.drop_last()) =~= Seq::<char>::empty());
        assert(urlencode_spec(one) =~= encode_byte(b));
        urlencode_roundtrip(tail);
        lemma_decode_byte(b, urlencode_spec(tail));
        assert(seq![b] + tail =~= bs);
        // length, counted from the back
        assert(bs.drop_last().len() < bs.len());
        urlencode_roundtrip(bs.drop_last());
        lemma_urlencode_append(bs.drop_last(), seq![bs.last()]);
        assert(bs.drop_last() + seq![bs.last()] =~= bs);
        let e = encode_byte(b);
        let t = urlencode_spec(tail);
        let s = urlencode_spec(bs);
        assert(s =~= e + t);
        if !unreserved(b) {
            lemma_hex_char((b / 16) as nat);
            lemma_hex_char((b % 16) as nat);
        }
        assert forall|i: int| 0 <= i < s.len() && #[trigger] s[i] == '%' implies i + 2 < s.len()
            && is_hex_upper(s[i + 1]) && is_hex_upper(s[i + 2]) by {
            if i >= e.len() {
                assert(t[i - e.len()] == '%');
            } else if unreserved(b) {
                assert(s[i] == b as char);
            }
        }
    }
}

/// Percent-encodes the UTF-8 bytes of `s`, keeping `A-Z a-z 0-9 - _ . ~`.
pub fn urlencode(s: &str) -> (r: String)
    ensures
        r@ == urlencode_spec(s.spec_bytes()),
        forall|i: int| 0 <= i < r@.len() ==> url_safe(#[trigger] r@[i]),
{
    let bytes = s.as_bytes();
    let mut out = String::new();
    let mut i: usize = 0;
    while i < bytes.len()
        invariant
            i <= bytes@.len(),
            out@ == urlencode_spec(bytes@.take(i as int)),
        decreases bytes@.len() - i,
    {
        let b = bytes[i];
        assert(bytes@.take(i + 1).drop_last() =~= bytes@.take(i as int));
        if (65 <= b && b <= 90) || (97 <= b && b <= 122) || (48 <= b && b <= 57) || b == 45 || b
            == 95 || b == 46 || b == 126 {
            out.push(b as char);
        } else {
            out.push('%');
            out.push(hex_digit(b / 16));
            out.push(hex_digit(b % 16));
        }
        i = i + 1;
        assert(out@ =~= urlencode_spec(bytes@.take(i as int)));
    }
    assert(bytes@.take(bytes@.len() as int) =~= bytes@);
    proof {
        lemma_urlencode_safe(bytes@);
    }
    out
}

/// Overpass QL for the driveable ways around Tokyo Station, with geometry.
pub const QUERY: &'static str = "[out:json][timeout:60];way[\"highway\"~\"^(motorway|motorway_link|trunk|trunk_link|primary|secondary|tertiary|unclassified|residential)$\"](35.664,139.745,35.698,139.787);out geom;";

/// The Overpass interpreter request for the road query.
pub fn overpass_url() -> (r: String)
    ensures
        r@ == "https://overpass-api.de/api/interpreter?data="@ + urlencode_spec(QUERY.spec_bytes()),
{
    let mut s = String::new();
    push_str(&mut s, "https://overpass-api.de/api/interpreter?data=");
    let q = urlencode(QUERY);
    push_str(&mut s, q.as_str());
    s
}

/// Appends the two triangles of one ribbon quad whose four corners start at
/// vertex `base`: (base, base+1, base+2) and (base+2, base+1, base+3).
pub fn push_quad(indices: &mut Vec<u32>, base: u32)
    requires
        base + 3 <= u32::MAX,
    ensures
        final(indices)@ == old(indices)@ + seq![
            base,
            (base + 1) as u32,
            (base + 2) as u32,
            (base + 2) as u32,
            (base + 1) as u32,
            (base + 3) as u32,
        ],
{
    indices.push(base);
    indices.push(base + 1);
    indices.push(base + 2);
    indices.push(base + 2);
    indices.push(base + 1);
    indices.push(base + 3);
}

} // verus!
