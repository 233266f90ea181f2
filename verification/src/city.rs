//! PLATEAU city tiles: request URLs, cache names and the HUD summary.
use vstd::prelude::*;

use crate::text::{dec_chars, push_dec, push_replaced, push_str, replace_char};

verus! {

/// The 3D Tiles tileset of Chiyoda ward (LOD1, untextured).
pub const TILESET_URL: &'static str = "https://plateau.geospatial.jp/main/data/3d-tiles/bldg/13100_tokyo/13101_chiyoda-ku/notexture/tileset.json";

/// Index of the last `c` in `s`.
pub open spec fn last_index(s: Seq<char>, c: char) -> Option<int>
    decreases s.len(),
{
    if s.len() == 0 {
        None
    } else if s.last() == c {
        Some(s.len() - 1)
    } else {
        last_index(s.drop_last(), c)
    }
}

/// Where a tile's content lives: the tileset URL up to its last `/`, then
/// `/` and the content URI.
pub open spec fn content_url_spec(tileset: Seq<char>, uri: Seq<char>) -> Seq<char> {
    let base = match last_index(tileset, '/') {
        Some(k) => tileset.take(k),
        None => Seq::empty(),
    };
    base + "/"@ + uri
}

proof fn lemma_last_index(s: Seq<char>, c: char, k: int)
    requires
        0 <= k <= s.len(),
        forall|j: int| k <= j < s.len() ==> s[j] != c,
    ensures
        k > 0 && s[k - 1] == c ==> last_index(s, c) == Some(k - 1),
        k == 0 ==> last_index(s, c) is None,
    decreases s.len(),
{
    if s.len() > 0 && s.len() > k {
        lemma_last_index(s.drop_last(), c, k);
    }
}

pub fn content_url(tileset: &str, uri: &str) -> (r: String)
    ensures
        r@ == content_url_spec(tileset@, uri@),
{
    let n = tileset.unicode_len();
    let mut k = n;
    while k > 0 && tileset.get_char(k - 1) != '/'
        invariant
            n == tileset@.len(),
            k <= n,
            forall|j: int| k <= j < n ==> tileset@[j] != '/',
        decreases k,
    {
        k = k - 1;
    }
    proof {
        lemma_last_index(tileset@, '/', k as int);
    }
    let mut s = String::new();
    if k > 0 {
        let base = tileset.substring_char(0, k - 1);
        assert(base@ =~= tileset@.take(k - 1));
        push_str(&mut s, base);
    }
    push_str(&mut s, "/");
    push_str(&mut s, uri);
    s
}

/// Cache file name of a tile: its URI with every `/` turned into `_`.
pub fn cache_name(uri: &str) -> (r: String)
    ensures
        r@ == replace_char(uri@, '/', '_'),
{
    let mut s = String::new();
    push_replaced(&mut s, uri, '/', '_');
    s
}

/// HUD summary of the loaded city.
pub open spec fn city_label_spec(tiles: nat, tris_k: nat, failed: nat) -> Seq<char> {
    "PLATEAU 千代田区 LOD1 · "@ + dec_chars(tiles) + " tiles · "@ + dec_chars(tris_k) + "k tris"@
        + if failed > 0 {
        " ("@ + dec_chars(failed) + " failed)"@
    } else {
        Seq::empty()
    }
}

/// Summary of a load: `wanted` tiles selected, `failed` of them unusable,
/// `indices` triangle-list indices merged.
pub fn city_label(wanted: usize, failed: usize, indices: usize) -> (r: String)
    requires
        failed <= wanted,
    ensures
        r@ == city_label_spec((wanted - failed) as nat, (indices / 3000) as nat, failed as nat),
{
    let mut s = String::new();
    push_str(&mut s, "PLATEAU 千代田区 LOD1 · ");
    push_dec(&mut s, (wanted - failed) as u64);
    push_str(&mut s, " tiles · ");
    push_dec(&mut s, (indices / 3000) as u64);
    push_str(&mut s, "k tris");
    if failed > 0 {
        push_str(&mut s, " (");
        push_dec(&mut s, failed as u64);
        push_str(&mut s, " failed)");
    }
    proof {
        if failed == 0 {
            assert(s@ =~= city_label_spec((wanted - failed) as nat, (indices / 3000) as nat, 0));
        }
    }
    s
}

/// Index of the height used as ground level: the 3rd percentile of the
/// sorted vertex heights.
pub fn ground_percentile_index(n: usize) -> (r: usize)
    requires
        n > 0,
    ensures
        r == n / 33,
        r < n,
{
    n / 33
}

} // verus!
