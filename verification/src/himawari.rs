//! Himawari-9 full-disk mosaics: timestamp handling, tile requests, mosaic
//! assembly and the on-disk cache record.
use vstd::prelude::*;
use vstd::string::StringSliceAdditionalSpecFns;
use vstd::utf8::*;

use crate::grid::{blit_rgb_opaque, blit_value, cell};
use crate::json::{is_json_document, json_member_str, member_str};
use crate::raster::{decode_rgb8, decode_rgba8, encode_png_rgba8, png_rgb8, png_rgba8, DECODE_LIMIT};
use crate::text::{first_index, lemma_first_index, count_char, dec_chars, drop_char, replace_char, byte_range, push_dec, push_replaced, push_str, push_without};

verus! {

/// Tiles per side of the mosaic.
pub const LEVEL: u32 = 4;

/// Pixels per side of one tile.
pub const TILE: u32 = 550;

/// Pixels per side of the whole mosaic.
pub const SIZE: u32 = 2200;

/// A decoded cloud image, row-major RGBA.
pub struct CloudImage {
    pub w: u32,
    pub h: u32,
    pub rgba: Vec<u8>,
    pub label: String,
}

impl CloudImage {
    /// The pixel buffer holds exactly `w * h` RGBA pixels.
    pub open spec fn wf(&self) -> bool {
        self.rgba@.len() == self.w * self.h * 4
    }
}

/// Why the latest-image record or a tile was refused.
#[derive(Debug, PartialEq, Eq, Structural)]
pub enum HimawariError {
    /// `latest.json` is not JSON.
    BadJson,
    /// `latest.json` has no string `date`.
    NoDate,
    /// The timestamp is shorter than `YYYY-MM-DD HH:MM:SS`.
    ShortStamp,
    /// The date part does not split into year, month and day at `-`.
    BadDate,
    /// A tile that does not decode as an image.
    BadTile,
    /// A tile that is not 550 x 550.
    BadTileSize,
}

/// What `latest.json` announces: the timestamp, or why it was refused.
pub open spec fn latest_spec(bytes: Seq<u8>) -> Result<Seq<char>, HimawariError> {
    if !is_json_document(bytes) {
        Err(HimawariError::BadJson)
    } else {
        match json_member_str(bytes, "date"@) {
            None => Err(HimawariError::NoDate),
            Some(d) => if encode_utf8(d).len() < 19 {
                Err(HimawariError::ShortStamp)
            } else {
                Ok(d)
            },
        }
    }
}

/// Reads the image timestamp (`2026-07-05 05:40:00`) from `latest.json`.
pub fn parse_latest(bytes: &[u8]) -> (r: Result<String, HimawariError>)
    ensures
        match latest_spec(bytes@) {
            Ok(d) => r matches Ok(s) && s@ == d,
            Err(e) => r == Err::<String, HimawariError>(e),
        },
{
    let date = match member_str(bytes, "date") {
        Err(()) => return Err(HimawariError::BadJson),
        Ok(None) => return Err(HimawariError::NoDate),
        Ok(Some(d)) => d,
    };
    if date.as_str().as_bytes().len() < 19 {
        return Err(HimawariError::ShortStamp);
    }
    Ok(date)
}

/// The byte positions a timestamp is cut at fall on character boundaries.
pub open spec fn stamp_cuttable(b: Seq<u8>) -> bool {
    &&& b.len() >= 19
    &&& is_char_boundary(b, 10)
    &&& is_char_boundary(b, 11)
    &&& is_char_boundary(b, 16)
    &&& is_char_boundary(b, 19)
}

/// Date part (bytes 0..10) and time part (bytes 11..19) of a timestamp.
pub open spec fn stamp_date(b: Seq<u8>) -> Seq<char> {
    decode_utf8(b.subrange(0, 10))
}

pub open spec fn stamp_time(b: Seq<u8>) -> Seq<char> {
    decode_utf8(b.subrange(11, 19))
}

/// URL of tile `(tx, ty)` of the image taken at the given date and time.
pub open spec fn tile_url_spec(date: Seq<char>, time: Seq<char>, tx: nat, ty: nat) -> Seq<char> {
    "https://himawari8.nict.go.jp/img/D531106/4d/550/"@ + replace_char(date, '-', '/') + "/"@
        + drop_char(time, ':') + "_"@ + dec_chars(tx) + "_"@ + dec_chars(ty) + ".png"@
}

/// The request URL of one tile; the date must hold exactly two `-`.
pub fn tile_url(ts: &str, tx: u32, ty: u32) -> (r: Result<String, HimawariError>)
    requires
        stamp_cuttable(ts.spec_bytes()),
    ensures
        count_char(stamp_date(ts.spec_bytes()), '-') != 2 ==> r == Err::<String, HimawariError>(
            HimawariError::BadDate,
        ),
        count_char(stamp_date(ts.spec_bytes()), '-') == 2 ==> (r matches Ok(u) && u@
            == tile_url_spec(
            stamp_date(ts.spec_bytes()),
            stamp_time(ts.spec_bytes()),
            tx as nat,
            ty as nat,
        )),
{
    proof {
        encode_utf8_valid_utf8(ts@);
        is_char_boundary_start_end_of_seq(ts.spec_bytes());
    }
    let date = byte_range(ts, 0, 10);
    let time = byte_range(ts, 11, 19);
    let mut url = String::new();
    push_str(&mut url, "https://himawari8.nict.go.jp/img/D531106/4d/550/");
    let dashes = push_replaced(&mut url, date, '-', '/');
    if dashes != 2 {
        return Err(HimawariError::BadDate);
    }
    push_str(&mut url, "/");
    push_without(&mut url, time, ':');
    push_str(&mut url, "_");
    push_dec(&mut url, tx as u64);
    push_str(&mut url, "_");
    push_dec(&mut url, ty as u64);
    push_str(&mut url, ".png");
    Ok(url)
}

/// HUD label of an image: `Himawari-9 HH:MM UTC`.
pub open spec fn cloud_label_spec(b: Seq<u8>) -> Seq<char> {
    "Himawari-9 "@ + decode_utf8(b.subrange(11, 16)) + " UTC"@
}

pub fn cloud_label(ts: &str) -> (r: String)
    requires
        stamp_cuttable(ts.spec_bytes()),
    ensures
        r@ == cloud_label_spec(ts.spec_bytes()),
{
    let hm = byte_range(ts, 11, 16);
    let mut s = String::new();
    push_str(&mut s, "Himawari-9 ");
    push_str(&mut s, hm);
    push_str(&mut s, " UTC");
    s
}

/// The mosaic after pasting one decoded tile.
pub open spec fn pasted(old: Seq<u8>, px: Seq<u8>, tx: nat, ty: nat, x: int, y: int, c: int) -> u8 {
    blit_value(old, 2200, px, 550, (tx * 550) as int, (ty * 550) as int, x, y, c)
}

impl CloudImage {
    /// An all-transparent 2200 x 2200 mosaic waiting for its tiles.
    pub fn blank(label: String) -> (r: CloudImage)
        ensures
            r.wf(),
            r.w == SIZE && r.h == SIZE,
            r.label == label,
            forall|i: int| 0 <= i < r.rgba@.len() ==> r.rgba@[i] == 0,
    {
        let rgba = vec![0u8; 2200 * 2200 * 4];
        proof {
            assert forall|i: int| 0 <= i < rgba@.len() implies rgba@[i] == 0 by {
                assert(cloned(0u8, rgba@[i]));
            }
        }
        CloudImage { w: 2200, h: 2200, rgba, label }
    }

    /// A cached mosaic: the PNG decoded to RGBA as it was saved, with its
    /// label; `None` when the bytes do not decode.
    pub fn from_png(png: &[u8], label: String) -> (r: Option<CloudImage>)
        ensures
            match png_rgba8(png@) {
                None => r is None,
                Some((w, h, px)) => r matches Some(c) && c.w == w && c.h == h && c.rgba@ == px
                    && c.label == label,
            },
    {
        match decode_rgba8(png) {
            None => None,
            Some((w, h, rgba)) => Some(CloudImage { w, h, rgba, label }),
        }
    }

    /// Decodes tile `(tx, ty)` and pastes it, opaque, into the mosaic.
    pub fn add_tile(&mut self, png: &[u8], tx: u32, ty: u32) -> (r: Result<(), HimawariError>)
        requires
            old(self).wf(),
            old(self).w == SIZE && old(self).h == SIZE,
            tx < LEVEL,
            ty < LEVEL,
        ensures
            final(self).wf(),
            final(self).w == SIZE && final(self).h == SIZE,
            final(self).label == old(self).label,
            match png_rgb8(png@) {
                None => r == Err::<(), HimawariError>(HimawariError::BadTile) && final(self).rgba@
                    == old(self).rgba@,
                Some((w, h, px)) => if w != TILE || h != TILE {
                    r == Err::<(), HimawariError>(HimawariError::BadTileSize) && final(self).rgba@
                        == old(self).rgba@
                } else {
                    r is Ok && forall|x: int, y: int, c: int|
                        0 <= x < 2200 && 0 <= y < 2200 && 0 <= c < 4 ==> #[trigger] final(self).rgba@[cell(2200, 4, x, y, c)] == pasted(
                            old(self).rgba@,
                            px,
                            tx as nat,
                            ty as nat,
                            x,
                            y,
                            c,
                        )
                },
            },
    {
        let (w, h, px) = match decode_rgb8(png) {
            None => return Err(HimawariError::BadTile),
            Some(t) => t,
        };
        if w != 550 || h != 550 {
            return Err(HimawariError::BadTileSize);
        }
        blit_rgb_opaque(&mut self.rgba, 2200, px.as_slice(), 550, (tx * 550) as usize, (ty * 550) as usize);
        Ok(())
    }
}

/// Whether a newly announced image should be downloaded.
pub fn is_new_image(latest: &str, loaded: &str) -> (r: bool)
    ensures
        r == (latest@ != loaded@),
{
    !(String::from_str(latest) == String::from_str(loaded))
}

/// The first line of `s` as `str::lines` yields it: text up to the first
/// `\n` without a `\r` right before it, or all of `s` when it has no `\n`;
/// `None` for the empty string.
pub open spec fn first_line(s: Seq<char>) -> Option<Seq<char>> {
    if s.len() == 0 {
        None
    } else {
        match first_index(s, '\n') {
            None => Some(s),
            Some(k) => if k > 0 && s[k - 1] == '\r' {
                Some(s.take(k - 1))
            } else {
                Some(s.take(k))
            },
        }
    }
}

/// What follows the first line.
pub open spec fn after_first_line(s: Seq<char>) -> Seq<char> {
    match first_index(s, '\n') {
        None => Seq::empty(),
        Some(k) => s.skip(k + 1),
    }
}

/// The cache record: the timestamp, a newline, the label.
pub open spec fn cache_meta_spec(ts: Seq<char>, label: Seq<char>) -> Seq<char> {
    ts + "\n"@ + label
}

/// A cache record read back: the timestamp on the first line and the label
/// on the second (`Himawari-9` when absent), marked as coming from the cache.
pub open spec fn read_meta_spec(meta: Seq<char>) -> Option<(Seq<char>, Seq<char>)> {
    match first_line(meta) {
        None => None,
        Some(ts) => {
            let label = match first_line(after_first_line(meta)) {
                Some(l) => l,
                None => "Himawari-9"@,
            };
            Some((ts, label + " (cache)"@))
        },
    }
}

pub fn cache_meta(ts: &str, label: &str) -> (r: String)
    ensures
        r@ == cache_meta_spec(ts@, label@),
{
    let mut s = String::from_str(ts);
    push_str(&mut s, "\n");
    push_str(&mut s, label);
    s
}

/// Splits off the first line of `s`: the line and the text after it.
fn split_first_line(s: &str) -> (r: (Option<String>, String))
    ensures
        match r.0 {
            Some(l) => first_line(s@) == Some(l@),
            None => first_line(s@) is None,
        },
        r.1@ == after_first_line(s@),
{
    let n = s.unicode_len();
    if n == 0 {
        proof {
            lemma_first_index(s@, '\n', 0);
        }
        return (None, String::new());
    }
    let mut k: usize = 0;
    while k < n && s.get_char(k) != '\n'
        invariant
            n == s@.len(),
            k <= n,
            forall|j: int| 0 <= j < k ==> s@[j] != '\n',
        decreases n - k,
    {
        k = k + 1;
    }
    proof {
        lemma_first_index(s@, '\n', k as int);
    }
    if k == n {
        return (Some(String::from_str(s)), String::new());
    }
    let end = if k > 0 && s.get_char(k - 1) == '\r' {
        k - 1
    } else {
        k
    };
    let line = s.substring_char(0, end);
    let rest = s.substring_char(k + 1, n);
    assert(line@ =~= s@.take(end as int));
    assert(rest@ =~= s@.skip(k + 1));
    (Some(String::from_str(line)), String::from_str(rest))
}

/// Reads a cache record back.
pub fn read_cache_meta(meta: &str) -> (r: Option<(String, String)>)
    ensures
        match read_meta_spec(meta@) {
            None => r is None,
            Some((ts, label)) => r matches Some((t, l)) && t@ == ts && l@ == label,
        },
{
    let (first, rest) = split_first_line(meta);
    let ts = match first {
        None => return None,
        Some(t) => t,
    };
    let (second, _) = split_first_line(rest.as_str());
    let mut label = match second {
        Some(l) => l,
        None => String::from_str("Himawari-9"),
    };
    push_str(&mut label, " (cache)");
    Some((ts, label))
}

/// Law: a record written for a one-line timestamp (possibly empty) and a
/// non-empty one-line label reads back as that timestamp and label, marked as cached.
pub proof fn cache_meta_roundtrip(ts: Seq<char>, label: Seq<char>)
    requires
        forall|i: int| 0 <= i < ts.len() ==> ts[i] != '\n',
        ts.len() > 0 ==> ts.last() != '\r',
        label.len() > 0,
        forall|i: int| 0 <= i < label.len() ==> label[i] != '\n',
    ensures
        read_meta_spec(cache_meta_spec(ts, label)) == Some((ts, label + " (cache)"@)),
{
    let m = cache_meta_spec(ts, label);
    reveal_strlit("\n");
    assert(m.len() == ts.len() + 1 + label.len());
    assert(m[ts.len() as int] == '\n');
    assert forall|j: int| 0 <= j < ts.len() implies m[j] != '\n' by {
        assert(m[j] == ts[j]);
    }
    lemma_first_index(m, '\n', ts.len() as int);
    if ts.len() > 0 {
        assert(m[ts.len() - 1] == ts.last());
    }
    assert(m.take(ts.len() as int) =~= ts);
    let rest = after_first_line(m);
    assert(rest =~= label);
    lemma_first_index(label, '\n', label.len() as int);
}

/// The cache read back from its record and its PNG: width, height, pixels,
/// label and timestamp; `None` when either does not read.
pub open spec fn read_cache_spec(meta: Seq<char>, png: Seq<u8>) -> Option<
    (u32, u32, Seq<u8>, Seq<char>, Seq<char>),
> {
    match read_meta_spec(meta) {
        None => None,
        Some((ts, label)) => match png_rgba8(png) {
            None => None,
            Some((w, h, px)) => Some((w, h, px, label, ts)),
        },
    }
}

/// A string without line breaks.
pub open spec fn no_newline(s: Seq<char>) -> bool {
    forall|i: int| 0 <= i < s.len() ==> s[i] != '\n'
}

/// A timestamp that reads back as written from the first line of the cache
/// record: no line break, and no `\r` at its end (`str::lines` strips it).
pub open spec fn record_line(s: Seq<char>) -> bool {
    &&& no_newline(s)
    &&& s.len() > 0 ==> s.last() != '\r'
}

impl CloudImage {
    /// The two cache files of a mosaic taken at `ts`: the PNG and the record.
    /// A well-formed mosaic of positive size always encodes. The cache reads
    /// back as this mosaic, its timestamp and its label marked as cached,
    /// provided the mosaic is well formed and within the decoder's default
    /// allocation limit, the timestamp is one line without a trailing `\r`,
    /// and the label is one non-empty line.
    pub fn write_cache(&self, ts: &str) -> (r: Option<(Vec<u8>, String)>)
        ensures
            self.wf() && self.w > 0 && self.h > 0 ==> r is Some,
            r matches Some((_, meta)) ==> meta@ == cache_meta_spec(ts@, self.label@),
            r matches Some((png, meta)) ==> (self.wf() && self.rgba@.len() <= DECODE_LIMIT
                && record_line(ts@) && no_newline(self.label@) && self.label@.len() > 0
                ==> read_cache_spec(meta@, png@) == Some(
                (self.w, self.h, self.rgba@, self.label@ + " (cache)"@, ts@),
            )),
    {
        let png = match encode_png_rgba8(self.w, self.h, self.rgba.as_slice()) {
            None => return None,
            Some(b) => b,
        };
        let meta = cache_meta(ts, self.label.as_str());
        proof {
            if self.wf() && self.rgba@.len() <= DECODE_LIMIT && record_line(ts@) && no_newline(
                self.label@,
            ) && self.label@.len() > 0 {
                cache_meta_roundtrip(ts@, self.label@);
            }
        }
        Some((png, meta))
    }
}

/// Reads the cache back from the record and the PNG bytes.
pub fn read_cache(meta: &str, png: &[u8]) -> (r: Option<(CloudImage, String)>)
    ensures
        match read_cache_spec(meta@, png@) {
            None => r is None,
            Some((w, h, px, label, ts)) => r matches Some((c, t)) && c.w == w && c.h == h
                && c.rgba@ == px && c.label@ == label && t@ == ts,
        },
{
    let (ts, label) = match read_cache_meta(meta) {
        None => return None,
        Some(p) => p,
    };
    match CloudImage::from_png(png, label) {
        None => None,
        Some(c) => Some((c, ts)),
    }
}

} // verus!
