//! GFS 10 m wind: which forecast cycle to fetch, how to recognise and size the
//! GRIB2 grid, and the grid record handed to the renderer.
use vstd::prelude::*;
use vstd::string::StringSliceAdditionalSpecFns;
use vstd::utf8::*;

use crate::clock::{clock_secs, utc_civil, utc_date, TS_MAX, TS_MIN};
use crate::source::Source;
use crate::text::{contains_seq, contains_str, byte_range, dec_chars, padded_dec, push_padded, push_str};

verus! {

/// A decoded wind grid: `w x h` cells of (u, v) as IEEE half-float bits,
/// row-major from the north pole, longitude from 0 eastwards.
pub struct WindGrid {
    pub w: u32,
    pub h: u32,
    pub data: Vec<[u16; 2]>,
    pub label: String,
    pub source: Source,
    pub cycle_key: String,
}

impl WindGrid {
    pub open spec fn wf(&self) -> bool {
        self.data@.len() == self.w * self.h
    }
}

/// Why a wind download or decode was refused.
#[derive(Debug, PartialEq, Eq, Structural)]
pub enum WindError {
    /// The response is too small or lacks the `GRIB` magic; holds its length.
    NotGrib(usize),
    /// No U-component message.
    NoU,
    /// No V-component message.
    NoV,
    /// U and V grids differ in size.
    SizeMismatch,
    /// A grid size that is neither GFS 0.25 nor 0.5 degree.
    UnexpectedSize(usize),
}

/// A plausible GRIB2 download: more than 100 kB, starting with `GRIB`.
pub open spec fn grib_ok(b: Seq<u8>) -> bool {
    b.len() > 100_000 && b[0] == 0x47 && b[1] == 0x52 && b[2] == 0x49 && b[3] == 0x42
}

pub fn check_grib(bytes: &[u8]) -> (r: Result<(), WindError>)
    ensures
        grib_ok(bytes@) ==> r is Ok,
        !grib_ok(bytes@) ==> r == Err::<(), WindError>(WindError::NotGrib(bytes@.len() as usize)),
{
    let n = bytes.len();
    if n > 100_000 && bytes[0] == 0x47 && bytes[1] == 0x52 && bytes[2] == 0x49 && bytes[3] == 0x42 {
        Ok(())
    } else {
        Err(WindError::NotGrib(n))
    }
}

/// Grid dimensions of a GFS field with `n` points.
pub open spec fn grid_dims_spec(n: nat) -> Option<(u32, u32)> {
    if n == 1_038_240 {
        Some((1440, 721))
    } else if n == 259_920 {
        Some((720, 361))
    } else {
        None
    }
}

/// How the grid is sized from the U and V point counts.
pub open spec fn grid_dims_result(u_len: Option<usize>, v_len: Option<usize>) -> Result<
    (u32, u32),
    WindError,
> {
    match (u_len, v_len) {
        (None, _) => Err(WindError::NoU),
        (Some(_), None) => Err(WindError::NoV),
        (Some(u), Some(v)) => if u != v {
            Err(WindError::SizeMismatch)
        } else {
            match grid_dims_spec(u as nat) {
                Some(d) => Ok(d),
                None => Err(WindError::UnexpectedSize(u)),
            }
        },
    }
}

/// Sizes the grid from the decoded U and V point counts (`None` where that
/// component was missing).
pub fn grid_dims(u_len: Option<usize>, v_len: Option<usize>) -> (r: Result<(u32, u32), WindError>)
    ensures
        r == grid_dims_result(u_len, v_len),
        r matches Ok((w, h)) ==> u_len == Some((w * h) as usize),
{
    let u = match u_len {
        None => return Err(WindError::NoU),
        Some(u) => u,
    };
    let v = match v_len {
        None => return Err(WindError::NoV),
        Some(v) => v,
    };
    if u != v {
        return Err(WindError::SizeMismatch);
    }
    if u == 1_038_240 {
        Ok((1440, 721))
    } else if u == 259_920 {
        Ok((720, 361))
    } else {
        Err(WindError::UnexpectedSize(u))
    }
}

/// A cycle key `YYYYMMDDHH` can be cut at bytes 4, 6, 8 and 10.
pub open spec fn key_cuttable(b: Seq<u8>) -> bool {
    b.len() >= 10 ==> (is_char_boundary(b, 4) && is_char_boundary(b, 6) && is_char_boundary(b, 8)
        && is_char_boundary(b, 10))
}

pub open spec fn key_piece(b: Seq<u8>, i: int, j: int) -> Seq<char> {
    decode_utf8(b.subrange(i, j))
}

/// HUD label of a cycle: `GFS YYYY-MM-DD HHZ`, or `GFS <key>` for a short key.
pub open spec fn cycle_label_spec(key: Seq<char>, b: Seq<u8>) -> Seq<char> {
    if b.len() >= 10 {
        "GFS "@ + key_piece(b, 0, 4) + "-"@ + key_piece(b, 4, 6) + "-"@ + key_piece(b, 6, 8) + " "@
            + key_piece(b, 8, 10) + "Z"@
    } else {
        "GFS "@ + key
    }
}

pub fn cycle_label(key: &str) -> (r: String)
    requires
        key_cuttable(key.spec_bytes()),
    ensures
        r@ == cycle_label_spec(key@, key.spec_bytes()),
{
    proof {
        encode_utf8_valid_utf8(key@);
        is_char_boundary_start_end_of_seq(key.spec_bytes());
    }
    let mut s = String::new();
    push_str(&mut s, "GFS ");
    if key.as_bytes().len() >= 10 {
        push_str(&mut s, byte_range(key, 0, 4));
        push_str(&mut s, "-");
        push_str(&mut s, byte_range(key, 4, 6));
        push_str(&mut s, "-");
        push_str(&mut s, byte_range(key, 6, 8));
        push_str(&mut s, " ");
        push_str(&mut s, byte_range(key, 8, 10));
        push_str(&mut s, "Z");
        let ghost b = key.spec_bytes();
        assert(s@ =~= "GFS "@ + key_piece(b, 0, 4) + "-"@ + key_piece(b, 4, 6) + "-"@ + key_piece(
            b,
            6,
            8,
        ) + " "@ + key_piece(b, 8, 10) + "Z"@);
    } else {
        push_str(&mut s, key);
    }
    s
}

/// The NOMADS grib-filter request for the 10 m U/V analysis of one cycle.
pub open spec fn cycle_url_spec(date: Seq<char>, hour: Seq<char>) -> Seq<char> {
    "https://nomads.ncep.noaa.gov/cgi-bin/filter_gfs_0p25.pl?dir=%2Fgfs."@ + date + "%2F"@ + hour
        + "%2Fatmos&file=gfs.t"@ + hour
        + "z.pgrb2.0p25.f000&var_UGRD=on&var_VGRD=on&lev_10_m_above_ground=on"@
}

pub fn cycle_url(date: &str, hour: &str) -> (r: String)
    ensures
        r@ == cycle_url_spec(date@, hour@),
{
    let mut s = String::new();
    push_str(&mut s, "https://nomads.ncep.noaa.gov/cgi-bin/filter_gfs_0p25.pl?dir=%2Fgfs.");
    push_str(&mut s, date);
    push_str(&mut s, "%2F");
    push_str(&mut s, hour);
    push_str(&mut s, "%2Fatmos&file=gfs.t");
    push_str(&mut s, hour);
    push_str(&mut s, "z.pgrb2.0p25.f000&var_UGRD=on&var_VGRD=on&lev_10_m_above_ground=on");
    s
}

/// `{:04}` of a year: zero-padded to four characters, sign included.
pub open spec fn year_chars(y: int) -> Seq<char> {
    if y < 0 {
        "-"@ + padded_dec((-y) as nat, 3)
    } else {
        padded_dec(y as nat, 4)
    }
}

/// Seconds before now of candidate `i`: the f000 file lands about 3 h 35 min
/// after the cycle, and each older candidate is 6 h earlier.
pub open spec fn candidate_secs(now: int, i: int) -> int {
    now - 215 * 60 - 6 * 3600 * i
}

/// A candidate cycle at `t`: date `YYYYMMDD`, hour rounded down to 00/06/12/18.
pub open spec fn candidate_spec(t: i64) -> Option<(Seq<char>, Seq<char>)> {
    match utc_date(t) {
        None => None,
        Some((y, m, d)) => Some(
            (
                year_chars(y as int) + padded_dec(m as nat, 2) + padded_dec(d as nat, 2),
                padded_dec((((t as int % 86400) / 3600) / 6 * 6) as nat, 2),
            ),
        ),
    }
}

/// The three most recent cycles that may be published at time `now`, newest
/// first; `None` when one of them lies outside the calendar `chrono` handles.
pub open spec fn candidates_spec(now: int) -> Option<Seq<(Seq<char>, Seq<char>)>> {
    if candidate_secs(now, 2) < i64::MIN {
        None
    } else {
        match (
            candidate_spec(candidate_secs(now, 0) as i64),
            candidate_spec(candidate_secs(now, 1) as i64),
            candidate_spec(candidate_secs(now, 2) as i64),
        ) {
            (Some(a), Some(b), Some(c)) => Some(seq![a, b, c]),
            _ => None,
        }
    }
}

fn push_year(s: &mut String, y: i32)
    ensures
        final(s)@ == old(s)@ + year_chars(y as int),
{
    if y < 0 {
        push_str(s, "-");
        let a: u64 = if y == i32::MIN {
            2147483648
        } else {
            (-y) as u64
        };
        push_padded(s, a, 3);
    } else {
        push_padded(s, y as u64, 4);
    }
}

fn candidate(t: i64) -> (r: Option<(String, String)>)
    ensures
        (r is Some) == (TS_MIN <= t <= TS_MAX),
        match candidate_spec(t) {
            None => r is None,
            Some((d, h)) => r matches Some((a, b)) && a@ == d && b@ == h,
        },
{
    match utc_civil(t) {
        None => None,
        Some((y, m, d, h)) => {
            let mut date = String::new();
            push_year(&mut date, y);
            push_padded(&mut date, m as u64, 2);
            push_padded(&mut date, d as u64, 2);
            let mut hour = String::new();
            push_padded(&mut hour, ((h / 6) * 6) as u64, 2);
            Some((date, hour))
        },
    }
}

/// `r` holds exactly the candidates `c` (both absent, or three equal pairs).
pub open spec fn candidates_are(
    r: Option<Vec<(String, String)>>,
    c: Option<Seq<(Seq<char>, Seq<char>)>>,
) -> bool {
    match c {
        None => r is None,
        Some(c) => r matches Some(v) && v@.len() == 3 && forall|i: int|
            0 <= i < 3 ==> #[trigger] v@[i].0@ == c[i].0 && v@[i].1@ == c[i].1,
    }
}

/// The cycles to try at Unix time `now`, newest first.
pub fn cycle_candidates_at(now: i64) -> (r: Option<Vec<(String, String)>>)
    ensures
        candidates_are(r, candidates_spec(now as int)),
        TS_MIN + 56_100 <= now <= TS_MAX ==> r is Some,
{
    if now < i64::MIN + 215 * 60 + 12 * 3600 {
        return None;
    }
    let base = now - 215 * 60;
    let a = match candidate(base) {
        None => return None,
        Some(x) => x,
    };
    let b = match candidate(base - 6 * 3600) {
        None => return None,
        Some(x) => x,
    };
    let c = match candidate(base - 12 * 3600) {
        None => return None,
        Some(x) => x,
    };
    let mut v: Vec<(String, String)> = Vec::new();
    v.push(a);
    v.push(b);
    v.push(c);
    Some(v)
}

/// The cycles to try for a clock reading in whole seconds since the Unix
/// epoch: `None` without a reading (a clock before the epoch) or for one past
/// the end of `chrono`'s calendar, else the three candidates at that second.
pub fn cycle_candidates_from_clock(reading: Option<u64>) -> (r: Option<Vec<(String, String)>>)
    ensures
        match reading {
            None => r is None,
            Some(s) => if s <= TS_MAX {
                r is Some && candidates_are(r, candidates_spec(s as int))
            } else {
                r is None
            },
        },
{
    match reading {
        None => None,
        Some(s) => {
            if s > TS_MAX as u64 {
                None
            } else {
                cycle_candidates_at(s as i64)
            }
        },
    }
}

/// The cycles to try now, newest first: the three candidates at the system
/// clock's reading, or `None` when the clock reads before the Unix epoch or
/// past the end of `chrono`'s calendar.
pub fn cycle_candidates() -> (r: Option<Vec<(String, String)>>)
    ensures
        r is Some ==> exists|now: int|
            0 <= now <= TS_MAX && candidates_are(r, #[trigger] candidates_spec(now)),
{
    let reading = clock_secs();
    let r = cycle_candidates_from_clock(reading);
    proof {
        if let Some(s) = reading {
            if s <= TS_MAX {
                assert(candidates_are(r, candidates_spec(s as int)));
            }
        }
    }
    r
}

/// The cycle keys worth fetching: candidates in order, up to (not including)
/// the one already loaded.
pub open spec fn pending_spec(keys: Seq<Seq<char>>, loaded: Seq<char>) -> Seq<Seq<char>>
    decreases keys.len(),
{
    if keys.len() == 0 || keys[0] == loaded {
        Seq::empty()
    } else {
        seq![keys[0]] + pending_spec(keys.drop_first(), loaded)
    }
}

/// `date + hour` for each candidate.
pub fn candidate_key(date: &str, hour: &str) -> (r: String)
    ensures
        r@ == date@ + hour@,
{
    let mut s = String::from_str(date);
    push_str(&mut s, hour);
    s
}

/// Keys to try in order: stop at the loaded cycle, nothing newer exists yet.
pub fn pending_keys(keys: &Vec<String>, loaded: &str) -> (r: Vec<String>)
    ensures
        r@.len() == pending_spec(keys@.map_values(|k: String| k@), loaded@).len(),
        forall|i: int|
            0 <= i < r@.len() ==> #[trigger] r@[i]@ == pending_spec(
                keys@.map_values(|k: String| k@),
                loaded@,
            )[i],
{
    let ghost ks = keys@.map_values(|k: String| k@);
    let target = String::from_str(loaded);
    let mut out: Vec<String> = Vec::new();
    let mut i: usize = 0;
    assert(ks.take(0) =~= Seq::<Seq<char>>::empty());
    assert(ks.skip(0) =~= ks);
    while i < keys.len()
        invariant
            i <= keys@.len(),
            ks == keys@.map_values(|k: String| k@),
            target@ == loaded@,
            forall|j: int| 0 <= j < i ==> ks[j] != loaded@,
            out@.len() == i,
            forall|j: int| 0 <= j < i ==> #[trigger] out@[j]@ == ks[j],
            pending_spec(ks, loaded@) == ks.take(i as int) + pending_spec(ks.skip(i as int), loaded@),
        ensures
            i <= keys@.len(),
            out@.len() == i,
            forall|j: int| 0 <= j < i ==> #[trigger] out@[j]@ == ks[j],
            pending_spec(ks, loaded@) == ks.take(i as int) + pending_spec(ks.skip(i as int), loaded@),
            i < keys@.len() ==> keys@[i as int]@ == loaded@,
        decreases keys@.len() - i,
    {
        if keys[i] == target {
            break;
        }
        proof {
            let rest = ks.skip(i as int);
            assert(rest[0] == ks[i as int]);
            assert(rest.drop_first() =~= ks.skip(i + 1));
            assert(ks.take(i + 1) =~= ks.take(i as int) + seq![ks[i as int]]);
        }
        out.push(keys[i].clone());
        i = i + 1;
    }
    proof {
        if i < keys@.len() {
            assert(ks[i as int] == keys@[i as int]@);
            assert(ks.skip(i as int)[0] == loaded@);
        } else {
            assert(ks.skip(i as int).len() == 0);
        }
        assert(pending_spec(ks, loaded@) =~= ks.take(i as int));
    }
    out
}

/// Law: the keys to try never include the loaded cycle, and always form a
/// prefix of the candidates.
pub proof fn pending_is_fresh_prefix(keys: Seq<Seq<char>>, loaded: Seq<char>)
    ensures
        pending_spec(keys, loaded).len() <= keys.len(),
        forall|i: int|
            0 <= i < pending_spec(keys, loaded).len() ==> #[trigger] pending_spec(keys, loaded)[i]
                == keys[i] && keys[i] != loaded,
    decreases keys.len(),
{
    if keys.len() > 0 && keys[0] != loaded {
        pending_is_fresh_prefix(keys.drop_first(), loaded);
        let p = pending_spec(keys, loaded);
        assert forall|i: int| 0 <= i < p.len() implies #[trigger] p[i] == keys[i] && keys[i] != loaded by {
            if i > 0 {
                assert(p[i] == pending_spec(keys.drop_first(), loaded)[i - 1]);
            }
        }
    }
}

/// The procedural fallback grid: 720 x 361 cells at half a degree. The
/// field itself is computed by the caller.
pub fn synthetic(field: Vec<[u16; 2]>) -> (g: WindGrid)
    requires
        field@.len() == 720 * 361,
    ensures
        g.wf(),
        g.w == 720 && g.h == 361,
        g.data@ == field@,
        g.label@ == "procedural (offline)"@,
        g.source == Source::Synthetic,
        g.cycle_key@.len() == 0,
{
    WindGrid {
        w: 720,
        h: 361,
        data: field,
        label: String::from_str("procedural (offline)"),
        source: Source::Synthetic,
        cycle_key: String::new(),
    }
}

/// Law: a candidate's hour is always a GFS cycle hour: 00, 06, 12 or 18.
pub proof fn candidate_hour_is_cycle(t: i64)
    ensures
        ({
            let h = ((t as int % 86400) / 3600) / 6 * 6;
            h == 0 || h == 6 || h == 12 || h == 18
        }),
{
    let s = t as int % 86400;
    assert(0 <= s < 86400);
    let hh = s / 3600;
    assert(0 <= hh < 24);
}

/// Which wind component a GRIB message carries.
#[derive(Clone, Copy, Debug, PartialEq, Eq, Structural)]
pub enum Component {
    U,
    V,
    Other,
}

/// Classification by the message's abbreviation and lower-cased name; a
/// message that looks like both counts as U.
pub open spec fn component_spec(abbrev: Seq<char>, name_lower: Seq<char>) -> Component {
    if abbrev == "UGRD"@ || contains_seq(name_lower, "u-component"@) {
        Component::U
    } else if abbrev == "VGRD"@ || contains_seq(name_lower, "v-component"@) {
        Component::V
    } else {
        Component::Other
    }
}

pub fn classify_message(abbrev: &str, name_lower: &str) -> (r: Component)
    ensures
        r == component_spec(abbrev@, name_lower@),
{
    let a = String::from_str(abbrev);
    if a == String::from_str("UGRD") || contains_str(name_lower, "u-component") {
        Component::U
    } else if a == String::from_str("VGRD") || contains_str(name_lower, "v-component") {
        Component::V
    } else {
        Component::Other
    }
}

} // verus!
