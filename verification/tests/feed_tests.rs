use std::io::Cursor;

use coolviz::himawari::{
    cache_meta, cloud_label, is_new_image, parse_latest, read_cache, read_cache_meta, tile_url, CloudImage,
    HimawariError,
};
use coolviz::rain::{
    composite_tile, composite_tile_checked, level_of, parse_basetime, rain_label, tile_fits_check, tile_origin, RainError,
};
use coolviz::text::contains_str;
use coolviz::wind::{
    candidate_key, classify_message, Component, check_grib, cycle_candidates, cycle_candidates_at, cycle_candidates_from_clock, cycle_label, cycle_url,
    grid_dims, pending_keys, synthetic, WindError,
};
use coolviz::source::Source;
use coolviz::clock::{TS_MAX, TS_MIN};
use chrono::{DateTime, Datelike, Utc};

fn png_rgb(w: u32, h: u32, f: impl Fn(u32, u32) -> [u8; 3]) -> Vec<u8> {
    let img = image::RgbImage::from_fn(w, h, |x, y| image::Rgb(f(x, y)));
    let mut out = Cursor::new(Vec::new());
    img.write_to(&mut out, image::ImageFormat::Png).unwrap();
    out.into_inner()
}

fn png_rgba(w: u32, h: u32, f: impl Fn(u32, u32) -> [u8; 4]) -> Vec<u8> {
    let img = image::RgbaImage::from_fn(w, h, |x, y| image::Rgba(f(x, y)));
    let mut out = Cursor::new(Vec::new());
    img.write_to(&mut out, image::ImageFormat::Png).unwrap();
    out.into_inner()
}

#[test]
fn latest_timestamp_parsing() {
    assert_eq!(parse_latest(br#"{"date":"2026-07-05 05:40:00","file":"x"}"#).unwrap(), "2026-07-05 05:40:00");
    assert_eq!(parse_latest(b"{"), Err(HimawariError::BadJson));
    assert_eq!(parse_latest(br#"{"file":"x"}"#), Err(HimawariError::NoDate));
    assert_eq!(parse_latest(br#"{"date":7}"#), Err(HimawariError::NoDate));
    assert_eq!(parse_latest(br#"{"date":"2026-07-05 05:40"}"#), Err(HimawariError::ShortStamp));
}

#[test]
fn himawari_tile_urls_and_label() {
    let ts = "2026-07-05 05:40:00";
    assert_eq!(
        tile_url(ts, 3, 1).unwrap(),
        "https://himawari8.nict.go.jp/img/D531106/4d/550/2026/07/05/054000_3_1.png"
    );
    assert_eq!(tile_url("2026/07/05 05:40:00", 0, 0), Err(HimawariError::BadDate));
    assert_eq!(tile_url("2026_07-05 05:40:00", 0, 0), Err(HimawariError::BadDate));
    assert_eq!(cloud_label(ts), "Himawari-9 05:40 UTC");
    assert!(is_new_image(ts, ""));
    assert!(!is_new_image(ts, ts));
}

#[test]
fn himawari_cache_record_round_trip() {
    let meta = cache_meta("2026-07-05 05:40:00", "Himawari-9 05:40 UTC");
    assert_eq!(meta, "2026-07-05 05:40:00\nHimawari-9 05:40 UTC");
    let (ts, label) = read_cache_meta(&meta).unwrap();
    assert_eq!(ts, "2026-07-05 05:40:00");
    assert_eq!(label, "Himawari-9 05:40 UTC (cache)");
    assert_eq!(read_cache_meta(""), None);
    assert_eq!(read_cache_meta("ts\r\n"), Some(("ts".to_string(), "Himawari-9 (cache)".to_string())));
    assert_eq!(read_cache_meta("ts\r"), Some(("ts\r".to_string(), "Himawari-9 (cache)".to_string())));
    assert_eq!(read_cache_meta("a\nb\r\nc"), Some(("a".to_string(), "b (cache)".to_string())));
    for m in ["a\nb", "x", "\n\n", "a\r\nb\n", "é\nç"] {
        let mut lines = m.lines();
        let t = lines.next().unwrap().to_string();
        let l = format!("{} (cache)", lines.next().unwrap_or("Himawari-9"));
        assert_eq!(read_cache_meta(m), Some((t, l)));
    }
}

#[test]
fn himawari_mosaic_tiles() {
    let mut img = CloudImage::blank("L".to_string());
    assert_eq!((img.w, img.h), (2200, 2200));
    let tile = png_rgb(550, 550, |x, y| [x as u8, y as u8, 7]);
    img.add_tile(&tile, 1, 2).unwrap();
    let px = |x: usize, y: usize| {
        let o = (y * 2200 + x) * 4;
        [img.rgba[o], img.rgba[o + 1], img.rgba[o + 2], img.rgba[o + 3]]
    };
    assert_eq!(px(550, 1100), [0, 0, 7, 255]);
    assert_eq!(px(550 + 10, 1100 + 20), [10, 20, 7, 255]);
    assert_eq!(px(549, 1100), [0, 0, 0, 0]);
    assert_eq!(px(1100, 1100), [0, 0, 0, 0]);
    let small = png_rgb(10, 10, |_, _| [1, 2, 3]);
    let before = img.rgba.clone();
    assert_eq!(img.add_tile(&small, 0, 0), Err(HimawariError::BadTileSize));
    assert_eq!(img.add_tile(b"junk", 0, 0), Err(HimawariError::BadTile));
    assert_eq!(img.rgba, before);
}

#[test]
fn rain_palette_levels() {
    assert_eq!(level_of([242, 242, 255, 255]), 1);
    assert_eq!(level_of([160, 210, 255, 255]), 2);
    assert_eq!(level_of([33, 140, 255, 255]), 3);
    assert_eq!(level_of([0, 65, 255, 255]), 4);
    assert_eq!(level_of([250, 245, 0, 255]), 5);
    assert_eq!(level_of([255, 153, 0, 255]), 6);
    assert_eq!(level_of([255, 40, 0, 255]), 7);
    assert_eq!(level_of([180, 0, 104, 255]), 8);
    assert_eq!(level_of([180, 0, 104, 39]), 0);
    assert_eq!(level_of([1, 2, 3, 40]), 1);
}

#[test]
fn rain_composite() {
    let mut levels = vec![0u8; 768 * 768];
    let mut max = 0u8;
    let tile = png_rgba(256, 256, |x, y| if x == 5 && y == 6 { [180, 0, 104, 255] } else if x == 0 { [33, 140, 255, 255] } else { [0, 0, 0, 0] });
    assert!(tile_fits_check(&tile, 2, 1));
    composite_tile(&mut levels, &mut max, &tile, 2, 1);
    assert_eq!(max, 8);
    assert_eq!(levels[(256 + 6) * 768 + 512 + 5], 8);
    assert_eq!(levels[(256 + 9) * 768 + 512], 3);
    assert_eq!(levels[(256 + 9) * 768 + 513], 0);
    assert_eq!(levels.iter().filter(|&&l| l > 0).count(), 257);
    // A tile that does not decode is dry.
    composite_tile(&mut levels, &mut max, b"404", 0, 0);
    assert_eq!(max, 8);
    // An oversized wet tile in the last column would paint outside the composite.
    let wide = png_rgba(300, 256, |_, _| [0, 65, 255, 255]);
    assert!(!tile_fits_check(&wide, 2, 2));
    assert!(tile_fits_check(b"404", 2, 2));
}

#[test]
fn rain_requests_and_label() {
    assert_eq!(parse_basetime(br#"[{"basetime":"20260705054000","validtime":"x"}]"#).unwrap(), "20260705054000");
    assert_eq!(parse_basetime(b"nope"), Err(RainError::BadJson));
    assert_eq!(parse_basetime(br#"[]"#), Err(RainError::NoBasetime));
    assert_eq!(parse_basetime(br#"{"0":{"basetime":"x"}}"#), Err(RainError::NoBasetime));
    assert_eq!(tile_origin(3638, 1612), (3637, 1611));
    assert_eq!(
        coolviz::rain::tile_url("20260705054000", 3637, 1611),
        "https://www.jma.go.jp/bosai/jmatile/data/nowc/20260705054000/none/20260705054000/surf/hrpns/12/3637/1611.png"
    );
    assert_eq!(rain_label("20260705054000", 3), "JMA nowcast 05:40 · max lv3");
}

#[test]
fn wind_cycle_bookkeeping() {
    assert_eq!(grid_dims(Some(1_038_240), Some(1_038_240)), Ok((1440, 721)));
    assert_eq!(grid_dims(Some(259_920), Some(259_920)), Ok((720, 361)));
    assert_eq!(grid_dims(Some(5), Some(5)), Err(WindError::UnexpectedSize(5)));
    assert_eq!(grid_dims(Some(5), Some(6)), Err(WindError::SizeMismatch));
    assert_eq!(grid_dims(None, Some(6)), Err(WindError::NoU));
    assert_eq!(grid_dims(Some(6), None), Err(WindError::NoV));
    assert_eq!(cycle_label("2026070506"), "GFS 2026-07-05 06Z");
    assert_eq!(cycle_label("short"), "GFS short");
    assert_eq!(cycle_label(""), "GFS ");
    assert_eq!(
        cycle_url("20260705", "06"),
        "https://nomads.ncep.noaa.gov/cgi-bin/filter_gfs_0p25.pl?dir=%2Fgfs.20260705%2F06%2Fatmos&file=gfs.t06z.pgrb2.0p25.f000&var_UGRD=on&var_VGRD=on&lev_10_m_above_ground=on"
    );
    let mut grib = vec![0u8; 100_001];
    grib[..4].copy_from_slice(b"GRIB");
    assert_eq!(check_grib(&grib), Ok(()));
    assert_eq!(check_grib(&grib[..100_000]), Err(WindError::NotGrib(100_000)));
    grib[0] = b'X';
    assert_eq!(check_grib(&grib), Err(WindError::NotGrib(100_001)));
}

#[test]
fn wind_candidates() {
    // 2026-07-05 05:40:00 UTC.
    let now = 1_783_230_000i64;
    let c = cycle_candidates_at(now).unwrap();
    // minus 3h35m = 02:05 -> cycle 00; then 20:05 the day before -> 18; then 14:05 -> 12.
    let expect: Vec<(String, String)> = vec![
        ("20260705".into(), "00".into()),
        ("20260704".into(), "18".into()),
        ("20260704".into(), "12".into()),
    ];
    assert_eq!(c, expect);
    assert_eq!(cycle_candidates_at(i64::MIN), None);
    assert_eq!(cycle_candidates().map(|v| v.len()), Some(3));
    let keys: Vec<String> = c.iter().map(|(d, h)| candidate_key(d, h)).collect();
    assert_eq!(keys[0], "2026070500");
    assert_eq!(pending_keys(&keys, "2026070418"), vec!["2026070500".to_string()]);
    assert_eq!(pending_keys(&keys, "2026070500"), Vec::<String>::new());
    assert_eq!(pending_keys(&keys, "old"), keys);
}

#[test]
fn synthetic_grid_shape() {
    let g = synthetic(vec![[1, 2]; 720 * 361]);
    assert_eq!((g.w, g.h), (720, 361));
    assert_eq!(g.data.len(), 720 * 361);
    assert_eq!(g.label, "procedural (offline)");
    assert_eq!(g.source, Source::Synthetic);
    assert!(g.cycle_key.is_empty());
}

#[test]
fn grib_message_classes() {
    assert_eq!(classify_message("UGRD", ""), Component::U);
    assert_eq!(classify_message("", "10 metre u-component of wind"), Component::U);
    assert_eq!(classify_message("VGRD", "u-component"), Component::U);
    assert_eq!(classify_message("VGRD", ""), Component::V);
    assert_eq!(classify_message("x", "v-component of wind"), Component::V);
    assert_eq!(classify_message("TMP", "temperature"), Component::Other);
    assert!(contains_str("abc", ""));
    assert!(contains_str("abc", "bc"));
    assert!(!contains_str("ab", "abc"));
    assert!(!contains_str("abc", "ac"));
}

#[test]
fn checked_composite_refuses_tiles_that_overflow() {
    let mut levels = vec![0u8; 768 * 768];
    let mut max = 0u8;
    let wide = png_rgba(300, 256, |_, _| [0, 65, 255, 255]);
    assert!(!composite_tile_checked(&mut levels, &mut max, &wide, 2, 2));
    assert_eq!(max, 0);
    assert!(levels.iter().all(|&l| l == 0));
    let tile = png_rgba(256, 256, |x, y| if x == 1 && y == 2 { [180, 0, 104, 255] } else { [0, 0, 0, 0] });
    assert!(composite_tile_checked(&mut levels, &mut max, &tile, 1, 0));
    assert_eq!(max, 8);
    assert_eq!(levels[2 * 768 + 256 + 1], 8);
    assert!(composite_tile_checked(&mut levels, &mut max, b"404", 0, 0));
    assert_eq!(max, 8);
}

#[test]
fn calendar_range_matches_chrono() {
    assert_eq!(DateTime::<Utc>::MIN_UTC.timestamp(), TS_MIN);
    assert_eq!(DateTime::<Utc>::MAX_UTC.timestamp(), TS_MAX);
    assert!(DateTime::from_timestamp(TS_MIN, 0).is_some());
    assert!(DateTime::from_timestamp(TS_MIN - 1, 0).is_none());
    assert!(DateTime::from_timestamp(TS_MAX, 0).is_some());
    assert!(DateTime::from_timestamp(TS_MAX + 1, 0).is_none());
    assert!(cycle_candidates_at(TS_MIN + 56_100).is_some());
    assert!(cycle_candidates_at(TS_MIN + 56_099).is_none());
    assert!(cycle_candidates_at(TS_MAX).is_some());
    let now = cycle_candidates().expect("three candidates");
    assert_eq!(now.len(), 3);
}

#[test]
fn cached_mosaic_decodes_as_saved() {
    let png = png_rgba(3, 2, |x, y| [x as u8, y as u8, 7, 200]);
    let img = CloudImage::from_png(&png, "Himawari-9 05:40 UTC (cache)".to_string()).unwrap();
    assert_eq!((img.w, img.h), (3, 2));
    assert_eq!(&img.rgba[..8], &[0, 0, 7, 200, 1, 0, 7, 200]);
    assert_eq!(img.label, "Himawari-9 05:40 UTC (cache)");
    assert!(CloudImage::from_png(b"not a png", String::new()).is_none());
}

#[test]
fn candidates_from_clock_readings() {
    assert!(cycle_candidates_from_clock(None).is_none());
    assert!(cycle_candidates_from_clock(Some(TS_MAX as u64 + 1)).is_none());
    let c = cycle_candidates_from_clock(Some(0)).unwrap();
    let expect = [("19691231", "18"), ("19691231", "12"), ("19691231", "06")];
    for (got, want) in c.iter().zip(expect) {
        assert_eq!((got.0.as_str(), got.1.as_str()), want);
    }
    assert_eq!(cycle_candidates_from_clock(Some(1_700_000_000)), cycle_candidates_at(1_700_000_000));
}

#[test]
fn mosaic_cache_round_trip() {
    let mut img = CloudImage::blank("Himawari-9 05:40 UTC".to_string());
    img.rgba[4 * 2200 * 3 + 4 * 7] = 200;
    img.rgba[4 * 2200 * 3 + 4 * 7 + 3] = 255;
    let (png, meta) = img.write_cache("2026-07-05 05:40:00").unwrap();
    assert_eq!(meta, "2026-07-05 05:40:00\nHimawari-9 05:40 UTC");
    let (back, ts) = read_cache(&meta, &png).unwrap();
    assert_eq!(ts, "2026-07-05 05:40:00");
    assert_eq!((back.w, back.h), (2200, 2200));
    assert!(back.rgba == img.rgba);
    assert_eq!(back.label, "Himawari-9 05:40 UTC (cache)");
    assert!(read_cache("", &png).is_none());
    assert!(read_cache(&meta, b"broken").is_none());
}

#[test]
fn wettest_level_is_the_composite_maximum() {
    let mut levels = vec![0u8; 768 * 768];
    let mut max = 0u8;
    let a = png_rgba(256, 256, |x, y| if x == 10 && y == 20 { [0, 65, 255, 255] } else { [0, 0, 0, 0] });
    let b = png_rgba(256, 256, |x, _| if x < 3 { [33, 140, 255, 255] } else { [0, 0, 0, 0] });
    for (png, tx, ty) in [(&a, 0u32, 0u32), (&b, 2, 1), (&a, 1, 2)] {
        assert!(composite_tile_checked(&mut levels, &mut max, png, tx, ty));
        assert_eq!(max, *levels.iter().max().unwrap());
    }
    assert!(max > 0);
}

/// The calendar formula the library states for chrono's dates, written out
/// with Euclidean division as in the specification.
fn civil_from_days(days: i64) -> (i64, i64, i64) {
    let z = days + 719468;
    let era = z.div_euclid(146097);
    let doe = z.rem_euclid(146097);
    let yoe = (doe - doe / 1460 + doe / 36524 - doe / 146096) / 365;
    let doy = doe - (365 * yoe + yoe / 4 - yoe / 100);
    let mp = (5 * doy + 2) / 153;
    let d = doy - (153 * mp + 2) / 5 + 1;
    let m = if mp < 10 { mp + 3 } else { mp - 9 };
    (yoe + era * 400 + if m <= 2 { 1 } else { 0 }, m, d)
}

#[test]
fn calendar_formula_matches_chrono() {
    let lo = TS_MIN.div_euclid(86400);
    let hi = TS_MAX.div_euclid(86400);
    let mut days: Vec<i64> = (lo..lo + 800).chain(hi - 800..=hi).chain(-200_000..200_000).collect();
    let mut d = lo;
    while d <= hi {
        days.push(d);
        d += 9973;
    }
    for day in days {
        let t = DateTime::from_timestamp(day * 86400, 0).unwrap();
        assert_eq!(civil_from_days(day), (t.year() as i64, t.month() as i64, t.day() as i64), "day {day}");
    }
}
