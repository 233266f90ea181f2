use std::io::Write;

use coolviz::catalog::{catalog_plan, live_catalog_ok, step_source_of, CatalogStep};
use coolviz::city::{cache_name, city_label, content_url, ground_percentile_index, TILESET_URL};
use coolviz::coast::{close_strip, RESTART};
use coolviz::gz::{decompress_gz, GzError};
use coolviz::hash::{building_hash24, hash24_u32, hash24_u64, lamp_hash_step};
use coolviz::landmask::{fill_polar_rows, fill_span};
use coolviz::paths::{asset_path, cache_files, cache_path, join};
use coolviz::roads::{class_of, overpass_url, push_quad, urlencode};
use coolviz::source::Source;
use coolviz::terrain::{decode_elev_cm, decode_tile_cm};

#[test]
fn source_tags() {
    assert_eq!(Source::Live.tag(), "LIVE");
    assert_eq!(Source::Cache.tag(), "CACHE");
    assert_eq!(Source::Snapshot.tag(), "SNAPSHOT");
    assert_eq!(Source::Synthetic.tag(), "SYNTHETIC");
    let all = [Source::Live, Source::Cache, Source::Snapshot, Source::Synthetic];
    for a in all {
        for b in all {
            assert_eq!(a == b, a.tag() == b.tag());
        }
    }
}

#[test]
fn paths_join_like_pathbuf() {
    assert_eq!(asset_path("/srv/coolviz", "ne_110m_land.geojson.gz"), "/srv/coolviz/assets/ne_110m_land.geojson.gz");
    assert_eq!(cache_path("/srv/coolviz/", "x.json"), "/srv/coolviz/.cache/x.json");
    assert_eq!(join("", "a"), "a");
    assert_eq!(join("/a", "/b"), "/b");
    let (png, txt) = cache_files("/r");
    assert_eq!(png, "/r/.cache/himawari.png");
    assert_eq!(txt, "/r/.cache/himawari.txt");
    for (base, part) in [("/a/b", "c"), ("/a/b/", "c"), ("", "c"), ("/a", "/c")] {
        let expect = std::path::PathBuf::from(base).join(part);
        assert_eq!(join(base, part), expect.to_str().unwrap());
    }
}

#[test]
fn gzip_round_trip_and_error() {
    let mut enc = flate2::write::GzEncoder::new(Vec::new(), flate2::Compression::default());
    enc.write_all(b"hello, earth").unwrap();
    let gz = enc.finish().unwrap();
    assert_eq!(decompress_gz(&gz).unwrap(), b"hello, earth".to_vec());
    assert_eq!(decompress_gz(b"not gzip"), Err(GzError));
}

#[test]
fn hashes_match_reference_formulas() {
    fn h32(x: u32) -> u32 {
        let mut h = x.wrapping_mul(0x9E3779B9);
        h ^= h >> 16;
        h = h.wrapping_mul(0x85EBCA6B);
        h ^= h >> 13;
        h & 0xFFFFFF
    }
    for x in [0u32, 1, 2, 12345, u32::MAX] {
        assert_eq!(hash24_u32(x), h32(x));
        assert_eq!(building_hash24(x, 7), h32(x ^ 7u32.rotate_left(9)));
    }
    assert_eq!(hash24_u32(0), 0);
    assert!(hash24_u64(25544) < 0x100_0000);
    assert_ne!(hash24_u64(25544), hash24_u64(25545));
    let (s, bits) = lamp_hash_step(0x9E37);
    assert_eq!(s, 0x9E37u32.wrapping_mul(747796405).wrapping_add(2891336453));
    assert_eq!(bits, s >> 9);
}

#[test]
fn road_classes_and_query() {
    assert_eq!(class_of("motorway"), (0, 150));
    assert_eq!(class_of("trunk_link"), (1, 75));
    assert_eq!(class_of("motorway_link"), (1, 75));
    assert_eq!(class_of("trunk"), (1, 130));
    assert_eq!(class_of("primary"), (2, 110));
    assert_eq!(class_of("secondary"), (3, 90));
    assert_eq!(class_of("tertiary"), (4, 70));
    assert_eq!(class_of("residential"), (5, 55));
    assert_eq!(class_of(""), (5, 55));
    assert_eq!(urlencode("a b/~Z"), "a%20b%2F~Z");
    assert_eq!(urlencode("é"), "%C3%A9");
    assert_eq!(urlencode(""), "");
    let url = overpass_url();
    assert!(url.starts_with("https://overpass-api.de/api/interpreter?data=%5Bout%3Ajson%5D"));
    let mut idx = vec![9];
    push_quad(&mut idx, 4);
    assert_eq!(idx, vec![9, 4, 5, 6, 6, 5, 7]);
}

#[test]
fn elevation_decoding() {
    assert_eq!(decode_elev_cm([0x80, 0, 0]), None);
    assert_eq!(decode_elev_cm([0, 0, 0]), Some(0));
    assert_eq!(decode_elev_cm([0, 0x0B, 0xB8]), Some(3000));
    assert_eq!(decode_elev_cm([0xFF, 0xFF, 0xFF]), Some(-1));
    assert_eq!(decode_elev_cm([0x7F, 0xFF, 0xFF]), Some(8_388_607));
    assert_eq!(decode_elev_cm([0x80, 0, 1]), Some(-8_388_607));
}

#[test]
fn coast_strips() {
    let mut idx = Vec::new();
    assert!(!close_strip(&mut idx, 3, 4));
    assert!(idx.is_empty());
    assert!(close_strip(&mut idx, 3, 6));
    assert_eq!(idx, vec![3, 4, 5, RESTART]);
}

#[test]
fn land_spans_and_polar_cap() {
    let mut mask = vec![0u8; 8 * 4];
    fill_span(&mut mask, 8, -3, 2, 8);
    fill_span(&mut mask, 16, 6, 100, 8);
    fill_span(&mut mask, 0, 5, 3, 8);
    assert_eq!(&mask[8..16], &[255, 255, 0, 0, 0, 0, 0, 0]);
    assert_eq!(&mask[16..24], &[0, 0, 0, 0, 0, 0, 255, 255]);
    assert!(mask[0..8].iter().all(|&m| m == 0));
    // Row 3 has 3 of 8 land cells (> 8/4): filled; row 2 has 2 (not > 2): kept.
    mask[24] = 1;
    mask[25] = 1;
    mask[26] = 1;
    fill_polar_rows(&mut mask, 8, 4, 2);
    assert_eq!(&mask[16..24], &[0, 0, 0, 0, 0, 0, 255, 255]);
    assert!(mask[24..32].iter().all(|&m| m == 255));
    assert_eq!(&mask[8..16], &[255, 255, 0, 0, 0, 0, 0, 0]);
}

#[test]
fn city_naming() {
    assert_eq!(
        content_url(TILESET_URL, "data/a.b3dm"),
        "https://plateau.geospatial.jp/main/data/3d-tiles/bldg/13100_tokyo/13101_chiyoda-ku/notexture/data/a.b3dm"
    );
    assert_eq!(content_url("noslash", "x"), "/x");
    assert_eq!(cache_name("data/a/b.b3dm"), "data_a_b.b3dm");
    assert_eq!(city_label(12, 0, 123_456), "PLATEAU 千代田区 LOD1 · 12 tiles · 41k tris");
    assert_eq!(city_label(12, 2, 2999), "PLATEAU 千代田区 LOD1 · 10 tiles · 0k tris (2 failed)");
    assert_eq!(ground_percentile_index(100), 3);
    assert_eq!(ground_percentile_index(1), 0);
}

#[test]
fn catalog_order() {
    assert_eq!(catalog_plan(true, false, true), vec![CatalogStep::Cache, CatalogStep::Snapshot]);
    assert_eq!(
        catalog_plan(false, false, false),
        vec![CatalogStep::Live, CatalogStep::StaleCache, CatalogStep::Snapshot]
    );
    assert_eq!(
        catalog_plan(false, true, true),
        vec![
            CatalogStep::Cache,
            CatalogStep::FreshSnapshot,
            CatalogStep::Live,
            CatalogStep::StaleCache,
            CatalogStep::Snapshot
        ]
    );
    assert_eq!(step_source_of(CatalogStep::StaleCache), Source::Cache);
    assert_eq!(step_source_of(CatalogStep::FreshSnapshot), Source::Snapshot);
    assert_eq!(step_source_of(CatalogStep::Live), Source::Live);
    assert!(!live_catalog_ok(100_000));
    assert!(live_catalog_ok(100_001));
}

fn percent_decode(s: &str) -> Vec<u8> {
    let b = s.as_bytes();
    let mut out = Vec::new();
    let mut i = 0;
    while i < b.len() {
        if b[i] == b'%' {
            let hex = std::str::from_utf8(&b[i + 1..i + 3]).unwrap();
            assert!(hex.chars().all(|c| c.is_ascii_digit() || ('A'..='F').contains(&c)));
            out.push(u8::from_str_radix(hex, 16).unwrap());
            i += 3;
        } else {
            out.push(b[i]);
            i += 1;
        }
    }
    out
}

#[test]
fn urlencode_round_trips() {
    for s in ["", "a b/~Z", "東京 x=1&y", "[out:json];way(35.6,139.7);", "%%"] {
        let e = urlencode(s);
        assert_eq!(percent_decode(&e), s.as_bytes());
        let expect_len: usize = s
            .bytes()
            .map(|b| if b.is_ascii_alphanumeric() || b"-_.~".contains(&b) { 1 } else { 3 })
            .sum();
        assert_eq!(e.len(), expect_len);
    }
}

#[test]
fn elevation_tile_decoding() {
    let img = image::RgbImage::from_fn(3, 1, |x, _| match x {
        0 => image::Rgb([0, 0, 100]),
        1 => image::Rgb([128, 0, 0]),
        _ => image::Rgb([255, 255, 255]),
    });
    let mut out = std::io::Cursor::new(Vec::new());
    img.write_to(&mut out, image::ImageFormat::Png).unwrap();
    let (w, h, v) = decode_tile_cm(&out.into_inner()).unwrap();
    assert_eq!((w, h), (3, 1));
    assert_eq!(v, vec![Some(100), None, Some(-1)]);
    assert!(decode_tile_cm(b"nope").is_none());
}
