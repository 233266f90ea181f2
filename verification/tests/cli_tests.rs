use coolviz::cli::{demo_from_arg, parse_size, parse_u32, parse_u32_str, shot_total_frames};
use coolviz::scene::SceneMode;

#[test]
fn cli_values_are_clamped_and_nan_rejected() {
    // The integer cases; the floating-point options (NaN rejection, float
    // clamping) are parsed by the executable, not by this library.
    assert_eq!(parse_u32(Some("9999999"), 240, 1, 20_000), 20_000);
    assert_eq!(parse_u32(None, 7, 1, 10), 7);
}

#[test]
fn u32_option_falls_back_on_non_numbers() {
    assert_eq!(parse_u32(Some("abc"), 7, 1, 10), 7);
    assert_eq!(parse_u32(Some("NaN"), 3, 1, 40), 3);
}

#[test]
fn shot_frame_totals() {
    assert_eq!(shot_total_frames(240, 150, true), 390);
    assert_eq!(shot_total_frames(240, 150, false), 240);
}

#[test]
fn u32_parsing_follows_str_parse() {
    for s in ["0", "+5", "4294967295", "4294967296", "", "+", "-1", "12a", " 1", "007", "١"] {
        assert_eq!(parse_u32_str(s), s.parse::<u32>().ok(), "input {s:?}");
    }
}

#[test]
fn u32_clamps_both_ways() {
    assert_eq!(parse_u32(Some("0"), 9, 1, 10), 1);
    assert_eq!(parse_u32(Some("5"), 9, 1, 10), 5);
    assert_eq!(parse_u32(Some("11"), 9, 1, 10), 10);
}

#[test]
fn size_option() {
    assert_eq!(parse_size(Some("1920x1080"), (1, 2)), (1920, 1080));
    assert_eq!(parse_size(Some("8x99999"), (1, 2)), (16, 4096));
    assert_eq!(parse_size(Some("1920"), (1, 2)), (1, 2));
    assert_eq!(parse_size(Some("ax5"), (1, 2)), (1, 2));
    assert_eq!(parse_size(Some("20x30x40"), (1, 2)), (1, 2));
    assert_eq!(parse_size(None, (3, 4)), (3, 4));
}

#[test]
fn mode_and_demo_options() {
    assert_eq!(SceneMode::from_arg(Some("tokyo")), SceneMode::Tokyo);
    assert_eq!(SceneMode::from_arg(Some("okinawa")), SceneMode::Okinawa);
    assert_eq!(SceneMode::from_arg(Some("Tokyo")), SceneMode::Earth);
    assert_eq!(SceneMode::from_arg(None), SceneMode::Earth);
    assert!(!demo_from_arg(Some("0")));
    assert!(demo_from_arg(Some("1")));
    assert!(demo_from_arg(Some("00")));
    assert!(demo_from_arg(None));
}
