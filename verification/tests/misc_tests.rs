use peruse_tui::browser::{ago, ago_of_seconds};
use peruse_tui::cli::{parse_delimiter, DelimiterError};
use peruse_tui::clip::{base64, clipboard_sequence, MAX_BYTES};
use peruse_tui::colors::{conv, to_256, Depth, Rgb, TermColor};
use peruse_tui::paint::Paint;
use std::time::{Duration, SystemTime};

fn rgb(hex: u32) -> Rgb {
    Rgb {
        r: (hex >> 16) as u8,
        g: (hex >> 8) as u8,
        b: hex as u8,
    }
}

#[test]
fn base64_matches_rfc4648_including_padding() {
    assert_eq!(base64(b""), "");
    assert_eq!(base64(b"f"), "Zg==");
    assert_eq!(base64(b"fo"), "Zm8=");
    assert_eq!(base64(b"foo"), "Zm9v");
    assert_eq!(base64(b"foob"), "Zm9vYg==");
    assert_eq!(base64(b"fooba"), "Zm9vYmE=");
    assert_eq!(base64(b"foobar"), "Zm9vYmFy");
}

#[test]
fn base64_handles_high_bytes() {
    assert_eq!(base64(&[0xff, 0xfe, 0xfd]), "//79");
    assert_eq!(base64("日本".as_bytes()), "5pel5pys");
}

#[test]
fn oversized_payloads_are_refused_rather_than_truncated() {
    let big = "x".repeat(MAX_BYTES + 1);
    let err = clipboard_sequence(&big).unwrap_err();
    assert!(err.message().contains("too large"), "got {}", err.message());
    assert_eq!(err.message(), "value is 96 KB — too large for the terminal clipboard");
}

#[test]
fn the_clipboard_sequence_frames_the_base64_form() {
    assert_eq!(clipboard_sequence("foo").unwrap(), "\x1b]52;c;Zm9v\x07");
    assert_eq!(clipboard_sequence("").unwrap(), "\x1b]52;c;\x07");
}

#[test]
fn a_time_becomes_a_few_characters() {
    let now = SystemTime::now();
    assert_eq!(ago(now), "just now");
    assert_eq!(ago(now - Duration::from_secs(120)), "2m ago");
    assert_eq!(ago(now - Duration::from_secs(7200)), "2h ago");
    assert_eq!(ago(now - Duration::from_secs(172800)), "2d ago");
    assert_eq!(ago(now + Duration::from_secs(60)), "");
}

#[test]
fn each_unit_of_time_has_its_text() {
    assert_eq!(ago_of_seconds(None), "");
    assert_eq!(ago_of_seconds(Some(59)), "just now");
    assert_eq!(ago_of_seconds(Some(60)), "1m ago");
    assert_eq!(ago_of_seconds(Some(3599)), "59m ago");
    assert_eq!(ago_of_seconds(Some(86399)), "23h ago");
    assert_eq!(ago_of_seconds(Some(2591999)), "29d ago");
    assert_eq!(ago_of_seconds(Some(2592000 * 14)), "14mo ago");
}

#[test]
fn truecolor_passes_rgb_through() {
    assert_eq!(conv(rgb(0x123456), Depth::True), TermColor::Rgb(0x12, 0x34, 0x56));
    assert_eq!(Paint::new(Depth::True).color(rgb(0x123456)), TermColor::Rgb(0x12, 0x34, 0x56));
}

#[test]
fn greys_use_the_grey_ramp() {
    let c = to_256(rgb(0x808080));
    assert!((232..=255).contains(&c), "got {c}");
}

#[test]
fn pure_black_and_white_clamp_to_the_cube_ends() {
    assert_eq!(to_256(rgb(0x000000)), 16);
    assert_eq!(to_256(rgb(0xffffff)), 231);
}

#[test]
fn saturated_colours_use_the_colour_cube() {
    let red = to_256(rgb(0xff0000));
    assert_eq!(red, 196, "16 + 36*5");
    let green = to_256(rgb(0x00ff00));
    assert_eq!(green, 46, "16 + 6*5");
    for c in [red, green] {
        assert!((16..232).contains(&c));
    }
}

#[test]
fn quantisation_picks_the_nearest_cube_level_not_the_floor() {
    assert_eq!(to_256(rgb(0x600000)), to_256(rgb(0x5f0000)));
    assert_eq!(conv(rgb(0xff0000), Depth::Indexed256), TermColor::Indexed(196));
}

#[test]
fn the_environment_names_the_depth_of_the_terminal() {
    assert_eq!(Depth::of_terminal(Some("TrueColor"), false, None, true, false), Depth::True);
    assert_eq!(Depth::of_terminal(Some("24bit"), false, None, true, false), Depth::True);
    assert_eq!(Depth::of_terminal(None, true, None, true, false), Depth::True);
    assert_eq!(Depth::of_terminal(None, false, Some("xterm-direct"), true, false), Depth::True);
    assert_eq!(Depth::of_terminal(None, false, Some("xterm-256color"), true, false), Depth::Indexed256);
    assert_eq!(Depth::of_terminal(None, false, None, false, true), Depth::True);
    assert_eq!(Depth::of_terminal(None, false, None, false, false), Depth::Indexed256);
}

#[test]
fn the_delimiter_takes_a_name_or_one_character() {
    assert_eq!(parse_delimiter("tab"), Ok('\t'));
    assert_eq!(parse_delimiter("\\t"), Ok('\t'));
    assert_eq!(parse_delimiter("t"), Ok('\t'));
    assert_eq!(parse_delimiter("space"), Ok(' '));
    assert_eq!(parse_delimiter(";"), Ok(';'));
    assert_eq!(parse_delimiter("é"), Ok('é'));
    assert_eq!(parse_delimiter(""), Err(DelimiterError::Empty));
    assert_eq!(parse_delimiter(";;"), Err(DelimiterError::TooLong));
}

#[test]
fn base64_reads_back_and_pads_the_last_group() {
    assert_eq!(base64(b""), "");
    assert_eq!(base64(b"f"), "Zg==");
    assert_eq!(base64(b"fo"), "Zm8=");
    assert_eq!(base64(b"foo"), "Zm9v");
    assert_eq!(base64(b"foob"), "Zm9vYg==");
    assert_eq!(base64(&[0xff, 0xfe, 0xfd]), "//79");
}
