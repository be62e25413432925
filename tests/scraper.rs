use ytm_bridge::playback::PlayState;
use ytm_bridge::scripts::{
    decimal_string, get_settings_button_script, make_poll_script, make_settings_button_script,
    SETTINGS_BUTTON_SCRIPT,
};
use ytm_bridge::timecode::{parse_clock_time, parse_time_display};

#[test]
fn clock_with_hours() {
    assert_eq!(parse_clock_time("1:02:03"), Some(3723));
}

#[test]
fn clock_with_minutes() {
    assert_eq!(parse_clock_time("0:45"), Some(45));
    assert_eq!(parse_clock_time("3:05"), Some(185));
}

#[test]
fn clock_seconds_only_and_empty() {
    assert_eq!(parse_clock_time("59"), Some(59));
    assert_eq!(parse_clock_time(""), Some(0));
}

#[test]
fn clock_non_numeric_field_counts_zero() {
    assert_eq!(parse_clock_time("x:30"), Some(30));
    assert_eq!(parse_clock_time("2:"), Some(120));
}

#[test]
fn clock_too_large_is_none() {
    assert_eq!(parse_clock_time("99999999999999999999"), None);
    assert_eq!(parse_clock_time("1:0:0:0:0:0:0:0:0:0:0:0"), None);
    assert_eq!(parse_clock_time("18446744073709551615"), Some(u64::MAX));
}

#[test]
fn time_display_elapsed_and_total() {
    assert_eq!(parse_time_display("3:05 / 4:00"), Some((185, 240)));
}

#[test]
fn time_display_without_slash_is_zero() {
    assert_eq!(parse_time_display("3:05"), Some((0, 0)));
    assert_eq!(parse_time_display(""), Some((0, 0)));
}

#[test]
fn time_display_trims_and_ignores_extra_parts() {
    assert_eq!(parse_time_display("\t1:00:00 /  2:00:00 \n"), Some((3600, 7200)));
    assert_eq!(parse_time_display("0:10/0:20/0:30"), Some((10, 20)));
}

#[test]
fn pause_label_means_playing() {
    assert_eq!(PlayState::from_label("Pause"), PlayState::Playing);
    assert_eq!(PlayState::from_label("PAUSE"), PlayState::Playing);
    assert_eq!(PlayState::from_label("pAuSe video"), PlayState::Playing);
}

#[test]
fn other_label_means_paused() {
    assert_eq!(PlayState::from_label("Play"), PlayState::Paused);
    assert_eq!(PlayState::from_label(""), PlayState::Paused);
    assert_eq!(PlayState::from_label("paus"), PlayState::Paused);
}

#[test]
fn decimal_numerals() {
    assert_eq!(decimal_string(0), "0");
    assert_eq!(decimal_string(7), "7");
    assert_eq!(decimal_string(38475), "38475");
    assert_eq!(decimal_string(u64::MAX), "18446744073709551615");
}

#[test]
fn poll_script_targets_port() {
    let s = make_poll_script(38475);
    assert!(s.contains("img.src='http://127.0.0.1:38475/playback?data='+encodeURIComponent(json);"));
    assert!(s.contains("querySelector('ytmusic-player-bar')"));
    assert!(s.contains("if(title||artist)"));
    assert!(!s.contains("{{"));
}

#[test]
fn settings_button_script_is_fixed() {
    assert_eq!(get_settings_button_script(), SETTINGS_BUTTON_SCRIPT);
    assert_eq!(make_settings_button_script(), SETTINGS_BUTTON_SCRIPT);
    assert!(SETTINGS_BUTTON_SCRIPT.contains("ytm-settings-btn"));
}
