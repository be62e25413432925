use ytm_bridge::beacon::{beacon_payload, MAX_BEACON_CHARS};
use ytm_bridge::playback::{PlayState, PlaybackBridge, PlaybackState, POLL_SERVER_PORT};

fn sample(title: &str, progress: u64) -> PlaybackState {
    PlaybackState {
        title: title.to_string(),
        artist: "Artist".to_string(),
        album: String::new(),
        state: PlayState::Playing,
        progress,
        duration: 240,
    }
}

fn same(a: &PlaybackState, b: &PlaybackState) -> bool {
    a.title == b.title
        && a.artist == b.artist
        && a.album == b.album
        && a.state == b.state
        && a.progress == b.progress
        && a.duration == b.duration
}

#[test]
fn decoded_beacon_is_read_back_whole() {
    let mut bridge = PlaybackBridge::new();
    let s = sample("Song", 12);
    assert!(bridge.accept_beacon(Some(s.clone())));
    let got = bridge.get_last_playback().expect("a state was set");
    assert!(same(&got, &s));
}

#[test]
fn malformed_beacon_leaves_cell_unchanged() {
    let mut bridge = PlaybackBridge::new();
    assert!(!bridge.accept_beacon(None));
    assert!(bridge.get_last_playback().is_none());
    let s = sample("Song", 3);
    bridge.set_last_playback(s.clone());
    assert!(!bridge.accept_beacon(None));
    assert!(same(&bridge.get_last_playback().unwrap(), &s));
}

#[test]
fn last_of_many_beacons_wins() {
    let mut bridge = PlaybackBridge::new();
    for p in 0..100u64 {
        bridge.accept_beacon(Some(sample("Song", p)));
    }
    let got = bridge.get_last_playback().unwrap();
    assert_eq!(got.progress, 99);
    assert_eq!(got.title, "Song");
    assert_eq!(got.duration, 240);
}

#[test]
fn failed_bind_leaves_bridge_disabled_and_empty() {
    let mut bridge = PlaybackBridge::new();
    bridge.record_bind(false);
    assert_eq!(bridge.get_poll_port(), 0);
    assert!(bridge.get_last_playback().is_none());
}

#[test]
fn successful_bind_publishes_port() {
    let mut bridge = PlaybackBridge::new();
    bridge.record_bind(true);
    assert_eq!(bridge.get_poll_port(), POLL_SERVER_PORT);
    assert_eq!(POLL_SERVER_PORT, 38475);
}

#[test]
fn default_playback_state_is_paused_and_empty() {
    let d = PlaybackState::default();
    assert!(d.title.is_empty() && d.artist.is_empty() && d.album.is_empty());
    assert_eq!(d.state, PlayState::Paused);
    assert_eq!((d.progress, d.duration), (0, 0));
}

#[test]
fn beacon_payload_is_percent_decoded() {
    let url = "/playback?data=%7B%22title%22%3A%22A%20B%22%2C%22progress%22%3A5%7D";
    assert_eq!(
        beacon_payload(url).as_deref(),
        Some("{\"title\":\"A B\",\"progress\":5}")
    );
}

#[test]
fn beacon_payload_keeps_plus_and_stray_percent() {
    assert_eq!(beacon_payload("/playback?data=a+b%zz%4").as_deref(), Some("a+b%zz%4"));
}

#[test]
fn beacon_payload_decodes_utf8() {
    assert_eq!(beacon_payload("/playback?data=%C3%A9").as_deref(), Some("é"));
}

#[test]
fn beacon_payload_rejects_invalid_utf8() {
    assert_eq!(beacon_payload("/playback?data=%FF"), None);
}

#[test]
fn beacon_payload_ignores_other_paths() {
    assert_eq!(beacon_payload("/favicon.ico"), None);
    assert_eq!(beacon_payload("/playback?x=1"), None);
    assert_eq!(beacon_payload("/playback"), None);
    assert_eq!(beacon_payload(""), None);
}

#[test]
fn beacon_payload_may_be_empty() {
    assert_eq!(beacon_payload("/playback?data=").as_deref(), Some(""));
}

#[test]
fn beacon_payload_inverts_uri_component_encoding() {
    let json = "{\"title\":\"A & B + C = 100% #1 / é\",\"artist\":\"Ünïcode 'q' (x)\",\"album\":\"\",\"state\":\"playing\",\"progress\":5,\"duration\":9}";
    let url = "/playback?data=%7B%22title%22%3A%22A%20%26%20B%20%2B%20C%20%3D%20100%25%20%231%20%2F%20%C3%A9%22%2C%22artist%22%3A%22%C3%9Cn%C3%AFcode%20'q'%20(x)%22%2C%22album%22%3A%22%22%2C%22state%22%3A%22playing%22%2C%22progress%22%3A5%2C%22duration%22%3A9%7D";
    assert_eq!(beacon_payload(url).as_deref(), Some(json));
}

#[test]
fn beacon_payload_finds_data_among_other_parameters() {
    assert_eq!(beacon_payload("/playback?t=1&data=%7B%7D").as_deref(), Some("{}"));
    assert_eq!(beacon_payload("/playback?data=%7B%7D&t=1").as_deref(), Some("{}"));
    assert_eq!(beacon_payload("/playback?a=&data=x&data=y").as_deref(), Some("x"));
}

#[test]
fn beacon_payload_needs_a_data_parameter() {
    assert_eq!(beacon_payload("/playback?datax=1"), None);
    assert_eq!(beacon_payload("/playback?t=1&x=data="), None);
    assert_eq!(beacon_payload("/playback?"), None);
}

#[test]
fn beacon_payload_refuses_overlong_requests() {
    let fill = "a".repeat(MAX_BEACON_CHARS - "/playback?data=".len());
    let at_limit = format!("/playback?data={}", fill);
    assert_eq!(beacon_payload(&at_limit).as_deref(), Some(fill.as_str()));
    let over = format!("{}a", at_limit);
    assert_eq!(beacon_payload(&over), None);
}
