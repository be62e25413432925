use ytm_bridge::discord::presence_update;
use ytm_bridge::lyrics::{genius_query, FetchLyricsArgs, LyricsSource};
use ytm_bridge::playback::{PlayState, PlaybackState};
use ytm_bridge::settings::{
    default_true, AdvancedSettings, AppSettings, AppearanceSettings, DiscordSettings,
    GeneralSettings, PlaybackSettings, PluginSettings,
};

fn playing(title: &str, artist: &str, progress: u64, duration: u64) -> PlaybackState {
    PlaybackState {
        title: title.to_string(),
        artist: artist.to_string(),
        album: String::new(),
        state: PlayState::Playing,
        progress,
        duration,
    }
}

#[test]
fn presence_for_playing_track_has_timestamps() {
    let p = presence_update(true, false, "123", &playing("T", "A", 40, 200), 1000).unwrap();
    assert_eq!(p.details, "T");
    assert_eq!(p.state, "A");
    assert_eq!(p.timestamps, Some((1000, 1160)));
}

#[test]
fn presence_for_paused_track_has_no_timestamps() {
    let mut s = playing("T", "", 40, 200);
    s.state = PlayState::Paused;
    let p = presence_update(true, false, "123", &s, 1000).unwrap();
    assert_eq!(p.timestamps, None);
    let p = presence_update(true, false, "123", &playing("T", "A", 0, 0), 1000).unwrap();
    assert_eq!(p.timestamps, None);
}

#[test]
fn presence_withheld() {
    let s = playing("T", "A", 1, 2);
    assert!(presence_update(false, false, "123", &s, 0).is_none());
    assert!(presence_update(true, true, "123", &s, 0).is_none());
    assert!(presence_update(true, false, "", &s, 0).is_none());
    assert!(presence_update(true, false, "REPLACE_ME", &s, 0).is_none());
    assert!(presence_update(true, false, "12a", &s, 0).is_none());
    assert!(presence_update(true, false, "123", &playing("", "", 1, 2), 0).is_none());
}

#[test]
fn lyrics_sources_by_name() {
    assert_eq!(LyricsSource::from_name("lrclib"), Some(LyricsSource::Lrclib));
    assert_eq!(LyricsSource::from_name("lyricsovh"), Some(LyricsSource::LyricsOvh));
    assert_eq!(LyricsSource::from_name("genius"), Some(LyricsSource::Genius));
    assert_eq!(LyricsSource::from_name("other"), None);
    let args = FetchLyricsArgs {
        source: "genius".to_string(),
        title: "T".to_string(),
        artist: String::new(),
        duration: 0,
    };
    assert_eq!(LyricsSource::from_name(&args.source), Some(LyricsSource::Genius));
}

#[test]
fn genius_query_joins_artist_and_title() {
    assert_eq!(genius_query("Song", ""), "Song");
    assert_eq!(genius_query("Song", "Band"), "Band Song");
}

#[test]
fn settings_defaults() {
    let s = AppSettings::default();
    assert!(!s.general.start_minimized && s.general.minimize_to_tray);
    assert_eq!(s.general.language, "en-GB");
    assert_eq!(s.appearance.theme, "system");
    assert_eq!(s.appearance.accent_color, "#ff0000");
    assert_eq!(s.playback.default_quality, "auto");
    assert!(s.playback.gapless);
    assert!(s.discord.enabled && !s.discord.hide_listening);
    assert_eq!(s.discord.client_id, "1234567890123456789");
    assert_eq!(s.plugins.enabled_plugins, vec!["lyrics", "fine-volume-control"]);
    assert_eq!(s.advanced.cache_size_mb, 500);
    assert!(default_true());
}

#[test]
fn read_back_forces_language_and_fills_defaults() {
    let mut g = GeneralSettings::default();
    g.language = "fr-FR".to_string();
    g.start_minimized = true;
    let mut adv = AdvancedSettings::default();
    adv.custom_css = "body{}".to_string();
    let s = AppSettings::from_sections(
        Some(g),
        None::<AppearanceSettings>,
        None::<PlaybackSettings>,
        Some(DiscordSettings { enabled: false, ..DiscordSettings::default() }),
        Some(PluginSettings { enabled_plugins: vec![] }),
        Some(adv),
    );
    assert_eq!(s.general.language, "en-GB");
    assert!(s.general.start_minimized);
    assert_eq!(s.appearance.font_size, "medium");
    assert!(!s.discord.enabled);
    assert!(s.plugins.enabled_plugins.is_empty());
    assert_eq!(s.advanced.custom_css, "body{}");
}
