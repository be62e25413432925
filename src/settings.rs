//! The application's settings, one section per concern, with the defaults
//! that stand in for a section the store lacks or cannot read.

use vstd::prelude::*;

verus! {

/// The only interface language offered.
pub const FIXED_LANGUAGE: &'static str = "en-GB";

/// The value of a boolean setting that is missing from a stored section
/// and defaults to on.
pub fn default_true() -> (r: bool)
    ensures
        r,
{
    true
}

#[derive(Debug, Clone)]
pub struct GeneralSettings {
    pub start_minimized: bool,
    pub minimize_to_tray: bool,
    pub launch_at_login: bool,
    pub language: String,
}

impl GeneralSettings {
    /// The section's defaults.
    pub open spec fn is_default(&self) -> bool {
        !self.start_minimized && self.minimize_to_tray && !self.launch_at_login && self.language@ == FIXED_LANGUAGE@
    }
}

impl Default for GeneralSettings {
    fn default() -> (r: GeneralSettings)
        ensures
            r.is_default(),
    {
        GeneralSettings {
            start_minimized: false,
            minimize_to_tray: true,
            launch_at_login: false,
            language: String::from_str(FIXED_LANGUAGE),
        }
    }
}

#[derive(Debug, Clone)]
pub struct AppearanceSettings {
    pub theme: String,
    pub accent_color: String,
    pub font_size: String,
    pub compact_mode: bool,
}

impl AppearanceSettings {
    /// The section's defaults.
    pub open spec fn is_default(&self) -> bool {
        self.theme@ == "system"@ && self.accent_color@ == "#ff0000"@ && self.font_size@
            == "medium"@ && !self.compact_mode
    }
}

impl Default for AppearanceSettings {
    fn default() -> (r: AppearanceSettings)
        ensures
            r.is_default(),
    {
        AppearanceSettings {
            theme: String::from_str("system"),
            accent_color: String::from_str("#ff0000"),
            font_size: String::from_str("medium"),
            compact_mode: false,
        }
    }
}

#[derive(Debug, Clone)]
pub struct PlaybackSettings {
    pub default_quality: String,
    pub crossfade: bool,
    pub gapless: bool,
    pub repeat_default: String,
    pub shuffle_default: bool,
}

impl PlaybackSettings {
    /// The section's defaults.
    pub open spec fn is_default(&self) -> bool {
        self.default_quality@ == "auto"@ && !self.crossfade && self.gapless
            && !self.shuffle_default && self.repeat_default@ == "none"@
    }
}

impl Default for PlaybackSettings {
    fn default() -> (r: PlaybackSettings)
        ensures
            r.is_default(),
    {
        PlaybackSettings {
            default_quality: String::from_str("auto"),
            crossfade: false,
            gapless: true,
            repeat_default: String::from_str("none"),
            shuffle_default: false,
        }
    }
}

#[derive(Debug, Clone)]
pub struct DiscordSettings {
    pub enabled: bool,
    pub client_id: String,
    pub show_buttons: bool,
    pub hide_listening: bool,
}

impl DiscordSettings {
    /// The section's defaults.
    pub open spec fn is_default(&self) -> bool {
        self.enabled && self.show_buttons && !self.hide_listening && self.client_id@
            == "1234567890123456789"@
    }
}

impl Default for DiscordSettings {
    fn default() -> (r: DiscordSettings)
        ensures
            r.is_default(),
    {
        DiscordSettings {
            enabled: true,
            client_id: String::from_str("1234567890123456789"),
            show_buttons: true,
            hide_listening: false,
        }
    }
}

#[derive(Debug, Clone)]
pub struct PluginSettings {
    pub enabled_plugins: Vec<String>,
}

impl PluginSettings {
    /// The section's defaults.
    pub open spec fn is_default(&self) -> bool {
        self.enabled_plugins@.map_values(|s: String| s@) == seq!["lyrics"@, "fine-volume-control"@]
    }
}

impl Default for PluginSettings {
    fn default() -> (r: PluginSettings)
        ensures
            r.is_default(),
    {
        let mut v: Vec<String> = Vec::new();
        v.push(String::from_str("lyrics"));
        v.push(String::from_str("fine-volume-control"));
        assert(v@.map_values(|s: String| s@) =~= seq!["lyrics"@, "fine-volume-control"@]);
        PluginSettings { enabled_plugins: v }
    }
}

#[derive(Debug, Clone)]
pub struct AdvancedSettings {
    pub data_directory: String,
    pub cache_size_mb: u32,
    pub debug_mode: bool,
    pub custom_css: String,
    pub custom_js: String,
}

impl AdvancedSettings {
    /// The section's defaults.
    pub open spec fn is_default(&self) -> bool {
        self.data_directory@.len() == 0 && self.cache_size_mb == 500 && !self.debug_mode
            && self.custom_css@.len() == 0 && self.custom_js@.len() == 0
    }
}

impl Default for AdvancedSettings {
    fn default() -> (r: AdvancedSettings)
        ensures
            r.is_default(),
    {
        AdvancedSettings {
            data_directory: String::new(),
            cache_size_mb: 500,
            debug_mode: false,
            custom_css: String::new(),
            custom_js: String::new(),
        }
    }
}

#[derive(Debug, Clone)]
pub struct AppSettings {
    pub general: GeneralSettings,
    pub appearance: AppearanceSettings,
    pub playback: PlaybackSettings,
    pub discord: DiscordSettings,
    pub plugins: PluginSettings,
    pub advanced: AdvancedSettings,
}

impl Default for AppSettings {
    fn default() -> (r: AppSettings)
        ensures
            r.general.is_default(),
            r.appearance.is_default(),
            r.playback.is_default(),
            r.discord.is_default(),
            r.plugins.is_default(),
            r.advanced.is_default(),
    {
        AppSettings {
            general: GeneralSettings::default(),
            appearance: AppearanceSettings::default(),
            playback: PlaybackSettings::default(),
            discord: DiscordSettings::default(),
            plugins: PluginSettings::default(),
            advanced: AdvancedSettings::default(),
        }
    }
}

impl AppSettings {
    /// The settings as read back from the store, from each section that
    /// could be read (`None` for one missing or unreadable, which takes its
    /// defaults). The language is always the fixed one.
    pub fn from_sections(
        general: Option<GeneralSettings>,
        appearance: Option<AppearanceSettings>,
        playback: Option<PlaybackSettings>,
        discord: Option<DiscordSettings>,
        plugins: Option<PluginSettings>,
        advanced: Option<AdvancedSettings>,
    ) -> (r: AppSettings)
        ensures
            r.general.language@ == FIXED_LANGUAGE@,
            match general {
                Some(g) => r.general.start_minimized == g.start_minimized
                    && r.general.minimize_to_tray == g.minimize_to_tray
                    && r.general.launch_at_login == g.launch_at_login,
                None => !r.general.start_minimized && r.general.minimize_to_tray
                    && !r.general.launch_at_login,
            },
            appearance is Some ==> r.appearance == appearance->0,
            appearance is None ==> r.appearance.is_default(),
            playback is Some ==> r.playback == playback->0,
            playback is None ==> r.playback.is_default(),
            discord is Some ==> r.discord == discord->0,
            discord is None ==> r.discord.is_default(),
            plugins is Some ==> r.plugins == plugins->0,
            plugins is None ==> r.plugins.is_default(),
            advanced is Some ==> r.advanced == advanced->0,
            advanced is None ==> r.advanced.is_default(),
    {
        let mut general = match general {
            Some(g) => g,
            None => GeneralSettings::default(),
        };
        general.language = String::from_str(FIXED_LANGUAGE);
        AppSettings {
            general,
            appearance: match appearance {
                Some(a) => a,
                None => AppearanceSettings::default(),
            },
            playback: match playback {
                Some(p) => p,
                None => PlaybackSettings::default(),
            },
            discord: match discord {
                Some(d) => d,
                None => DiscordSettings::default(),
            },
            plugins: match plugins {
                Some(p) => p,
                None => PluginSettings::default(),
            },
            advanced: match advanced {
                Some(a) => a,
                None => AdvancedSettings::default(),
            },
        }
    }
}

} // verus!
