//! Plugin manifests, the enabled-plugin list and the injection bundle: the
//! settings-button script followed by each enabled plugin's entry script.
//! Reading manifests and scripts from disk is the caller's part; this
//! module decides what the bundle is from what was read.

use vstd::prelude::*;
use crate::scripts::SETTINGS_BUTTON_SCRIPT;

verus! {

/// Entry script used when a manifest names none.
pub const DEFAULT_ENTRY_FILE: &'static str = "index.js";

/// Put between two scripts so that one's unfinished last statement cannot
/// run into the next one's first.
pub const SCRIPT_SEPARATOR: &'static str = "\n;\n";

/// What a plugin directory's manifest file declares.
#[derive(Debug, Clone)]
pub struct PluginManifest {
    pub name: String,
    pub version: String,
    pub description: String,
    /// Entry script file name; empty means `index.js`.
    pub main: String,
    /// Advisory only.
    pub permissions: Vec<String>,
}

impl PluginManifest {
    pub open spec fn entry_file_spec(&self) -> Seq<char> {
        if self.main@.len() == 0 {
            DEFAULT_ENTRY_FILE@
        } else {
            self.main@
        }
    }

    /// The file name of the plugin's entry script.
    pub fn entry_file(&self) -> (r: String)
        ensures
            r@ == self.entry_file_spec(),
    {
        if self.main.as_str().is_empty() {
            String::from_str(DEFAULT_ENTRY_FILE)
        } else {
            self.main.clone()
        }
    }
}

/// The plugins enabled when the settings hold no list, or an empty one.
pub open spec fn default_plugin_ids() -> Seq<Seq<char>> {
    seq!["lyrics"@, "fine-volume-control"@]
}

/// The ordered list of plugins to inject: the stored list when there is
/// a non-empty one, the defaults otherwise.
pub fn effective_enabled_plugins(stored: Option<Vec<String>>) -> (r: Vec<String>)
    ensures
        match stored {
            Some(v) if v@.len() > 0 => r@ == v@,
            _ => r@.map_values(|s: String| s@) == default_plugin_ids(),
        },
{
    match stored {
        Some(v) if v.len() > 0 => v,
        _ => {
            let mut r: Vec<String> = Vec::new();
            r.push(String::from_str("lyrics"));
            r.push(String::from_str("fine-volume-control"));
            assert(r@.map_values(|s: String| s@) == default_plugin_ids());
            r
        },
    }
}

/// What the resolved plugins add after the settings-button script: for
/// each one whose entry script was read, the separator and that script,
/// in order; one that could not be resolved adds nothing.
pub open spec fn plugin_sections(scripts: Seq<Option<String>>) -> Seq<char>
    decreases scripts.len(),
{
    if scripts.len() == 0 {
        Seq::empty()
    } else {
        plugin_sections(scripts.drop_last()) + match scripts.last() {
            Some(t) => SCRIPT_SEPARATOR@ + t@,
            None => Seq::empty(),
        }
    }
}

/// The injection bundle for the enabled plugins' entry scripts, in
/// enabled order (`None` for a plugin whose manifest or entry script was
/// missing or unreadable).
pub open spec fn bundle_text(scripts: Seq<Option<String>>) -> Seq<char> {
    SETTINGS_BUTTON_SCRIPT@ + plugin_sections(scripts)
}

/// Builds the injection bundle: the settings-button script, then each
/// plugin script that was read, joined by the separator. Plugins that
/// could not be resolved are skipped; none of them fails the bundle.
pub fn assemble_plugin_bundle(scripts: &Vec<Option<String>>) -> (r: String)
    ensures
        r@ == bundle_text(scripts@),
{
    let mut r = String::from_str(SETTINGS_BUTTON_SCRIPT);
    let mut i: usize = 0;
    while i < scripts.len()
        invariant
            0 <= i <= scripts.len(),
            r@ == SETTINGS_BUTTON_SCRIPT@ + plugin_sections(scripts@.take(i as int)),
        decreases scripts.len() - i,
    {
        assert(scripts@.take(i + 1).drop_last() == scripts@.take(i as int));
        match &scripts[i] {
            Some(t) => {
                r.append(SCRIPT_SEPARATOR);
                r.append(t.as_str());
            },
            None => {},
        }
        i = i + 1;
    }
    assert(scripts@.take(scripts.len() as int) == scripts@);
    r
}

/// With no plugin resolved there is no plugin content and no separator:
/// the bundle is the settings-button script alone.
pub proof fn lemma_empty_bundle()
    ensures
        bundle_text(Seq::empty()) == SETTINGS_BUTTON_SCRIPT@,
{
    assert(plugin_sections(Seq::empty()) == Seq::<char>::empty());
}

/// A plugin that could not be resolved leaves the bundle as the others
/// make it, wherever it stands in the list.
pub proof fn lemma_unresolved_plugin_skipped(
    before: Seq<Option<String>>,
    after: Seq<Option<String>>,
)
    ensures
        bundle_text(before + seq![None] + after) == bundle_text(before + after),
{
    lemma_sections_skip(before, after);
}

proof fn lemma_sections_skip(before: Seq<Option<String>>, after: Seq<Option<String>>)
    ensures
        plugin_sections(before + seq![None] + after) == plugin_sections(before + after),
    decreases after.len(),
{
    let with = before + seq![None] + after;
    let without = before + after;
    if after.len() == 0 {
        assert(with == before.push(None));
        assert(with.drop_last() == before);
        assert(without == before);
        assert(plugin_sections(with) == plugin_sections(before) + Seq::<char>::empty());
    } else {
        lemma_sections_skip(before, after.drop_last());
        assert(with.drop_last() == before + seq![None] + after.drop_last());
        assert(without.drop_last() == before + after.drop_last());
        assert(with.last() == after.last());
        assert(without.last() == after.last());
    }
}

} // verus!
