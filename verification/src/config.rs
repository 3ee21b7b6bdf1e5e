//! The configuration data that the core consumes: plain settings structs
//! with their defaults, and the prompt-preset table with its lookups.
//! Loading and persisting configuration is I/O and lives outside the
//! library; the API settings carry a floating-point temperature and stay
//! outside with it.

use vstd::prelude::*;

use crate::chars::str_eq;

verus! {

/// General application behaviour.
pub struct GeneralSettings {
    pub auto_start: bool,
    pub show_notifications: bool,
}

impl Default for GeneralSettings {
    /// Autostart on, notifications on.
    fn default() -> (r: GeneralSettings)
        ensures
            r.auto_start == true,
            r.show_notifications == true,
    {
        GeneralSettings { auto_start: true, show_notifications: true }
    }
}

/// The configured hotkey strings.
pub struct HotkeySettings {
    pub translate: String,
    pub cancel: String,
    pub alternatives: Vec<String>,
}

impl Default for HotkeySettings {
    /// `Ctrl+Shift+T` to translate, `Escape` to cancel, two alternatives.
    fn default() -> (r: HotkeySettings)
        ensures
            r.translate@ == "Ctrl+Shift+T"@,
            r.cancel@ == "Escape"@,
            r.alternatives@.len() == 2,
            r.alternatives@[0]@ == "Ctrl+Alt+T"@,
            r.alternatives@[1]@ == "Alt+Shift+T"@,
    {
        let mut alternatives: Vec<String> = Vec::new();
        alternatives.push("Ctrl+Alt+T".to_owned());
        alternatives.push("Alt+Shift+T".to_owned());
        HotkeySettings {
            translate: "Ctrl+Shift+T".to_owned(),
            cancel: "Escape".to_owned(),
            alternatives,
        }
    }
}

/// One prompt preset: a display name and the system prompt it stands for.
pub struct PromptPreset {
    pub name: String,
    pub system: String,
}

/// The prompt-preset table: built-in presets, user-defined ones, and the
/// identifier of the active preset. Keyed association lists, looked up by
/// identifier; built-in presets take precedence over custom ones.
pub struct PromptSettings {
    pub active_preset: String,
    pub presets: Vec<(String, PromptPreset)>,
    pub custom: Vec<(String, PromptPreset)>,
}

/// The first preset stored under `id`, if any.
pub open spec fn spec_lookup(entries: Seq<(String, PromptPreset)>, id: Seq<char>) -> Option<
    PromptPreset,
>
    decreases entries.len(),
{
    if entries.len() == 0 {
        None
    } else if entries[0].0@ == id {
        Some(entries[0].1)
    } else {
        spec_lookup(entries.drop_first(), id)
    }
}

/// Where a preset lookup resolves: built-ins first, then custom entries.
pub open spec fn spec_preset_for(p: PromptSettings, id: Seq<char>) -> Option<PromptPreset> {
    match spec_lookup(p.presets@, id) {
        Some(preset) => Some(preset),
        None => spec_lookup(p.custom@, id),
    }
}

fn lookup<'a>(entries: &'a Vec<(String, PromptPreset)>, id: &str) -> (r: Option<&'a PromptPreset>)
    ensures
        match r {
            Some(p) => spec_lookup(entries@, id@) == Some(*p),
            None => spec_lookup(entries@, id@) is None,
        },
{
    let mut i: usize = 0;
    proof {
        assert(entries@.skip(0) =~= entries@);
    }
    while i < entries.len()
        invariant
            i <= entries@.len(),
            spec_lookup(entries@, id@) == spec_lookup(entries@.skip(i as int), id@),
        decreases entries@.len() - i,
    {
        proof {
            assert(entries@.skip(i as int)[0] == entries@[i as int]);
            assert(entries@.skip(i as int).drop_first() =~= entries@.skip(i + 1 as int));
        }
        if str_eq(entries[i].0.as_str(), id) {
            return Some(&entries[i].1);
        }
        i = i + 1;
    }
    proof {
        assert(entries@.skip(entries@.len() as int) =~= Seq::<(String, PromptPreset)>::empty());
    }
    None
}

impl PromptSettings {
    /// Look a preset up by identifier: built-in presets first, then custom.
    pub fn get<'a>(&'a self, id: &str) -> (r: Option<&'a PromptPreset>)
        ensures
            match r {
                Some(p) => spec_preset_for(*self, id@) == Some(*p),
                None => spec_preset_for(*self, id@) is None,
            },
    {
        match lookup(&self.presets, id) {
            Some(p) => Some(p),
            None => lookup(&self.custom, id),
        }
    }

    /// The preset the table currently points at.
    pub fn get_active_prompt<'a>(&'a self) -> (r: Option<&'a PromptPreset>)
        ensures
            match r {
                Some(p) => spec_preset_for(*self, self.active_preset@) == Some(*p),
                None => spec_preset_for(*self, self.active_preset@) is None,
            },
    {
        match lookup(&self.presets, self.active_preset.as_str()) {
            Some(p) => Some(p),
            None => lookup(&self.custom, self.active_preset.as_str()),
        }
    }

    /// Make `preset_id` active, if the table knows it; report whether it did.
    pub fn set_active_prompt(&mut self, preset_id: &str) -> (r: bool)
        ensures
            r == (spec_preset_for(*old(self), preset_id@) is Some),
            r ==> final(self).active_preset@ == preset_id@,
            !r ==> final(self).active_preset == old(self).active_preset,
            final(self).presets == old(self).presets,
            final(self).custom == old(self).custom,
    {
        let known: bool = match self.get(preset_id) {
            Some(_) => true,
            None => false,
        };
        if known {
            self.active_preset = preset_id.to_owned();
            true
        } else {
            false
        }
    }

    /// Add (or append another entry for) a custom preset.
    pub fn add_custom_prompt(&mut self, id: String, preset: PromptPreset)
        ensures
            final(self).custom@ == old(self).custom@.push((id, preset)),
            final(self).presets == old(self).presets,
            final(self).active_preset == old(self).active_preset,
    {
        self.custom.push((id, preset));
    }

    /// Remove the first custom preset stored under `id`, returning it.
    pub fn remove_custom_prompt(&mut self, id: &str) -> (r: Option<PromptPreset>)
        ensures
            final(self).presets == old(self).presets,
            final(self).active_preset == old(self).active_preset,
            match r {
                Some(p) => spec_lookup(old(self).custom@, id@) == Some(p) && (exists|i: int|
                    0 <= i < old(self).custom@.len() && old(self).custom@[i].0@ == id@
                        && final(self).custom@ == old(self).custom@.remove(i)),
                None => spec_lookup(old(self).custom@, id@) is None && final(self).custom
                    == old(self).custom,
            },
    {
        let mut i: usize = 0;
        proof {
            assert(self.custom@.skip(0) =~= self.custom@);
        }
        while i < self.custom.len()
            invariant
                i <= self.custom@.len(),
                self.custom == old(self).custom,
                self.presets == old(self).presets,
                self.active_preset == old(self).active_preset,
                spec_lookup(self.custom@, id@) == spec_lookup(self.custom@.skip(i as int), id@),
                forall|j: int| 0 <= j < i ==> (#[trigger] self.custom@[j]).0@ != id@,
            decreases self.custom@.len() - i,
        {
            proof {
                assert(self.custom@.skip(i as int)[0] == self.custom@[i as int]);
                assert(self.custom@.skip(i as int).drop_first() =~= self.custom@.skip(i + 1 as int));
            }
            if str_eq(self.custom[i].0.as_str(), id) {
                let entry: (String, PromptPreset) = self.custom.remove(i);
                return Some(entry.1);
            }
            i = i + 1;
        }
        proof {
            assert(self.custom@.skip(self.custom@.len() as int) =~= Seq::<
                (String, PromptPreset),
            >::empty());
        }
        None
    }

    /// Every preset the table holds, built-ins before custom ones.
    pub fn get_all_prompts<'a>(&'a self) -> (r: Vec<(&'a String, &'a PromptPreset)>)
        ensures
            r@.len() == self.presets@.len() + self.custom@.len(),
            forall|j: int|
                0 <= j < self.presets@.len() ==> *(#[trigger] r@[j]).0 == self.presets@[j].0 && *r@[
                    j
                ].1 == self.presets@[j].1,
            forall|j: int|
                0 <= j < self.custom@.len() ==> *(#[trigger] r@[self.presets@.len() + j]).0
                    == self.custom@[j].0 && *r@[self.presets@.len() + j].1 == self.custom@[j].1,
    {
        let mut r: Vec<(&'a String, &'a PromptPreset)> = Vec::new();
        let mut i: usize = 0;
        while i < self.presets.len()
            invariant
                i <= self.presets@.len(),
                r@.len() == i,
                forall|j: int|
                    0 <= j < i ==> *(#[trigger] r@[j]).0 == self.presets@[j].0 && *r@[j].1
                        == self.presets@[j].1,
            decreases self.presets@.len() - i,
        {
            r.push((&self.presets[i].0, &self.presets[i].1));
            i = i + 1;
        }
        let mut k: usize = 0;
        while k < self.custom.len()
            invariant
                k <= self.custom@.len(),
                r@.len() == self.presets@.len() + k,
                forall|j: int|
                    0 <= j < self.presets@.len() ==> *(#[trigger] r@[j]).0 == self.presets@[j].0
                        && *r@[j].1 == self.presets@[j].1,
                forall|j: int|
                    0 <= j < k ==> *(#[trigger] r@[self.presets@.len() + j]).0 == self.custom@[j].0
                        && *r@[self.presets@.len() + j].1 == self.custom@[j].1,
            decreases self.custom@.len() - k,
        {
            r.push((&self.custom[k].0, &self.custom[k].1));
            k = k + 1;
        }
        r
    }
}

impl Default for PromptSettings {
    /// The five built-in presets, with `general` active and no custom ones.
    fn default() -> (r: PromptSettings)
        ensures
            r.active_preset@ == "general"@,
            r.custom@.len() == 0,
            r.presets@.len() == 5,
            r.presets@[0].0@ == "general"@,
            r.presets@[1].0@ == "twitter"@,
            r.presets@[2].0@ == "formal"@,
            r.presets@[3].0@ == "academic"@,
            r.presets@[4].0@ == "creative"@,
    {
        let mut presets: Vec<(String, PromptPreset)> = Vec::new();
        presets.push(
            (
                "general".to_owned(),
                PromptPreset {
                    name: "Общий перевод".to_owned(),
                    system:
                        "Переведи этот текст на грамотный английский язык, сохраняя смысл изначального текста. Верни только переведенный текст без каких-либо дополнений от себя.".to_owned(),
                },
            ),
        );
        presets.push(
            (
                "twitter".to_owned(),
                PromptPreset {
                    name: "Twitter стиль".to_owned(),
                    system:
                        "Translate this text to English in a casual Twitter style. Keep it concise, use common abbreviations where appropriate, and maintain the original tone. Return only the translated text.".to_owned(),
                },
            ),
        );
        presets.push(
            (
                "formal".to_owned(),
                PromptPreset {
                    name: "Официальный стиль".to_owned(),
                    system:
                        "Translate this text into formal, professional English suitable for business correspondence. Maintain proper grammar and formal vocabulary. Return only the translated text.".to_owned(),
                },
            ),
        );
        presets.push(
            (
                "academic".to_owned(),
                PromptPreset {
                    name: "Академический стиль".to_owned(),
                    system:
                        "Translate this text into academic English with precise terminology and formal structure. Ensure clarity and scholarly tone. Return only the translated text.".to_owned(),
                },
            ),
        );
        presets.push(
            (
                "creative".to_owned(),
                PromptPreset {
                    name: "Творческий стиль".to_owned(),
                    system:
                        "Translate this text into English with creative flair, maintaining the emotional impact and artistic expression of the original. Return only the translated text.".to_owned(),
                },
            ),
        );
        PromptSettings { active_preset: "general".to_owned(), presets, custom: Vec::new() }
    }
}

/// Sizing and throughput limits.
pub struct LimitSettings {
    pub max_text_length: usize,
    pub max_tokens_estimate: usize,
    pub min_text_length: usize,
    pub requests_per_minute: usize,
    pub requests_per_day: usize,
    pub clipboard_timeout_ms: u64,
}

impl Default for LimitSettings {
    /// The stock limits.
    fn default() -> (r: LimitSettings)
        ensures
            r.max_text_length == 5000,
            r.max_tokens_estimate == 1250,
            r.min_text_length == 1,
            r.requests_per_minute == 30,
            r.requests_per_day == 500,
            r.clipboard_timeout_ms == 500,
    {
        LimitSettings {
            max_text_length: 5000,
            max_tokens_estimate: 1250,
            min_text_length: 1,
            requests_per_minute: 30,
            requests_per_day: 500,
            clipboard_timeout_ms: 500,
        }
    }
}

/// Switches of the text validator.
pub struct ValidationSettings {
    pub allow_only_whitespace: bool,
    pub detect_binary_data: bool,
    pub trim_before_validate: bool,
}

impl Default for ValidationSettings {
    /// Whitespace-only text rejected, binary detection on, trimming on.
    fn default() -> (r: ValidationSettings)
        ensures
            r.allow_only_whitespace == false,
            r.detect_binary_data == true,
            r.trim_before_validate == true,
    {
        ValidationSettings {
            allow_only_whitespace: false,
            detect_binary_data: true,
            trim_before_validate: true,
        }
    }
}

/// Behaviour switches around the clipboard and long text.
pub struct BehaviorSettings {
    pub preserve_clipboard: bool,
    pub show_length_warning: bool,
    pub auto_split_long_text: bool,
}

impl Default for BehaviorSettings {
    /// Clipboard preserved, length warning shown, no automatic splitting.
    fn default() -> (r: BehaviorSettings)
        ensures
            r.preserve_clipboard == true,
            r.show_length_warning == true,
            r.auto_split_long_text == false,
    {
        BehaviorSettings {
            preserve_clipboard: true,
            show_length_warning: true,
            auto_split_long_text: false,
        }
    }
}

} // verus!
