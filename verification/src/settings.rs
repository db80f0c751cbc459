//! User settings: the stored preferences, their defaults, and what a change
//! of them asks the application to redo.
use vstd::prelude::*;
use crate::text::{
    chars_of, eq_ignore_ascii_case, eq_ignore_ascii_case_chars, string_of, trim_start_chars,
    trim_start_in, CharClass,
};

verus! {

/// A style of reply that the user wrote: its id, its shown name and the
/// instruction that goes into the prompt.
#[derive(Clone, Debug)]
pub struct Style {
    pub id: String,
    pub name: String,
    pub prompt: String,
}

/// The settings of the application.
#[derive(Clone, Debug)]
pub struct Settings {
    pub hotkey: String,
    pub ui_lang: String,
    pub theme: String,
    pub autostart: bool,
    pub model_file: Option<String>,
    pub active_style: String,
    pub custom_styles: Vec<Style>,
    /// The name under which the user appears in chats, so that the model
    /// recognises the user's own lines in a pasted dialogue.
    pub user_name: String,
    /// Further names of the user in other messengers.
    pub user_aliases: Vec<String>,
    /// Styles, built in or custom, that the user switched off.
    pub hidden_styles: Vec<String>,
    /// "Answer briefly" in the reply window.
    pub reply_short: bool,
    /// Copy the selected text automatically when the hotkey fires.
    pub auto_copy: bool,
    /// Messages the user wrote, so that the model writes like the user.
    pub my_examples: String,
    /// The image model that is active, by catalog id.
    pub image_model: Option<String>,
}

pub const DEFAULT_HOTKEY: &'static str = "Ctrl+Shift+R";

pub const DEFAULT_UI_LANG: &'static str = "ru";

pub const DEFAULT_THEME: &'static str = "system";

pub const DEFAULT_STYLE: &'static str = "friendly";

/// What `Settings::default` holds.
pub open spec fn is_default_settings(s: Settings) -> bool {
    &&& s.hotkey@ == DEFAULT_HOTKEY@
    &&& s.ui_lang@ == DEFAULT_UI_LANG@
    &&& s.theme@ == DEFAULT_THEME@
    &&& !s.autostart
    &&& s.model_file is None
    &&& s.active_style@ == DEFAULT_STYLE@
    &&& s.custom_styles@.len() == 0
    &&& s.user_name@.len() == 0
    &&& s.user_aliases@.len() == 0
    &&& s.hidden_styles@.len() == 0
    &&& !s.reply_short
    &&& s.auto_copy
    &&& s.my_examples@.len() == 0
    &&& s.image_model is None
}

impl Default for Settings {
    fn default() -> (s: Settings)
        ensures
            is_default_settings(s),
    {
        Settings {
            hotkey: String::from_str(DEFAULT_HOTKEY),
            ui_lang: String::from_str(DEFAULT_UI_LANG),
            theme: String::from_str(DEFAULT_THEME),
            autostart: false,
            model_file: None,
            active_style: String::from_str(DEFAULT_STYLE),
            custom_styles: Vec::new(),
            user_name: String::new(),
            user_aliases: Vec::new(),
            hidden_styles: Vec::new(),
            reply_short: false,
            auto_copy: true,
            my_examples: String::new(),
            image_model: None,
        }
    }
}

/// The text of a settings or data file with every byte order mark at its
/// start removed (`trim_start_matches('\u{feff}')`): files saved by other
/// editors may start with one.
pub fn strip_bom(s: &str) -> (r: String)
    ensures
        r@ == trim_start_in(s@, CharClass::ByteOrderMark),
{
    let v = chars_of(s);
    let t = trim_start_chars(&v, CharClass::ByteOrderMark);
    string_of(&t)
}

/// What a change of settings asks the application to redo.
#[derive(Clone, Copy, Debug, PartialEq, Eq)]
pub struct SettingsChanges {
    /// The hotkey changed (ASCII case aside): register the new one.
    pub hotkey: bool,
    /// Start at login was switched.
    pub autostart: bool,
    /// Another text model was chosen: restart the engine.
    pub model_file: bool,
}

pub open spec fn opt_view(o: Option<String>) -> Option<Seq<char>> {
    match o {
        Some(s) => Some(s@),
        None => None,
    }
}

pub fn opt_string_eq(a: &Option<String>, b: &Option<String>) -> (r: bool)
    ensures
        r == (opt_view(*a) == opt_view(*b)),
{
    match (a, b) {
        (Some(x), Some(y)) => *x == *y,
        (None, None) => true,
        _ => false,
    }
}

/// Compares old and new settings.
pub fn settings_changes(old: &Settings, new: &Settings) -> (c: SettingsChanges)
    ensures
        c.hotkey == !eq_ignore_ascii_case(old.hotkey@, new.hotkey@),
        c.autostart == (old.autostart != new.autostart),
        c.model_file == (opt_view(old.model_file) != opt_view(new.model_file)),
{
    let a = chars_of(old.hotkey.as_str());
    let b = chars_of(new.hotkey.as_str());
    SettingsChanges {
        hotkey: !eq_ignore_ascii_case_chars(&a, &b),
        autostart: old.autostart != new.autostart,
        model_file: !opt_string_eq(&old.model_file, &new.model_file),
    }
}

} // verus!
