//! Application settings and their defaults.

use crate::paths::{extension_of, file_extension, lower_of, lowercase};
use crate::text::{occurs_at, text_starts_with};
use base64::Engine;
use vstd::prelude::*;

verus! {

/// Settings of the file randomiser.
#[derive(Clone, Copy, Debug, PartialEq, Eq, Structural)]
pub struct FileRandomiserSettings {
    pub allow_process_tracking: bool,
    pub randomness_level: u8,
}

/// Default randomness, in percent.
pub const DEFAULT_RANDOMNESS_LEVEL: u8 = 50;

impl Default for FileRandomiserSettings {
    fn default() -> (r: Self)
        ensures
            !r.allow_process_tracking,
            r.randomness_level == DEFAULT_RANDOMNESS_LEVEL,
    {
        FileRandomiserSettings {
            allow_process_tracking: false,
            randomness_level: DEFAULT_RANDOMNESS_LEVEL,
        }
    }
}

/// Colour scheme.
#[derive(Clone, Copy, Debug, PartialEq, Eq, Structural)]
pub enum DarkModeOption {
    Light,
    Dark,
    System,
}

impl Default for DarkModeOption {
    fn default() -> (r: Self)
        ensures
            r == DarkModeOption::System,
    {
        DarkModeOption::System
    }
}

/// Interface language.
#[derive(Clone, Copy, Debug, PartialEq, Eq, Structural)]
pub enum LanguageOption {
    En,
    Nl,
    De,
    Pl,
}

/// The language for a lower-case locale name: Dutch, German or Polish by its
/// prefix, English otherwise.
pub open spec fn language_of(lower: Seq<char>) -> LanguageOption {
    if occurs_at(lower, "nl"@, 0) {
        LanguageOption::Nl
    } else if occurs_at(lower, "de"@, 0) {
        LanguageOption::De
    } else if occurs_at(lower, "pl"@, 0) {
        LanguageOption::Pl
    } else {
        LanguageOption::En
    }
}

/// The language for a locale name, English where there is none.
pub fn language_for_locale(locale: Option<String>) -> (r: LanguageOption)
    ensures
        r == match locale {
            Some(l) => language_of(lower_of(l@)),
            None => LanguageOption::En,
        },
{
    let lower = match locale {
        Some(l) => lowercase(l.as_str()),
        None => {
            return LanguageOption::En;
        },
    };
    if text_starts_with(lower.as_str(), "nl") {
        LanguageOption::Nl
    } else if text_starts_with(lower.as_str(), "de") {
        LanguageOption::De
    } else if text_starts_with(lower.as_str(), "pl") {
        LanguageOption::Pl
    } else {
        LanguageOption::En
    }
}

/// Relies on sys_locale's `get_locale`: the system's preferred locale, if it
/// reports one. Nothing is known of its value.
#[verifier::external_body]
fn system_locale() -> (r: Option<String>) {
    sys_locale::get_locale()
}

impl Default for LanguageOption {
    /// The language of the system's locale.
    fn default() -> (r: Self)
        ensures
            r == LanguageOption::En || exists|l: Seq<char>| r == language_of(lower_of(l)),
    {
        language_for_locale(system_locale())
    }
}

/// All settings of the application.
#[derive(Clone, Debug, PartialEq, Eq)]
pub struct AppSettings {
    pub dark_mode: DarkModeOption,
    pub language: LanguageOption,
    pub custom_background: Option<String>,
    pub file_randomiser: FileRandomiserSettings,
}

impl Default for AppSettings {
    fn default() -> (r: Self)
        ensures
            r.dark_mode == DarkModeOption::System,
            r.custom_background is None,
            !r.file_randomiser.allow_process_tracking,
            r.file_randomiser.randomness_level == DEFAULT_RANDOMNESS_LEVEL,
    {
        AppSettings {
            dark_mode: DarkModeOption::default(),
            language: LanguageOption::default(),
            custom_background: None,
            file_randomiser: FileRandomiserSettings::default(),
        }
    }
}

impl AppSettings {
    /// Allows or forbids tracking of opened files.
    pub fn toggle_process_tracking(&mut self, enable: bool)
        ensures
            *final(self) == (AppSettings {
                file_randomiser: FileRandomiserSettings {
                    allow_process_tracking: enable,
                    ..old(self).file_randomiser
                },
                ..*old(self)
            }),
    {
        self.file_randomiser.allow_process_tracking = enable;
    }

    /// Sets the colour scheme.
    pub fn set_dark_mode(&mut self, mode: DarkModeOption)
        ensures
            *final(self) == (AppSettings { dark_mode: mode, ..*old(self) }),
    {
        self.dark_mode = mode;
    }

    /// Uses `background` (a data URL) as the background image.
    pub fn set_custom_background(&mut self, background: String)
        ensures
            *final(self) == (AppSettings { custom_background: Some(background), ..*old(self) }),
    {
        self.custom_background = Some(background);
    }

    /// Goes back to the plain background.
    pub fn clear_custom_background(&mut self)
        ensures
            *final(self) == (AppSettings { custom_background: None, ..*old(self) }),
    {
        self.custom_background = None;
    }
}

/// What base64's standard engine (standard alphabet, padded) encodes bytes to.
pub uninterp spec fn base64_of(b: Seq<u8>) -> Seq<char>;

/// Length of the padded base64 text of `n` bytes.
pub open spec fn encoded_len(n: int) -> int {
    (n / 3) * 4 + if n % 3 > 0 {
        4int
    } else {
        0int
    }
}

/// Relies on base64's `Engine::encode` with `general_purpose::STANDARD`, which
/// panics only where the encoded length overflows `usize`.
#[verifier::external_body]
fn encode_base64(b: &Vec<u8>) -> (r: String)
    requires
        encoded_len(b@.len() as int) <= usize::MAX,
    ensures
        r@ == base64_of(b@),
{
    base64::engine::general_purpose::STANDARD.encode(b)
}

/// The image type named by a file's extension, `png` where it has none.
pub open spec fn image_type(path: Seq<char>) -> Seq<char> {
    match extension_of(path) {
        Some(e) => e,
        None => "png"@,
    }
}

/// A data URL holding an image file's bytes, typed by the file's extension.
pub fn background_data_url(bytes: &Vec<u8>, path: &str) -> (r: String)
    requires
        encoded_len(bytes@.len() as int) <= usize::MAX,
    ensures
        r@ == "data:image/"@ + image_type(path@) + ";base64,"@ + base64_of(bytes@),
{
    let ext = match file_extension(path) {
        Some(e) => e,
        None => String::from_str("png"),
    };
    let mut url = String::from_str("data:image/");
    url.append(ext.as_str());
    url.append(";base64,");
    url.append(encode_base64(bytes).as_str());
    url
}

} // verus!
