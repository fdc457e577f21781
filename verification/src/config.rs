//! The user's settings (`~/.codepop/config.json`) and their defaults.

use vstd::prelude::*;
use vstd::utf8::encode_utf8;
use crate::paths::{home_dir, join, spec_join};
use crate::json::{is_str_member, str_member, with_member, without_key, Json};
use crate::text::{has_prefix, lowercase, spec_lowercase, starts_with, str_eq};

verus! {

/// The model used when the settings name none.
pub const DEFAULT_MODEL: &'static str = "gemini-2.5-flash-lite";

/// The shortcut used when the settings name none.
pub const DEFAULT_SHORTCUT: &'static str = "cmd+shift+e";

/// `.codepop` under the home directory `home`.
pub open spec fn spec_codepop_dir(home: Seq<u8>) -> Seq<u8> {
    spec_join(home, encode_utf8(".codepop"@))
}

/// The settings file under the home directory `home`.
pub open spec fn spec_config_path(home: Seq<u8>) -> Seq<u8> {
    spec_join(spec_codepop_dir(home), encode_utf8("config.json"@))
}

/// The directory that holds Codepop's files, under the home directory `home`.
pub fn codepop_dir_in(home: &[u8]) -> (res: Vec<u8>)
    ensures
        res@ == spec_codepop_dir(home@),
{
    join(home, ".codepop".as_bytes())
}

/// The directory that holds Codepop's files: `.codepop` under the user's
/// home directory, or a relative `.codepop` where there is no home directory.
pub fn codepop_dir() -> (res: Vec<u8>)
    ensures
        exists|h: Seq<u8>| res@ == spec_codepop_dir(h),
{
    let h = match home_dir() {
        Some(h) => h,
        None => Vec::new(),
    };
    codepop_dir_in(h.as_slice())
}

/// The settings file under the home directory `home`.
pub fn config_path_in(home: &[u8]) -> (res: Vec<u8>)
    ensures
        res@ == spec_config_path(home@),
{
    let dir = codepop_dir_in(home);
    join(dir.as_slice(), "config.json".as_bytes())
}

/// The settings file, `config.json` in Codepop's directory.
pub fn config_path() -> (res: Vec<u8>)
    ensures
        exists|h: Seq<u8>| res@ == spec_config_path(h),
{
    let h = match home_dir() {
        Some(h) => h,
        None => Vec::new(),
    };
    config_path_in(h.as_slice())
}

/// The message for a settings file that could not be read.
pub open spec fn spec_config_missing_message(path: Seq<char>) -> Seq<char> {
    path + " 없음"@
}

/// The message for a settings file that could not be read at `path`.
pub fn config_missing_message(path: &str) -> (res: String)
    ensures
        res@ == spec_config_missing_message(path@),
{
    let mut out = String::from_str(path);
    out.append(" 없음");
    out
}

/// The message for a settings file that is not valid settings JSON.
pub fn config_parse_error_message() -> (res: String)
    ensures
        res@ == "config.json 파싱 실패"@,
{
    String::from_str("config.json 파싱 실패")
}

/// The language guessed from the system locale: Korean where the locale,
/// lowercased, begins with `ko`, else English.
pub open spec fn spec_lang_for_locale(locale: Option<Seq<char>>) -> Seq<char> {
    match locale {
        Some(l) => if has_prefix(spec_lowercase(l), "ko"@) { "ko"@ } else { "en"@ },
        None => "en"@,
    }
}

/// The language for a new user whose system locale is `locale`.
pub fn lang_for_locale(locale: Option<&str>) -> (res: String)
    ensures
        res@ == spec_lang_for_locale(match locale { Some(l) => Some(l@), None => None }),
{
    match locale {
        Some(l) => {
            let lower = lowercase(l);
            if starts_with(lower.as_str(), "ko") {
                String::from_str("ko")
            } else {
                String::from_str("en")
            }
        },
        None => String::from_str("en"),
    }
}

/// The system's preferred locale (`sys_locale::get_locale`), a BCP 47
/// language tag. The result depends on the machine: no clause states which
/// tag it is, or that there is one.
#[verifier::external_body]
pub(crate) fn get_locale() -> (res: Option<String>) {
    sys_locale::get_locale()
}

/// The language for a new user: Korean on a Korean system, else English.
pub fn system_default_lang() -> (res: String)
    ensures
        exists|l: Option<Seq<char>>| res@ == spec_lang_for_locale(l),
        res@ == "ko"@ || res@ == "en"@,
{
    let loc = get_locale();
    let res = match &loc {
        Some(l) => lang_for_locale(Some(l.as_str())),
        None => lang_for_locale(None),
    };
    proof {
        let l = match loc { Some(l) => Some(l@), None => None };
        assert(res@ == spec_lang_for_locale(l));
    }
    res
}

/// The user's settings. Fields that the file lacks are empty.
#[derive(Clone)]
pub struct Config {
    pub api_key: String,
    pub model: Option<String>,
    pub language: Option<String>,
    pub shortcut: Option<String>,
}

/// A non-empty setting, or the default.
pub open spec fn setting_or(v: Option<String>, default: Seq<char>) -> Seq<char> {
    match v {
        Some(s) => if s@.len() > 0 { s@ } else { default },
        None => default,
    }
}

/// The language that the settings choose, where they choose one of the two.
pub open spec fn chosen_lang(language: Option<String>) -> Option<Seq<char>> {
    match language {
        Some(l) => if l@ == "en"@ { Some("en"@) } else if l@ == "ko"@ { Some("ko"@) } else { None },
        None => None,
    }
}

/// The language for settings `language` on a system whose locale is `locale`.
pub open spec fn spec_lang(language: Option<String>, locale: Option<Seq<char>>) -> Seq<char> {
    match chosen_lang(language) {
        Some(l) => l,
        None => spec_lang_for_locale(locale),
    }
}

fn non_empty_or(v: &Option<String>, default: &str) -> (res: String)
    ensures
        res@ == setting_or(*v, default@),
{
    match v {
        Some(s) => {
            if s.unicode_len() > 0 {
                s.clone()
            } else {
                String::from_str(default)
            }
        },
        None => String::from_str(default),
    }
}

impl Config {
    /// The model to call: the configured one, or `DEFAULT_MODEL` where it is
    /// missing or empty.
    pub fn model(&self) -> (res: String)
        ensures
            res@ == setting_or(self.model, DEFAULT_MODEL@),
    {
        non_empty_or(&self.model, DEFAULT_MODEL)
    }

    /// The global shortcut: the configured one, or `DEFAULT_SHORTCUT` where
    /// it is missing or empty.
    pub fn shortcut(&self) -> (res: String)
        ensures
            res@ == setting_or(self.shortcut, DEFAULT_SHORTCUT@),
    {
        non_empty_or(&self.shortcut, DEFAULT_SHORTCUT)
    }

    /// The display language for a system whose locale is `locale`: the
    /// configured one where it is `en` or `ko`, else the one the locale suggests.
    pub fn lang_for(&self, locale: Option<&str>) -> (res: String)
        ensures
            res@ == spec_lang(self.language, match locale { Some(l) => Some(l@), None => None }),
    {
        match &self.language {
            Some(l) => {
                if str_eq(l.as_str(), "en") {
                    return String::from_str("en");
                } else if str_eq(l.as_str(), "ko") {
                    return String::from_str("ko");
                }
            },
            None => {},
        }
        lang_for_locale(locale)
    }

    /// The display language: the configured one where it is `en` or `ko`,
    /// else the one that the system's locale suggests.
    pub fn lang(&self) -> (res: String)
        ensures
            exists|l: Option<Seq<char>>| res@ == spec_lang(self.language, l),
            chosen_lang(self.language) matches Some(c) ==> res@ == c,
            res@ == "ko"@ || res@ == "en"@,
    {
        let loc = get_locale();
        let res = match &loc {
            Some(l) => self.lang_for(Some(l.as_str())),
            None => self.lang_for(None),
        };
        proof {
            let l = match loc { Some(l) => Some(l@), None => None };
            assert(res@ == spec_lang(self.language, l));
        }
        res
    }
}

/// Whether the settings window opens by itself at start: when the settings
/// cannot be read or hold no API key.
pub fn needs_onboarding(cfg: Option<&Config>) -> (res: bool)
    ensures
        res == match cfg { Some(c) => c.api_key@.len() == 0, None => true },
{
    match cfg {
        Some(c) => c.api_key.as_str().unicode_len() == 0,
        None => true,
    }
}

/// The shortcut registered at start: the settings' one, or
/// `DEFAULT_SHORTCUT` where the settings cannot be read.
pub fn startup_shortcut(cfg: Option<&Config>) -> (res: String)
    ensures
        res@ == match cfg { Some(c) => setting_or(c.shortcut, DEFAULT_SHORTCUT@), None => DEFAULT_SHORTCUT@ },
{
    match cfg {
        Some(c) => c.shortcut(),
        None => String::from_str(DEFAULT_SHORTCUT),
    }
}

/// The settings file's content as the settings window saves it: the four
/// settings as strings, under `apiKey`, `model`, `language`, `shortcut`.
pub fn settings_document(api_key: &str, model: &str, language: &str, shortcut: &str) -> (res: Json)
    ensures
        res matches Json::Object(f) && f@.len() == 4
            && is_str_member(f@[0], "apiKey"@, api_key@)
            && is_str_member(f@[1], "model"@, model@)
            && is_str_member(f@[2], "language"@, language@)
            && is_str_member(f@[3], "shortcut"@, shortcut@),
{
    let mut f: Vec<(String, Json)> = Vec::new();
    f.push(str_member("apiKey", api_key));
    f.push(str_member("model", model));
    f.push(str_member("language", language));
    f.push(str_member("shortcut", shortcut));
    Json::Object(f)
}

/// The settings file's content after a language toggle: `language` set to
/// `lang`, every other member kept. Content that is no object is kept whole.
pub fn with_language(doc: Json, lang: &str) -> (res: Json)
    ensures
        match doc {
            Json::Object(fields) => res matches Json::Object(out)
                && out@.len() >= 1
                && out@.drop_last() == without_key(fields@, "language"@)
                && is_str_member(out@.last(), "language"@, lang@),
            _ => res == doc,
        },
{
    let value = Json::Str(String::from_str(lang));
    let ghost v = value;
    let ghost d = doc;
    let res = with_member(doc, "language", value);
    let ghost r = res;
    proof {
        if let Json::Object(out) = r {
            assert(out@.drop_last() =~= without_key(
                match d { Json::Object(fields) => fields@, _ => Seq::empty() },
                "language"@,
            )) by {
                if let Json::Object(fields) = d {
                    assert(out@ == without_key(fields@, "language"@).push((out@.last().0, v)));
                }
            }
        }
    }
    res
}

} // verus!
