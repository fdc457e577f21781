//! The two display languages, Korean (`ko`) and English (`en`).

use vstd::prelude::*;
use crate::text::str_eq;

verus! {

/// Whether `lang` selects English; every other value selects Korean.
pub open spec fn is_en(lang: Seq<char>) -> bool {
    lang == "en"@
}

/// The text shown for `lang`: `en` when it is English, else `ko`.
pub open spec fn spec_t(lang: Seq<char>, ko: Seq<char>, en: Seq<char>) -> Seq<char> {
    if is_en(lang) { en } else { ko }
}

/// Picks the English or the Korean text of a message.
pub fn t(lang: &str, ko: &str, en: &str) -> (res: String)
    ensures
        res@ == spec_t(lang@, ko@, en@),
{
    if str_eq(lang, "en") {
        String::from_str(en)
    } else {
        String::from_str(ko)
    }
}

/// The language that a toggle switches to: from English to Korean, from
/// anything else to English.
pub open spec fn spec_toggle_lang(cur: Seq<char>) -> Seq<char> {
    if is_en(cur) { "ko"@ } else { "en"@ }
}

/// The language that the popup's language toggle switches to.
pub fn toggle_lang(cur: &str) -> (res: String)
    ensures
        res@ == spec_toggle_lang(cur@),
{
    if str_eq(cur, "en") {
        String::from_str("ko")
    } else {
        String::from_str("en")
    }
}

/// Toggling twice gives back the language one started from, for both
/// display languages.
pub proof fn law_toggle_twice(lang: Seq<char>)
    requires
        lang == "en"@ || lang == "ko"@,
    ensures
        spec_toggle_lang(spec_toggle_lang(lang)) == lang,
{
    reveal_strlit("en");
    reveal_strlit("ko");
}

} // verus!
