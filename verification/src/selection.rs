//! Reading the selection through the clipboard: whether a copy happened,
//! and whether the selected text is one that can be explained.

use vstd::prelude::*;
use crate::i18n::{spec_t, t};

verus! {

/// How long to wait for the copy to reach the clipboard, in milliseconds.
pub const POLL_MS: u64 = 500;

/// How long to sleep between two looks at the clipboard, in milliseconds.
pub const STEP_MS: u64 = 20;

/// The fewest characters a selection must have.
pub const MIN_SELECTION_CHARS: usize = 5;

/// The most characters a selection may have.
pub const MAX_SELECTION_CHARS: usize = 20000;

/// Whether the clipboard's change count shows a copy after it was cleared:
/// clearing counts one change, the copy another.
pub open spec fn spec_copy_done(before: int, now: int) -> bool {
    now > before + 1
}

/// Whether a copy reached the clipboard since the count was `before`.
pub fn copy_done(before: isize, now: isize) -> (res: bool)
    ensures
        res == spec_copy_done(before as int, now as int),
{
    (now as i128) > (before as i128) + 1
}

/// The selected text, where a copy happened and brought non-empty text.
pub open spec fn spec_copied_selection(before: int, after: int, selected: Option<Seq<char>>) -> Option<Seq<char>> {
    if !spec_copy_done(before, after) {
        None
    } else {
        match selected {
            Some(s) => if s.len() > 0 { Some(s) } else { None },
            None => None,
        }
    }
}

/// What the copy brought: the clipboard text read after it, where the
/// change count shows that a copy happened and the text is not empty.
pub fn copied_selection(before: isize, after: isize, selected: Option<String>) -> (res: Option<String>)
    ensures
        match res { Some(s) => Some(s@), None => None }
            == spec_copied_selection(before as int, after as int, match selected { Some(s) => Some(s@), None => None }),
{
    if !copy_done(before, after) {
        return None;
    }
    match selected {
        Some(s) => {
            if s.unicode_len() > 0 {
                Some(s)
            } else {
                None
            }
        },
        None => None,
    }
}

/// The message for a missing or too short selection.
pub open spec fn spec_too_short_message(lang: Seq<char>) -> Seq<char> {
    spec_t(lang, "선택된 텍스트가 없거나 너무 짧음"@, "No text selected, or too short"@)
}

/// The message for a selection over `MAX_SELECTION_CHARS` characters.
pub open spec fn spec_too_long_message(lang: Seq<char>) -> Seq<char> {
    spec_t(lang, "선택이 너무 김 (20000자 초과)"@, "Selection too long (over 20,000 chars)"@)
}

/// The message asking for the Accessibility permission.
pub open spec fn spec_permission_message(lang: Seq<char>) -> Seq<char> {
    spec_t(
        lang,
        "손쉬운 사용 권한이 필요합니다.\n시스템 설정 → 개인정보 보호 및 보안 → 손쉬운 사용\n에서 Codepop 을 허용한 뒤 다시 시도하세요."@,
        "Accessibility permission is required.\nSystem Settings → Privacy & Security → Accessibility\nEnable Codepop, then try again."@,
    )
}

/// What the shortcut leads to.
pub enum HotkeyOutcome {
    /// The Accessibility permission is missing: ask for it and show this message.
    NeedPermission(String),
    /// Show this message instead of an explanation.
    Reject(String),
    /// Explain this text.
    Analyze(String),
}

/// `HotkeyOutcome` with its text as characters.
pub enum HotkeyOutcomeView {
    NeedPermission(Seq<char>),
    Reject(Seq<char>),
    Analyze(Seq<char>),
}

impl View for HotkeyOutcome {
    type V = HotkeyOutcomeView;

    open spec fn view(&self) -> HotkeyOutcomeView {
        match self {
            HotkeyOutcome::NeedPermission(m) => HotkeyOutcomeView::NeedPermission(m@),
            HotkeyOutcome::Reject(m) => HotkeyOutcomeView::Reject(m@),
            HotkeyOutcome::Analyze(s) => HotkeyOutcomeView::Analyze(s@),
        }
    }
}

/// The shortcut's decision: without the permission nothing is read; a
/// selection is explained only with `MIN_SELECTION_CHARS` to
/// `MAX_SELECTION_CHARS` characters.
pub open spec fn spec_hotkey_outcome(trusted: bool, selection: Option<Seq<char>>, lang: Seq<char>) -> HotkeyOutcomeView {
    if !trusted {
        HotkeyOutcomeView::NeedPermission(spec_permission_message(lang))
    } else {
        match selection {
            None => HotkeyOutcomeView::Reject(spec_too_short_message(lang)),
            Some(s) => if s.len() < MIN_SELECTION_CHARS {
                HotkeyOutcomeView::Reject(spec_too_short_message(lang))
            } else if s.len() > MAX_SELECTION_CHARS {
                HotkeyOutcomeView::Reject(spec_too_long_message(lang))
            } else {
                HotkeyOutcomeView::Analyze(s)
            },
        }
    }
}

/// Decides what the shortcut does, given whether the app may read other
/// apps (`trusted`), what was selected, and the display language.
pub fn hotkey_outcome(trusted: bool, selection: Option<String>, lang: &str) -> (res: HotkeyOutcome)
    ensures
        res@ == spec_hotkey_outcome(trusted, match selection { Some(s) => Some(s@), None => None }, lang@),
{
    if !trusted {
        return HotkeyOutcome::NeedPermission(t(
            lang,
            "손쉬운 사용 권한이 필요합니다.\n시스템 설정 → 개인정보 보호 및 보안 → 손쉬운 사용\n에서 Codepop 을 허용한 뒤 다시 시도하세요.",
            "Accessibility permission is required.\nSystem Settings → Privacy & Security → Accessibility\nEnable Codepop, then try again.",
        ));
    }
    match selection {
        None => HotkeyOutcome::Reject(t(lang, "선택된 텍스트가 없거나 너무 짧음", "No text selected, or too short")),
        Some(text) => {
            let n = text.as_str().unicode_len();
            if n < MIN_SELECTION_CHARS {
                HotkeyOutcome::Reject(t(lang, "선택된 텍스트가 없거나 너무 짧음", "No text selected, or too short"))
            } else if n > MAX_SELECTION_CHARS {
                HotkeyOutcome::Reject(t(lang, "선택이 너무 김 (20000자 초과)", "Selection too long (over 20,000 chars)"))
            } else {
                HotkeyOutcome::Analyze(text)
            }
        },
    }
}

/// A selection is explained exactly when the permission is there and the
/// text has from 5 to 20000 characters; the text explained is the one selected.
pub proof fn law_selection_bounds(trusted: bool, selection: Option<Seq<char>>, lang: Seq<char>)
    ensures
        (spec_hotkey_outcome(trusted, selection, lang) is Analyze) <==> (trusted && selection is Some
            && 5 <= selection->0.len() <= 20000),
        spec_hotkey_outcome(trusted, selection, lang) matches HotkeyOutcomeView::Analyze(s)
            ==> selection == Some(s),
{
}

} // verus!
