//! The steps of one analysis: read the settings, show the spinner, look in
//! the cache, ask the model, store and show the answer. Each step takes what
//! the last action brought and says what to do next.

use vstd::prelude::*;
use crate::cache::{hash_text, spec_hash_text, CacheEntry};
use crate::config::{chosen_lang, get_locale, spec_lang, Config};
use crate::i18n::{spec_t, t};

verus! {

/// Where an analysis stands.
pub enum Phase {
    /// The settings are being read.
    Start,
    /// The cache is being asked for the answer stored under `hash`.
    AwaitCache { hash: String, lang: String },
    /// The model is being asked; its answer goes under `hash`.
    AwaitModel { hash: String, lang: String },
    /// Nothing is left to do.
    Done,
}

/// What the last action brought.
pub enum Event {
    /// The settings, or why they could not be read.
    ConfigLoaded(Result<Config, String>),
    /// The cached answer, where there is one.
    CacheRead(Option<CacheEntry>),
    /// The model's explanation, or why there is none.
    ModelReplied(Result<String, String>),
}

/// What the popup and the stores are told to do.
pub enum Action {
    /// Show this error.
    EmitError { error: String, lang: String },
    /// Show the spinner over the code.
    EmitLoading { lang: String },
    /// Read the cache entry `hash`.
    LookupCache { hash: String },
    /// Mark the cache entry `hash` as just used.
    TouchCache { hash: String },
    /// Ask the model for an explanation in `lang`.
    CallModel { lang: String },
    /// Store `entry` as the cache entry `hash`.
    StoreCache { hash: String, entry: CacheEntry },
    /// Show this explanation, from the cache or from the model.
    EmitRender { explanation: String, from_cache: bool, lang: String },
}

/// `Phase` with its text as characters.
pub enum PhaseView {
    Start,
    AwaitCache { hash: Seq<char>, lang: Seq<char> },
    AwaitModel { hash: Seq<char>, lang: Seq<char> },
    Done,
}

/// `Action` with its text as characters.
pub enum ActionView {
    EmitError { error: Seq<char>, lang: Seq<char> },
    EmitLoading { lang: Seq<char> },
    LookupCache { hash: Seq<char> },
    TouchCache { hash: Seq<char> },
    CallModel { lang: Seq<char> },
    StoreCache { hash: Seq<char>, explanation: Seq<char>, code: Seq<char>, ts: int },
    EmitRender { explanation: Seq<char>, from_cache: bool, lang: Seq<char> },
}

impl View for Phase {
    type V = PhaseView;

    open spec fn view(&self) -> PhaseView {
        match self {
            Phase::Start => PhaseView::Start,
            Phase::AwaitCache { hash, lang } => PhaseView::AwaitCache { hash: hash@, lang: lang@ },
            Phase::AwaitModel { hash, lang } => PhaseView::AwaitModel { hash: hash@, lang: lang@ },
            Phase::Done => PhaseView::Done,
        }
    }
}

impl View for Action {
    type V = ActionView;

    open spec fn view(&self) -> ActionView {
        match self {
            Action::EmitError { error, lang } => ActionView::EmitError { error: error@, lang: lang@ },
            Action::EmitLoading { lang } => ActionView::EmitLoading { lang: lang@ },
            Action::LookupCache { hash } => ActionView::LookupCache { hash: hash@ },
            Action::TouchCache { hash } => ActionView::TouchCache { hash: hash@ },
            Action::CallModel { lang } => ActionView::CallModel { lang: lang@ },
            Action::StoreCache { hash, entry } => ActionView::StoreCache {
                hash: hash@,
                explanation: entry.explanation@,
                code: entry.code@,
                ts: entry.ts as int,
            },
            Action::EmitRender { explanation, from_cache, lang } => ActionView::EmitRender {
                explanation: explanation@,
                from_cache: *from_cache,
                lang: lang@,
            },
        }
    }
}

/// The actions as characters.
pub open spec fn actions_view(v: Seq<Action>) -> Seq<ActionView> {
    Seq::new(v.len(), |i: int| v[i]@)
}

/// The message for settings without an API key.
pub open spec fn spec_missing_key_message(lang: Seq<char>) -> Seq<char> {
    spec_t(
        lang,
        "API 키가 없습니다. 메뉴바 ✦ → 설정 에서 키를 등록하세요."@,
        "No API key. Open the menu bar ✦ → Settings to add your key."@,
    )
}

/// Whether `event` is what the action of `phase` brings back.
pub open spec fn event_fits(phase: PhaseView, event: Event) -> bool {
    match phase {
        PhaseView::Start => event is ConfigLoaded,
        PhaseView::AwaitCache { .. } => event is CacheRead,
        PhaseView::AwaitModel { .. } => event is ModelReplied,
        PhaseView::Done => false,
    }
}

/// One step of an analysis of `text` on a system whose locale is `locale`.
/// Settings that cannot be read end it with their error, in Korean. Then
/// the spinner shows; settings without an API key end it with a message. The
/// cache is asked only when `use_cache` holds: a stored answer is shown and
/// marked as used, and the model is not asked. A model's answer is stored
/// under the key of the code and language, then shown; its error is shown.
pub open spec fn spec_step(
    phase: PhaseView,
    text: Seq<char>,
    use_cache: bool,
    event: Event,
    locale: Option<Seq<char>>,
) -> (PhaseView, Seq<ActionView>) {
    match event {
        Event::ConfigLoaded(Err(e)) => (
            PhaseView::Done,
            seq![ActionView::EmitError { error: e@, lang: "ko"@ }],
        ),
        Event::ConfigLoaded(Ok(cfg)) => {
            let lang = spec_lang(cfg.language, locale);
            let loading = ActionView::EmitLoading { lang };
            if cfg.api_key@.len() == 0 {
                (
                    PhaseView::Done,
                    seq![loading, ActionView::EmitError { error: spec_missing_key_message(lang), lang }],
                )
            } else {
                let hash = spec_hash_text(text, lang);
                if use_cache {
                    (PhaseView::AwaitCache { hash, lang }, seq![loading, ActionView::LookupCache { hash }])
                } else {
                    (PhaseView::AwaitModel { hash, lang }, seq![loading, ActionView::CallModel { lang }])
                }
            }
        },
        Event::CacheRead(found) => {
            let hash = phase->AwaitCache_hash;
            let lang = phase->AwaitCache_lang;
            match found {
                Some(entry) => (
                    PhaseView::Done,
                    seq![
                        ActionView::TouchCache { hash },
                        ActionView::EmitRender { explanation: entry.explanation@, from_cache: true, lang },
                    ],
                ),
                None => (PhaseView::AwaitModel { hash, lang }, seq![ActionView::CallModel { lang }]),
            }
        },
        Event::ModelReplied(reply) => {
            let hash = phase->AwaitModel_hash;
            let lang = phase->AwaitModel_lang;
            match reply {
                Ok(explanation) => (
                    PhaseView::Done,
                    seq![
                        ActionView::StoreCache { hash, explanation: explanation@, code: text, ts: 0 },
                        ActionView::EmitRender { explanation: explanation@, from_cache: false, lang },
                    ],
                ),
                Err(e) => (PhaseView::Done, seq![ActionView::EmitError { error: e@, lang }]),
            }
        },
    }
}

/// One step of an analysis on a system whose locale is `locale`.
pub fn analysis_step_for(
    phase: Phase,
    text: &str,
    use_cache: bool,
    event: Event,
    locale: Option<&str>,
) -> (res: (Phase, Vec<Action>))
    requires
        event_fits(phase@, event),
    ensures
        (res.0@, actions_view(res.1@)) == spec_step(
            phase@,
            text@,
            use_cache,
            event,
            match locale { Some(l) => Some(l@), None => None },
        ),
{
    let mut actions: Vec<Action> = Vec::new();
    let next = match event {
        Event::ConfigLoaded(Err(e)) => {
            actions.push(Action::EmitError { error: e, lang: String::from_str("ko") });
            Phase::Done
        },
        Event::ConfigLoaded(Ok(cfg)) => {
            let lang = cfg.lang_for(locale);
            actions.push(Action::EmitLoading { lang: lang.clone() });
            if cfg.api_key.as_str().unicode_len() == 0 {
                let msg = t(
                    lang.as_str(),
                    "API 키가 없습니다. 메뉴바 ✦ → 설정 에서 키를 등록하세요.",
                    "No API key. Open the menu bar ✦ → Settings to add your key.",
                );
                actions.push(Action::EmitError { error: msg, lang });
                Phase::Done
            } else {
                let hash = hash_text(text, lang.as_str());
                if use_cache {
                    actions.push(Action::LookupCache { hash: hash.clone() });
                    Phase::AwaitCache { hash, lang }
                } else {
                    actions.push(Action::CallModel { lang: lang.clone() });
                    Phase::AwaitModel { hash, lang }
                }
            }
        },
        Event::CacheRead(found) => {
            match phase {
                Phase::AwaitCache { hash, lang } => {
                    match found {
                        Some(entry) => {
                            actions.push(Action::TouchCache { hash });
                            actions.push(Action::EmitRender { explanation: entry.explanation, from_cache: true, lang });
                            Phase::Done
                        },
                        None => {
                            actions.push(Action::CallModel { lang: lang.clone() });
                            Phase::AwaitModel { hash, lang }
                        },
                    }
                },
                _ => Phase::Done,
            }
        },
        Event::ModelReplied(reply) => {
            match phase {
                Phase::AwaitModel { hash, lang } => {
                    match reply {
                        Ok(explanation) => {
                            let entry = CacheEntry {
                                explanation: explanation.clone(),
                                code: String::from_str(text),
                                ts: 0,
                            };
                            actions.push(Action::StoreCache { hash, entry });
                            actions.push(Action::EmitRender { explanation, from_cache: false, lang });
                            Phase::Done
                        },
                        Err(e) => {
                            actions.push(Action::EmitError { error: e, lang });
                            Phase::Done
                        },
                    }
                },
                _ => Phase::Done,
            }
        },
    };
    assert(actions_view(actions@) =~= spec_step(
        phase@,
        text@,
        use_cache,
        event,
        match locale { Some(l) => Some(l@), None => None },
    ).1);
    (next, actions)
}

/// One step of an analysis, the language coming from the settings or, where
/// they choose none, from the system's locale.
pub fn analysis_step(phase: Phase, text: &str, use_cache: bool, event: Event) -> (res: (Phase, Vec<Action>))
    requires
        event_fits(phase@, event),
    ensures
        exists|locale: Option<Seq<char>>|
            (res.0@, actions_view(res.1@)) == spec_step(phase@, text@, use_cache, event, locale),
{
    let ghost p = phase@;
    let loc = get_locale();
    let res = match &loc {
        Some(l) => analysis_step_for(phase, text, use_cache, event, Some(l.as_str())),
        None => analysis_step_for(phase, text, use_cache, event, None),
    };
    proof {
        let l = match loc { Some(l) => Some(l@), None => None };
        assert((res.0@, actions_view(res.1@)) == spec_step(p, text@, use_cache, event, l));
    }
    res
}

/// The display language where the settings may be missing: Korean without
/// settings, else the one that the settings and the system's locale give.
pub fn current_lang(cfg: Option<&Config>) -> (res: String)
    ensures
        cfg is None ==> res@ == "ko"@,
        cfg matches Some(c) ==> exists|l: Option<Seq<char>>| res@ == spec_lang(c.language, l),
        cfg matches Some(c) ==> (chosen_lang(c.language) matches Some(x) ==> res@ == x),
        res@ == "ko"@ || res@ == "en"@,
{
    match cfg {
        Some(c) => c.lang(),
        None => String::from_str("ko"),
    }
}

/// A stored answer is shown without asking the model, and marked as used.
pub proof fn law_cache_hit_skips_model(hash: Seq<char>, lang: Seq<char>, text: Seq<char>, use_cache: bool, entry: CacheEntry, locale: Option<Seq<char>>)
    ensures ({
        let (next, actions) = spec_step(
            PhaseView::AwaitCache { hash, lang }, text, use_cache, Event::CacheRead(Some(entry)), locale);
        &&& next == PhaseView::Done
        &&& forall|i: int| 0 <= i < actions.len() ==> !(actions[i] is CallModel)
        &&& actions.contains(ActionView::TouchCache { hash })
        &&& actions.contains(ActionView::EmitRender { explanation: entry.explanation@, from_cache: true, lang })
    }),
{
    let actions = spec_step(
        PhaseView::AwaitCache { hash, lang }, text, use_cache, Event::CacheRead(Some(entry)), locale).1;
    assert(actions[0] == ActionView::TouchCache { hash });
    assert(actions[1] == ActionView::EmitRender { explanation: entry.explanation@, from_cache: true, lang });
}

/// A re-analysis (without the cache) never reads the cache: it asks the
/// model, or stops for want of a key.
pub proof fn law_retry_bypasses_cache(text: Seq<char>, cfg: Config, locale: Option<Seq<char>>)
    ensures ({
        let (next, actions) = spec_step(PhaseView::Start, text, false, Event::ConfigLoaded(Ok(cfg)), locale);
        &&& forall|i: int| 0 <= i < actions.len() ==> !(actions[i] is LookupCache)
        &&& !(next is AwaitCache)
        &&& (cfg.api_key@.len() > 0 ==> actions.contains(ActionView::CallModel { lang: spec_lang(cfg.language, locale) }))
    }),
{
    let actions = spec_step(PhaseView::Start, text, false, Event::ConfigLoaded(Ok(cfg)), locale).1;
    if cfg.api_key@.len() > 0 {
        assert(actions[1] == ActionView::CallModel { lang: spec_lang(cfg.language, locale) });
    }
}

/// Without an API key the model is never asked and the missing key is shown.
pub proof fn law_missing_key_stops(text: Seq<char>, use_cache: bool, cfg: Config, locale: Option<Seq<char>>)
    requires
        cfg.api_key@.len() == 0,
    ensures ({
        let (next, actions) = spec_step(PhaseView::Start, text, use_cache, Event::ConfigLoaded(Ok(cfg)), locale);
        let lang = spec_lang(cfg.language, locale);
        &&& next == PhaseView::Done
        &&& forall|i: int| 0 <= i < actions.len() ==> !(actions[i] is CallModel)
        &&& actions.last() == ActionView::EmitError { error: spec_missing_key_message(lang), lang }
    }),
{
}

/// An answer from the model is stored under the very key that a later
/// lookup of the same code in the same language reads: the same code is
/// answered from the cache next time.
pub proof fn law_stored_where_looked_up(
    text: Seq<char>,
    first_cache: bool,
    cfg: Config,
    later: Config,
    locale: Option<Seq<char>>,
    later_locale: Option<Seq<char>>,
    explanation: String,
)
    requires
        cfg.api_key@.len() > 0,
        later.api_key@.len() > 0,
        spec_lang(cfg.language, locale) == spec_lang(later.language, later_locale),
    ensures ({
        let (p1, a1) = spec_step(PhaseView::Start, text, first_cache, Event::ConfigLoaded(Ok(cfg)), locale);
        let p2 = if first_cache { spec_step(p1, text, first_cache, Event::CacheRead(None), locale).0 } else { p1 };
        let (p3, a3) = spec_step(p2, text, first_cache, Event::ModelReplied(Ok(explanation)), locale);
        let (q1, b1) = spec_step(PhaseView::Start, text, true, Event::ConfigLoaded(Ok(later)), later_locale);
        &&& p2 is AwaitModel
        &&& a3[0] == ActionView::StoreCache {
            hash: spec_hash_text(text, spec_lang(cfg.language, locale)),
            explanation: explanation@,
            code: text,
            ts: 0,
        }
        &&& b1[1] == ActionView::LookupCache { hash: spec_hash_text(text, spec_lang(cfg.language, locale)) }
    }),
{
}

} // verus!
