//! Application language selection and the lookup of localized UI strings.
use vstd::prelude::*;
use vstd::string::*;
use i18n_embed::fluent::FluentLanguageLoader;
use crate::text::{str_equals, string_views};

verus! {

/// The Fluent loader that holds the localized messages of the process. It is an
/// outside type; nothing inside it is visible to the proofs.
#[verifier::external_type_specification]
#[verifier::external_body]
pub struct ExFluentLanguageLoader(FluentLanguageLoader);

/// Calls `FluentLanguageLoader::get`. Public because the contracts of the
/// functions that look up a message speak of its answers. Trusted, and nothing is stated of the
/// result: it is the message `message_id` in the languages that the loader has
/// loaded at the time of the call (or a "No localization" notice), which
/// depends on state that changes whenever a language is selected.
#[verifier::external_body]
pub fn localized_message(loader: &FluentLanguageLoader, message_id: &str) -> String {
    loader.get(message_id)
}

/// Calls `i18n_embed::DesktopLanguageRequester::requested_languages` and writes
/// each identifier it returns as its language tag. Public because the contract
/// of `Language::requested` speaks of its answers. Trusted, and nothing is
/// stated of the result: it is what the operating system reports as the
/// user's preferred locales at the time of the call.
#[verifier::external_body]
pub fn system_languages() -> Vec<String> {
    i18n_embed::DesktopLanguageRequester::requested_languages().iter().map(|id| id.to_string()).collect()
}

/// User-selectable UI language. `System` keeps following the platform's
/// preferred locale while explicit choices remain stable across restarts.
#[derive(Clone, Copy, Debug, PartialEq, Eq, Structural)]
pub enum Language {
    System,
    EnUs,
    TrTr,
    NlNl,
    FrFr,
    DeDe,
    HiIn,
    RuRu,
    ZhCn,
}

impl Default for Language {
    fn default() -> (r: Self)
        ensures
            r == Language::System,
    {
        Language::System
    }
}

/// The locale tag an explicit choice requests; `System` has none of its own.
pub open spec fn spec_locale_tag(language: Language) -> Option<Seq<char>> {
    match language {
        Language::System => None,
        Language::EnUs => Some("en-US"@),
        Language::TrTr => Some("tr-TR"@),
        Language::NlNl => Some("nl-NL"@),
        Language::FrFr => Some("fr-FR"@),
        Language::DeDe => Some("de-DE"@),
        Language::HiIn => Some("hi-IN"@),
        Language::RuRu => Some("ru-RU"@),
        Language::ZhCn => Some("zh-CN"@),
    }
}

/// The name under which a language is stored in the settings.
pub open spec fn spec_config_name(language: Language) -> Seq<char> {
    match spec_locale_tag(language) {
        Some(tag) => tag,
        None => "system"@,
    }
}

/// The language a stored settings name stands for, if any.
pub open spec fn spec_from_config_name(name: Seq<char>) -> Option<Language> {
    if name == "system"@ {
        Some(Language::System)
    } else if name == "en-US"@ {
        Some(Language::EnUs)
    } else if name == "tr-TR"@ {
        Some(Language::TrTr)
    } else if name == "nl-NL"@ {
        Some(Language::NlNl)
    } else if name == "fr-FR"@ {
        Some(Language::FrFr)
    } else if name == "de-DE"@ {
        Some(Language::DeDe)
    } else if name == "hi-IN"@ {
        Some(Language::HiIn)
    } else if name == "ru-RU"@ {
        Some(Language::RuRu)
    } else if name == "zh-CN"@ {
        Some(Language::ZhCn)
    } else {
        None
    }
}

/// The id of the message that names a language in the language picker.
pub open spec fn spec_label_message_id(language: Language) -> Seq<char> {
    match language {
        Language::System => "language-system"@,
        Language::EnUs => "language-english"@,
        Language::TrTr => "language-turkish"@,
        Language::NlNl => "language-dutch"@,
        Language::FrFr => "language-french"@,
        Language::DeDe => "language-german"@,
        Language::HiIn => "language-hindi"@,
        Language::RuRu => "language-russian"@,
        Language::ZhCn => "language-chinese-simplified"@,
    }
}

/// The languages to load, in order of preference: those requested, or the
/// loader's fallback when nothing was requested.
pub open spec fn spec_languages_to_select(requested: Seq<Seq<char>>, fallback: Seq<char>) -> Seq<
    Seq<char>,
> {
    if requested.len() == 0 {
        seq![fallback]
    } else {
        requested
    }
}

impl Language {
    /// Every language the picker offers, `System` first.
    pub const ALL: [Language; 9] = [
        Language::System,
        Language::EnUs,
        Language::TrTr,
        Language::NlNl,
        Language::FrFr,
        Language::DeDe,
        Language::HiIn,
        Language::RuRu,
        Language::ZhCn,
    ];

    /// The locale tag this language requests; `None` for `System`.
    pub fn locale_tag(self) -> (r: Option<&'static str>)
        ensures
            r matches Some(tag) ==> spec_locale_tag(self) == Some(tag@),
            r is None <==> spec_locale_tag(self) is None,
    {
        match self {
            Language::System => None,
            Language::EnUs => Some("en-US"),
            Language::TrTr => Some("tr-TR"),
            Language::NlNl => Some("nl-NL"),
            Language::FrFr => Some("fr-FR"),
            Language::DeDe => Some("de-DE"),
            Language::HiIn => Some("hi-IN"),
            Language::RuRu => Some("ru-RU"),
            Language::ZhCn => Some("zh-CN"),
        }
    }

    /// The name under which this language is stored in the settings.
    pub fn config_name(self) -> (r: &'static str)
        ensures
            r@ == spec_config_name(self),
    {
        match self.locale_tag() {
            Some(tag) => tag,
            None => "system",
        }
    }

    /// The language a stored settings name stands for, if it names one.
    pub fn from_config_name(name: &str) -> (r: Option<Language>)
        ensures
            r == spec_from_config_name(name@),
    {
        if str_equals(name, "system") {
            Some(Language::System)
        } else if str_equals(name, "en-US") {
            Some(Language::EnUs)
        } else if str_equals(name, "tr-TR") {
            Some(Language::TrTr)
        } else if str_equals(name, "nl-NL") {
            Some(Language::NlNl)
        } else if str_equals(name, "fr-FR") {
            Some(Language::FrFr)
        } else if str_equals(name, "de-DE") {
            Some(Language::DeDe)
        } else if str_equals(name, "hi-IN") {
            Some(Language::HiIn)
        } else if str_equals(name, "ru-RU") {
            Some(Language::RuRu)
        } else if str_equals(name, "zh-CN") {
            Some(Language::ZhCn)
        } else {
            None
        }
    }

    /// The id of the message that names this language in the language picker.
    pub fn label_message_id(self) -> (r: &'static str)
        ensures
            r@ == spec_label_message_id(self),
    {
        match self {
            Language::System => "language-system",
            Language::EnUs => "language-english",
            Language::TrTr => "language-turkish",
            Language::NlNl => "language-dutch",
            Language::FrFr => "language-french",
            Language::DeDe => "language-german",
            Language::HiIn => "language-hindi",
            Language::RuRu => "language-russian",
            Language::ZhCn => "language-chinese-simplified",
        }
    }

    /// The language's name in the current UI language, as the picker shows it.
    pub fn label(self, loader: &FluentLanguageLoader) -> (r: String)
        ensures
            exists|id: &str|
                id@ == spec_label_message_id(self) && #[trigger] call_ensures(
                    localized_message,
                    (loader, id),
                    r,
                ),
    {
        localized_message(loader, self.label_message_id())
    }

    /// The locale tags this language asks the loader for, most preferred
    /// first: the platform's preferred locales for `System`, and the one tag
    /// of an explicit choice otherwise.
    pub fn requested(self) -> (r: Vec<String>)
        ensures
            spec_locale_tag(self) matches Some(tag) ==> string_views(r@) == seq![tag],
            self == Language::System ==> call_ensures(system_languages, (), r),
    {
        match self.locale_tag() {
            None => system_languages(),
            Some(tag) => {
                let mut r: Vec<String> = Vec::new();
                r.push(String::from_str(tag));
                assert(string_views(r@) =~= seq![tag@]);
                r
            },
        }
    }
}

/// The locale tags to load for a request: `requested` as it is, or the
/// loader's `fallback` alone when nothing was requested, so that selection is
/// never asked to load an empty list.
pub fn languages_to_select(requested: Vec<String>, fallback: String) -> (r: Vec<String>)
    ensures
        string_views(r@) == spec_languages_to_select(string_views(requested@), fallback@),
{
    if requested.len() == 0 {
        let mut r: Vec<String> = Vec::new();
        r.push(fallback);
        assert(string_views(r@) =~= seq![fallback@]);
        r
    } else {
        requested
    }
}

/// The id of the message that titles a built-in ribbon module; plug-in
/// modules have none.
pub open spec fn spec_ribbon_module_message_id(id: Seq<char>) -> Option<Seq<char>> {
    if id == "draw"@ {
        Some("ribbon-tab-draw"@)
    } else if id == "annotate"@ {
        Some("ribbon-tab-annotate"@)
    } else if id == "insert"@ {
        Some("ribbon-tab-insert"@)
    } else if id == "model"@ {
        Some("ribbon-tab-model"@)
    } else if id == "layout"@ {
        Some("ribbon-tab-layout"@)
    } else if id == "manage"@ {
        Some("ribbon-tab-manage"@)
    } else if id == "view"@ {
        Some("ribbon-tab-view"@)
    } else {
        None
    }
}

/// The message id that titles the built-in ribbon module `id`, if it is one.
pub fn ribbon_module_message_id(id: &str) -> (r: Option<&'static str>)
    ensures
        r matches Some(m) ==> spec_ribbon_module_message_id(id@) == Some(m@),
        r is None <==> spec_ribbon_module_message_id(id@) is None,
{
    if str_equals(id, "draw") {
        Some("ribbon-tab-draw")
    } else if str_equals(id, "annotate") {
        Some("ribbon-tab-annotate")
    } else if str_equals(id, "insert") {
        Some("ribbon-tab-insert")
    } else if str_equals(id, "model") {
        Some("ribbon-tab-model")
    } else if str_equals(id, "layout") {
        Some("ribbon-tab-layout")
    } else if str_equals(id, "manage") {
        Some("ribbon-tab-manage")
    } else if str_equals(id, "view") {
        Some("ribbon-tab-view")
    } else {
        None
    }
}

/// Built-in ribbon modules have stable ids and a localized title; plug-ins
/// keep their supplied title until they provide their own localization bundle.
pub fn ribbon_module_title(loader: &FluentLanguageLoader, id: &str, fallback: &str) -> (r: String)
    ensures
        spec_ribbon_module_message_id(id@) is None ==> r@ == fallback@,
        spec_ribbon_module_message_id(id@) matches Some(m) ==> exists|message_id: &str|
            message_id@ == m && #[trigger] call_ensures(localized_message, (loader, message_id), r),
{
    match ribbon_module_message_id(id) {
        Some(message_id) => localized_message(loader, message_id),
        None => String::from_str(fallback),
    }
}

/// A stored language choice reads back as the same language: the settings
/// name of every language parses to that language again.
pub proof fn lemma_config_name_round_trip(language: Language)
    ensures
        spec_from_config_name(spec_config_name(language)) == Some(language),
{
    reveal_strlit("system");
    reveal_strlit("en-US");
    reveal_strlit("tr-TR");
    reveal_strlit("nl-NL");
    reveal_strlit("fr-FR");
    reveal_strlit("de-DE");
    reveal_strlit("hi-IN");
    reveal_strlit("ru-RU");
    reveal_strlit("zh-CN");
    assert("system"@.len() == 6);
    assert("en-US"@.len() == 5 && "en-US"@[0] == 'e');
    assert("tr-TR"@.len() == 5 && "tr-TR"@[0] == 't');
    assert("nl-NL"@.len() == 5 && "nl-NL"@[0] == 'n');
    assert("fr-FR"@.len() == 5 && "fr-FR"@[0] == 'f');
    assert("de-DE"@.len() == 5 && "de-DE"@[0] == 'd');
    assert("hi-IN"@.len() == 5 && "hi-IN"@[0] == 'h');
    assert("ru-RU"@.len() == 5 && "ru-RU"@[0] == 'r');
    assert("zh-CN"@.len() == 5 && "zh-CN"@[0] == 'z');
}

/// Selection is never asked to load an empty list, and a non-empty request is
/// passed on as it is.
pub proof fn lemma_selection_never_empty(requested: Seq<Seq<char>>, fallback: Seq<char>)
    ensures
        spec_languages_to_select(requested, fallback).len() > 0,
        requested.len() > 0 ==> spec_languages_to_select(requested, fallback) == requested,
{
}

/// An explicit choice requests exactly its own locale tag, and that tag is
/// also the name it is stored under.
pub proof fn lemma_explicit_choice_requests_its_tag(language: Language)
    requires
        language != Language::System,
    ensures
        spec_locale_tag(language) == Some(spec_config_name(language)),
{
}

/// The picker offers every language exactly once.
pub proof fn lemma_all_lists_each_language_once(language: Language)
    ensures
        exists|i: int| 0 <= i < 9 && #[trigger] Language::ALL@[i] == language,
        forall|i: int, j: int|
            0 <= i < j < 9 ==> #[trigger] Language::ALL@[i] != #[trigger] Language::ALL@[j],
{
    match language {
        Language::System => assert(Language::ALL@[0] == language),
        Language::EnUs => assert(Language::ALL@[1] == language),
        Language::TrTr => assert(Language::ALL@[2] == language),
        Language::NlNl => assert(Language::ALL@[3] == language),
        Language::FrFr => assert(Language::ALL@[4] == language),
        Language::DeDe => assert(Language::ALL@[5] == language),
        Language::HiIn => assert(Language::ALL@[6] == language),
        Language::RuRu => assert(Language::ALL@[7] == language),
        Language::ZhCn => assert(Language::ALL@[8] == language),
    }
}

} // verus!
