use i18n_embed::fluent::FluentLanguageLoader;
use open_cad_studio::i18n::{
    languages_to_select, ribbon_module_message_id, ribbon_module_title, Language,
};

fn empty_loader() -> FluentLanguageLoader {
    FluentLanguageLoader::new("open_cad_studio", "en-US".parse().unwrap())
}

#[test]
fn system_is_the_default_language() {
    assert_eq!(Language::default(), Language::System);
    assert_eq!(Language::ALL[0], Language::System);
}

#[test]
fn all_lists_every_language_once() {
    assert_eq!(Language::ALL.len(), 9);
    for (i, a) in Language::ALL.iter().enumerate() {
        for b in &Language::ALL[i + 1..] {
            assert_ne!(a, b);
        }
    }
}

#[test]
fn explicit_languages_request_their_tag() {
    let expected = [
        (Language::EnUs, "en-US"),
        (Language::TrTr, "tr-TR"),
        (Language::NlNl, "nl-NL"),
        (Language::FrFr, "fr-FR"),
        (Language::DeDe, "de-DE"),
        (Language::HiIn, "hi-IN"),
        (Language::RuRu, "ru-RU"),
        (Language::ZhCn, "zh-CN"),
    ];
    for (language, tag) in expected {
        assert_eq!(language.locale_tag(), Some(tag));
        assert_eq!(language.requested(), vec![tag.to_string()]);
    }
    assert_eq!(Language::System.locale_tag(), None);
}

#[test]
fn stored_choices_read_back_as_the_same_language() {
    for language in Language::ALL {
        assert_eq!(Language::from_config_name(language.config_name()), Some(language));
    }
    assert_eq!(Language::System.config_name(), "system");
    assert_eq!(Language::ZhCn.config_name(), "zh-CN");
    assert_eq!(Language::from_config_name("en-us"), None);
    assert_eq!(Language::from_config_name(""), None);
    assert_eq!(Language::from_config_name("System"), None);
}

#[test]
fn languages_have_label_messages() {
    assert_eq!(Language::System.label_message_id(), "language-system");
    assert_eq!(Language::EnUs.label_message_id(), "language-english");
    assert_eq!(Language::TrTr.label_message_id(), "language-turkish");
    assert_eq!(Language::NlNl.label_message_id(), "language-dutch");
    assert_eq!(Language::FrFr.label_message_id(), "language-french");
    assert_eq!(Language::DeDe.label_message_id(), "language-german");
    assert_eq!(Language::HiIn.label_message_id(), "language-hindi");
    assert_eq!(Language::RuRu.label_message_id(), "language-russian");
    assert_eq!(Language::ZhCn.label_message_id(), "language-chinese-simplified");
}

#[test]
fn label_looks_up_the_label_message() {
    let loader = empty_loader();
    assert_eq!(
        Language::DeDe.label(&loader),
        "No localization for id: \"language-german\""
    );
}

#[test]
fn an_empty_request_falls_back() {
    assert_eq!(
        languages_to_select(vec![], "en-US".to_string()),
        vec!["en-US".to_string()]
    );
    assert_eq!(
        languages_to_select(vec!["de-DE".to_string(), "fr-FR".to_string()], "en-US".to_string()),
        vec!["de-DE".to_string(), "fr-FR".to_string()]
    );
}

#[test]
fn built_in_ribbon_modules_have_messages() {
    let expected = [
        ("draw", "ribbon-tab-draw"),
        ("annotate", "ribbon-tab-annotate"),
        ("insert", "ribbon-tab-insert"),
        ("model", "ribbon-tab-model"),
        ("layout", "ribbon-tab-layout"),
        ("manage", "ribbon-tab-manage"),
        ("view", "ribbon-tab-view"),
    ];
    for (id, message) in expected {
        assert_eq!(ribbon_module_message_id(id), Some(message));
    }
    assert_eq!(ribbon_module_message_id("Draw"), None);
    assert_eq!(ribbon_module_message_id("my-plugin"), None);
}

#[test]
fn plug_in_modules_keep_their_title() {
    let loader = empty_loader();
    assert_eq!(ribbon_module_title(&loader, "my-plugin", "My Plug-in"), "My Plug-in");
    assert_eq!(ribbon_module_title(&loader, "", ""), "");
}

#[test]
fn built_in_modules_are_localized() {
    let loader = empty_loader();
    assert_eq!(
        ribbon_module_title(&loader, "annotate", "Fallback"),
        "No localization for id: \"ribbon-tab-annotate\""
    );
}
