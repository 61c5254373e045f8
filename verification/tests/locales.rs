use cfmail::i18n::{
    get_current_locale, get_current_locale_name, get_translation, list_supported_locales,
    translate, translate_args, LocaleTable, SupportedLocale, Translations,
};

fn context() -> Translations {
    Translations {
        current: SupportedLocale::ZhCN,
        tables: vec![
            LocaleTable {
                locale: SupportedLocale::EnUS,
                entries: vec![
                    ("greet".to_string(), "Hello %{name}!".to_string()),
                    ("only_en".to_string(), "English only".to_string()),
                ],
            },
            LocaleTable {
                locale: SupportedLocale::ZhCN,
                entries: vec![("greet".to_string(), "你好 %{name}!".to_string())],
            },
        ],
    }
}

#[test]
fn locale_tags() {
    assert_eq!(SupportedLocale::EnUS.as_str(), "en-US");
    assert_eq!(SupportedLocale::ZhCN.as_str(), "zh-CN");
}

#[test]
fn locale_from_str_variants() {
    assert_eq!(SupportedLocale::from_str("en"), Some(SupportedLocale::EnUS));
    assert_eq!(SupportedLocale::from_str("EN-US"), Some(SupportedLocale::EnUS));
    assert_eq!(SupportedLocale::from_str("en_us"), Some(SupportedLocale::EnUS));
    assert_eq!(SupportedLocale::from_str("English"), Some(SupportedLocale::EnUS));
    assert_eq!(SupportedLocale::from_str("zh"), Some(SupportedLocale::ZhCN));
    assert_eq!(SupportedLocale::from_str("ZH-CN"), Some(SupportedLocale::ZhCN));
    assert_eq!(SupportedLocale::from_str("zh_cn"), Some(SupportedLocale::ZhCN));
    assert_eq!(SupportedLocale::from_str("chinese"), Some(SupportedLocale::ZhCN));
    assert_eq!(SupportedLocale::from_str("fr"), None);
}

#[test]
fn translate_uses_current_locale() {
    let ctx = context();
    assert_eq!(translate(&ctx, "greet"), "你好 %{name}!");
}

#[test]
fn translate_falls_back_to_english() {
    let ctx = context();
    assert_eq!(translate(&ctx, "only_en"), "English only");
}

#[test]
fn translate_falls_back_to_key() {
    let ctx = context();
    assert_eq!(translate(&ctx, "missing.key"), "missing.key");
    assert_eq!(get_translation(&ctx, "missing.key"), None);
}

#[test]
fn translate_args_substitutes_placeholders() {
    let ctx = context();
    let args = vec![("name".to_string(), "Bob".to_string())];
    assert_eq!(translate_args(&ctx, "greet", &args), "你好 Bob!");
}

#[test]
fn translate_args_replaces_every_occurrence() {
    let ctx = Translations {
        current: SupportedLocale::EnUS,
        tables: vec![LocaleTable {
            locale: SupportedLocale::EnUS,
            entries: vec![("twice".to_string(), "%{x} and %{x}".to_string())],
        }],
    };
    let args = vec![("x".to_string(), "ok".to_string())];
    assert_eq!(translate_args(&ctx, "twice", &args), "ok and ok");
}

#[test]
fn current_locale_and_name() {
    let ctx = context();
    assert_eq!(get_current_locale(&ctx), SupportedLocale::ZhCN);
    assert_eq!(get_current_locale_name(&ctx), "简体中文");
}

#[test]
fn supported_locales_listing() {
    let locales = list_supported_locales();
    assert_eq!(locales, vec![("en", "English"), ("zh", "简体中文")]);
}
