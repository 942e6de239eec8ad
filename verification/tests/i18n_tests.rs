use audio_selector::i18n::{
    get_current_translations, language_for_locale, translations, translations_for_locale, Language,
};

#[test]
fn locale_prefix_picks_language() {
    let l = |s: Option<&str>| language_for_locale(&s.map(|x| x.to_string()));
    assert_eq!(l(Some("pt-BR")), Language::Pt);
    assert_eq!(l(Some("es_ES")), Language::Es);
    assert_eq!(l(Some("fr")), Language::Fr);
    assert_eq!(l(Some("de-AT")), Language::De);
    assert_eq!(l(Some("it-IT")), Language::It);
    assert_eq!(l(Some("zh-CN")), Language::En);
    assert_eq!(l(Some("PT")), Language::En);
    assert_eq!(l(None), Language::En);
}

#[test]
fn tables() {
    assert_eq!(translations(Language::En).title, "Audio Selector");
    assert_eq!(translations(Language::Pt).title, "Seletor de Áudio");
    assert_eq!(translations(Language::De).volume, "Lautstärke");
    assert_eq!(translations(Language::Fr).status_ready, "Prêt");
    assert_eq!(translations(Language::Es).menu_quit, "Salir");
    assert_eq!(translations(Language::It).refresh, "Aggiorna Dispositivi");
    assert_eq!(translations_for_locale(&Some("pt_PT".into())).status_applied, "Aplicado");
    let t = get_current_translations();
    assert!(!t.title.is_empty());
}

#[test]
fn connection_statuses() {
    let t = translations(Language::En);
    assert_eq!(t.connection_status(true), "Bluetooth Connected");
    assert_eq!(t.connection_status(false), "Bluetooth Connection Failed");
}
