use atc_book::i18n::{
    detect_language, get_language, language_setting_value, parse_language_setting, set_language,
    tr, AppLanguage, LanguageSetting,
};
use atc_book::state::{
    get_night_mode, get_theme_mode, night_mode_with, parse_theme_mode_setting, resolve_night_mode,
    set_theme_mode, theme_mode_setting_value, SystemTheme, ThemeMode, ThemeModeSetting,
};

#[test]
fn translations() {
    assert_eq!(tr(AppLanguage::Fr, "title.app"), "GESTIONNAIRE DE DOCUMENTS");
    assert_eq!(tr(AppLanguage::Uk, "title.app"), "DOCUMENT MANAGER");
    assert_eq!(tr(AppLanguage::Fr, "settings.theme.auto_time"), "Selon l'heure locale");
    assert_eq!(tr(AppLanguage::Uk, "settings.theme.auto_system"), "Follow system setting");
    assert_eq!(tr(AppLanguage::Uk, "notes.paragraph"), "Normal paragraph");
    assert_eq!(tr(AppLanguage::Fr, "no.such.key"), "no.such.key");
}

#[test]
fn language_from_locale() {
    assert_eq!(detect_language("fr_FR.UTF-8"), AppLanguage::Fr);
    assert_eq!(detect_language("FR"), AppLanguage::Fr);
    assert_eq!(detect_language("en_GB.UTF-8"), AppLanguage::Uk);
    assert_eq!(detect_language(""), AppLanguage::Fr);
}

#[test]
fn language_preference_read_and_write() {
    let mut s = LanguageSetting::new();
    assert_eq!(get_language(&mut s, "fr_FR"), AppLanguage::Fr);
    assert_eq!(get_language(&mut s, "en_US"), AppLanguage::Fr);
    set_language(&mut s, AppLanguage::Uk);
    assert_eq!(get_language(&mut s, "fr_FR"), AppLanguage::Uk);
}

#[test]
fn stored_language_values() {
    assert_eq!(language_setting_value(AppLanguage::Fr), "fr");
    assert_eq!(language_setting_value(AppLanguage::Uk), "uk");
    for l in [AppLanguage::Fr, AppLanguage::Uk] {
        assert_eq!(parse_language_setting(language_setting_value(l)), Some(l));
    }
    assert_eq!(parse_language_setting("en"), None);
    assert_eq!(parse_language_setting("FR"), None);
}

#[test]
fn theme_preference_read_and_write() {
    let mut s = ThemeModeSetting::new();
    assert_eq!(get_theme_mode(&mut s), ThemeMode::AutoTime);
    set_theme_mode(&mut s, ThemeMode::Dark);
    assert_eq!(get_theme_mode(&mut s), ThemeMode::Dark);
    assert!(get_night_mode(&mut s));
    set_theme_mode(&mut s, ThemeMode::Light);
    assert!(!get_night_mode(&mut s));
}

#[test]
fn stored_theme_values() {
    for m in [ThemeMode::Light, ThemeMode::Dark, ThemeMode::AutoTime, ThemeMode::AutoSystem] {
        assert_eq!(parse_theme_mode_setting(theme_mode_setting_value(m)), Some(m));
    }
    assert_eq!(theme_mode_setting_value(ThemeMode::AutoSystem), "auto_system");
    assert_eq!(parse_theme_mode_setting("auto"), None);
}

#[test]
fn night_mode_rules() {
    assert!(night_mode_with(ThemeMode::AutoTime, 21, SystemTheme::Unspecified));
    assert!(night_mode_with(ThemeMode::AutoTime, 6, SystemTheme::Light));
    assert!(!night_mode_with(ThemeMode::AutoTime, 7, SystemTheme::Dark));
    assert!(!night_mode_with(ThemeMode::AutoTime, 19, SystemTheme::Dark));
    assert!(night_mode_with(ThemeMode::AutoSystem, 12, SystemTheme::Dark));
    assert!(!night_mode_with(ThemeMode::AutoSystem, 23, SystemTheme::Light));
    assert!(night_mode_with(ThemeMode::AutoSystem, 23, SystemTheme::Unspecified));
    assert!(!resolve_night_mode(ThemeMode::Light));
    assert!(resolve_night_mode(ThemeMode::Dark));
}
