use saraf_kvs::theme::initial_theme;
use saraf_kvs::theme::theme_key;
use saraf_kvs::theme::theme_name;
use saraf_kvs::theme::ThemeMode;

#[test]
fn missing_or_unknown_theme_falls_back_to_light() {
    assert_eq!(initial_theme(None), ThemeMode::Light);
    let other = String::from("blue");
    assert_eq!(initial_theme(Some(&other)), ThemeMode::Light);
    let quoted = String::from("\"dark\"");
    assert_eq!(initial_theme(Some(&quoted)), ThemeMode::Light);
}

#[test]
fn stored_dark_selects_the_dark_theme() {
    let dark = String::from("dark");
    assert_eq!(initial_theme(Some(&dark)), ThemeMode::Dark);
}

#[test]
fn theme_names_round_trip() {
    for mode in [ThemeMode::Dark, ThemeMode::Light] {
        let name = String::from(theme_name(mode));
        assert_eq!(initial_theme(Some(&name)), mode);
    }
}

#[test]
fn theme_is_stored_under_its_fixed_key() {
    assert_eq!(theme_key(), "theme-name");
    assert_eq!(theme_name(ThemeMode::Dark), "dark");
    assert_eq!(theme_name(ThemeMode::Light), "light");
}
