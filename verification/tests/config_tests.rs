use bselect::config::{BaseConfig, Config};
use bselect::select_theme::ConsoleTheme;
use bselect::settings;
use bselect::theme::{GbsTheme, Style, StyledString};

#[test]
fn default_config_uses_default_theme() {
    let config = BaseConfig::default();

    assert_eq!(config.theme, "default");
}

#[test]
fn has_one_theme_by_default() {
    let config = Config::default();

    assert_eq!(config.themes.len(), 1);
}

#[test]
fn returns_default_if_set_theme_not_found() {
    let config = Config {
        base: BaseConfig { theme: "not_a_theme".to_string() },
        themes: vec![GbsTheme::default()],
    };

    assert_eq!(config.theme(), GbsTheme::default());
}

#[test]
fn returns_theme_set_in_base() {
    let new_theme = GbsTheme {
        name: "new_theme".to_string(),
        checked_item_prefix: StyledString::default(),
        unchecked_item_prefix: StyledString::default(),
        active_item_prefix: StyledString::default(),
        inactive_item_prefix: StyledString::default(),
        active_item_style: Style::default(),
        inactive_item_style: Style::default(),
    };
    let conf = Config {
        base: BaseConfig { theme: "new_theme".to_string() },
        themes: vec![GbsTheme::default(), new_theme],
    };

    assert_eq!(conf.theme().name, "new_theme");
}

#[test]
fn default_uses_default_theme() {
    let config = BaseConfig::default();

    assert_eq!(config.theme, "default");
}

#[test]
fn settings_default_selects_default_theme() {
    let config = settings::Config::default();

    assert_eq!(config.theme, "default");
    assert_eq!(config.themes.len(), 1);
    assert_eq!(config.themes[0], ConsoleTheme::default());
}

#[test]
fn settings_theme_returns_named_theme() {
    let mut named = ConsoleTheme::default();
    named.name = "custom".to_string();
    let config = settings::Config {
        theme: "custom".to_string(),
        themes: vec![ConsoleTheme::default(), named.clone()],
    };

    assert_eq!(config.theme(), named);
}

#[test]
fn settings_theme_falls_back_to_default() {
    let config = settings::Config {
        theme: "missing".to_string(),
        themes: vec![ConsoleTheme::default()],
    };

    assert_eq!(config.theme(), ConsoleTheme::default());
}

#[test]
fn ensure_default_theme_adds_missing_default() {
    let mut named = ConsoleTheme::default();
    named.name = "custom".to_string();
    let mut themes = vec![named.clone()];

    settings::ensure_default_theme(&mut themes);

    assert_eq!(themes.len(), 2);
    assert_eq!(themes[0], named);
    assert_eq!(themes[1], ConsoleTheme::default());
}

#[test]
fn ensure_default_theme_keeps_present_default() {
    let mut themes = vec![ConsoleTheme::default()];

    settings::ensure_default_theme(&mut themes);

    assert_eq!(themes, vec![ConsoleTheme::default()]);
}
