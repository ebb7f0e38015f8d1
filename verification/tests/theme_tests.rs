use bselect::select_theme;
use bselect::select_theme::ConsoleTheme;
use bselect::theme::{GbsTheme, StyledString};

#[test]
fn default_theme_formats_to_expected_string_given_selected_and_checked() {
    let theme = ConsoleTheme::default();

    let out = theme.format_multi_select_prompt_item("text", true, true);

    assert_eq!(out, "> [x] text");
}

#[test]
fn default_theme_formats_to_expected_string_given_selected_and_unchecked() {
    let theme = ConsoleTheme::default();

    let out = theme.format_multi_select_prompt_item("text", false, true);

    assert_eq!(out, "> [ ] text");
}

#[test]
fn default_theme_formats_to_expected_string_given_unchecked() {
    let theme = ConsoleTheme::default();

    let out = theme.format_multi_select_prompt_item("text", false, false);

    assert_eq!(out, "  [ ] text");
}

#[test]
fn default_theme_formats_to_expected_string_given_checked() {
    let theme = ConsoleTheme::default();

    let out = theme.format_multi_select_prompt_item("text", true, false);

    assert_eq!(out, "  [x] text");
}

#[test]
fn default_construction_sets_expected_defaults() {
    let style = select_theme::Style::default();

    assert_eq!(style.foreground, None);
    assert_eq!(style.background, None);
    assert!(!style.fg_bright);
    assert!(!style.bg_bright);
}

#[test]
fn default_construction_gives_expected_defaults() {
    let ss = select_theme::StyledString::default();

    assert_eq!(ss.value, "");
    assert_eq!(ss.style, select_theme::Style::default());
}

#[test]
fn writes_output_according_to_theme() {
    let theme = GbsTheme {
        name: "tester".to_string(),
        checked_item_prefix: StyledString {
            value: Some(" X ".to_string()),
            ..Default::default()
        },
        unchecked_item_prefix: StyledString {
            value: Some(" - ".to_string()),
            ..Default::default()
        },
        active_item_prefix: StyledString { value: Some(">".to_string()), ..Default::default() },
        inactive_item_prefix: StyledString { value: Some(".".to_string()), ..Default::default() },
        ..Default::default()
    };
    let mut output = String::new();

    output += &theme.format_multi_select_prompt_item("unchecked inactive", false, false);
    output += "\n";
    output += &theme.format_multi_select_prompt_item("checked inactive", true, false);
    output += "\n";
    output += &theme.format_multi_select_prompt_item("unchecked active", false, true);
    output += "\n";
    output += &theme.format_multi_select_prompt_item("checked active", true, true);

    let expected = ". -  unchecked inactive\n\
            . X  checked inactive\n\
            > -  unchecked active\n\
            > X  checked active";
    assert_eq!(output, expected);
}

#[test]
fn plain_styles_render_text_unchanged() {
    let style = bselect::theme::Style::default();

    assert_eq!(style.apply_to("some text"), "some text");
}

#[test]
fn unknown_color_names_apply_no_color() {
    assert_eq!(bselect::theme::to_color("not_a_color"), None);
    assert_eq!(select_theme::to_color("not_a_color"), None);
}

#[test]
fn color_names_map_to_palette_indices() {
    assert_eq!(bselect::theme::to_color("red"), Some(1));
    assert_eq!(bselect::theme::to_color("RED"), None);
    assert_eq!(select_theme::to_color("RED"), Some(1));
    assert_eq!(select_theme::to_color("Green"), Some(2));
    assert_eq!(select_theme::to_color("white"), Some(7));
}

#[test]
fn default_as_false_is_false() {
    assert!(!bselect::theme::default_as_false());
}

#[test]
fn default_name_is_default() {
    assert_eq!(select_theme::default_name(), "default");
}
