use delta::color::{ansi256_from_rgb, to_ansi_color, Rgba};
use delta::config::{
    colorterm_indicates_true_color, make_git_config_keys_for_delta, opt_or_default,
    resolve_decorations_width, Width,
};
use delta::style::AnsiColor;

#[test]
fn git_config_keys_prefer_the_theme_section() {
    assert_eq!(
        make_git_config_keys_for_delta("minus-style", Some("ocean")),
        vec!["delta.ocean.minus-style".to_string(), "delta.minus-style".to_string()]
    );
    assert_eq!(
        make_git_config_keys_for_delta("minus-style", None),
        vec!["delta.minus-style".to_string()]
    );
}

#[test]
fn colorterm_values_announce_true_color() {
    assert!(colorterm_indicates_true_color("truecolor"));
    assert!(colorterm_indicates_true_color("24bit"));
    assert!(!colorterm_indicates_true_color("256color"));
    assert!(!colorterm_indicates_true_color(""));
}

#[test]
fn empty_options_fall_back_to_their_default() {
    assert_eq!(opt_or_default("", "blue"), "blue");
    assert_eq!(opt_or_default("red", "blue"), "red");
}

#[test]
fn fixed_width_is_clipped_below_the_terminal_width() {
    assert_eq!(
        resolve_decorations_width(Some(120), false, 80),
        (Width::Fixed(79), true)
    );
    assert_eq!(
        resolve_decorations_width(Some(40), false, 80),
        (Width::Fixed(40), true)
    );
    assert_eq!(
        resolve_decorations_width(None, false, 80),
        (Width::Fixed(79), true)
    );
    assert_eq!(
        resolve_decorations_width(Some(120), true, 80),
        (Width::Variable, false)
    );
}

#[test]
fn true_color_passes_rgb_through() {
    assert_eq!(
        to_ansi_color(Rgba { r: 1, g: 2, b: 3, a: 0xff }, true),
        AnsiColor::Rgb(1, 2, 3)
    );
}

#[test]
fn zero_alpha_names_a_palette_entry() {
    assert_eq!(to_ansi_color(Rgba { r: 0, g: 0, b: 0, a: 0 }, true), AnsiColor::Black);
    assert_eq!(to_ansi_color(Rgba { r: 1, g: 0, b: 0, a: 0 }, true), AnsiColor::Red);
    assert_eq!(to_ansi_color(Rgba { r: 5, g: 0, b: 0, a: 0 }, true), AnsiColor::Purple);
    assert_eq!(
        to_ansi_color(Rgba { r: 42, g: 0, b: 0, a: 0 }, false),
        AnsiColor::Fixed(42)
    );
}

#[test]
fn reduced_palette_maps_to_the_color_cube_and_gray_ramp() {
    assert_eq!(
        to_ansi_color(Rgba { r: 255, g: 0, b: 0, a: 0xff }, false),
        AnsiColor::Fixed(196)
    );
    assert_eq!(ansi256_from_rgb(0, 0, 0), 16);
    assert_eq!(ansi256_from_rgb(255, 255, 255), 231);
    assert_eq!(ansi256_from_rgb(128, 128, 128), 244);
    assert_eq!(ansi256_from_rgb(255, 0, 0), 196);
    assert_eq!(ansi256_from_rgb(0, 255, 0), 46);
    assert_eq!(ansi256_from_rgb(0, 0, 255), 21);
}
