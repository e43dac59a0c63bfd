use kifetch::config::{Config, GeneralConfig, LayoutConfig, ModulesConfig, Palette};
use kifetch::modules::SystemInfo;
use kifetch::render::{ansi_code, render_output, render_template, resolve_placeholder};

fn config(colors: &[(&str, &str)], separator: &str, padding: usize, lines: &[&str]) -> Config {
    let mut palette = Palette::new();
    for (name, keyword) in colors {
        palette.insert(name.to_string(), keyword.to_string());
    }
    Config {
        general: GeneralConfig {
            logo: "linux".to_string(),
            logo_path: None,
            separator: separator.to_string(),
            padding,
        },
        colors: palette,
        modules: ModulesConfig { enabled: Vec::new(), custom: Vec::new() },
        layout: LayoutConfig { lines: lines.iter().map(|line| line.to_string()).collect() },
    }
}

fn facts(entries: &[(&str, &str)]) -> SystemInfo {
    let mut info = SystemInfo::new();
    for (key, value) in entries {
        info.insert(key.to_string(), value.to_string());
    }
    info
}

#[test]
fn end_to_end_scenario() {
    let config = config(
        &[("color_1", "bright_red"), ("color_reset", "reset")],
        ": ",
        2,
        &["{color_1}{os_name}{color_reset}"],
    );
    let info = facts(&[("os_name", "TestOS")]);
    let logo = vec!["AAA".to_string(), "BBB".to_string()];
    let rows = render_output(&logo, &config, &info);
    assert_eq!(rows, vec!["AAA  \x1b[91mTestOS\x1b[0m".to_string(), "BBB".to_string()]);
}

#[test]
fn separator_substitution() {
    let config = config(&[], ": ", 2, &[]);
    let info = facts(&[("kernel_version", "6.1.0")]);
    assert_eq!(
        render_template("Kernel{separator}{kernel_version}", &config, &info),
        "Kernel: 6.1.0"
    );
}

#[test]
fn color_precedes_fact() {
    let config = config(&[("color_1", "bright_red")], ": ", 2, &[]);
    let info = facts(&[("color_1", "not a color")]);
    assert_eq!(render_template("{color_1}", &config, &info), "\x1b[91m");
}

#[test]
fn unrecognized_color_keyword_stays_as_written() {
    let config = config(&[("color_1", "ultraviolet")], ": ", 2, &[]);
    let info = SystemInfo::new();
    assert_eq!(render_template("a{color_1}b", &config, &info), "a{color_1}b");
}

#[test]
fn unrecognized_color_keyword_hides_fact_and_separator() {
    let config = config(&[("color_1", "ultraviolet"), ("separator", "nothing")], ": ", 2, &[]);
    let info = facts(&[("color_1", "fact")]);
    assert_eq!(render_template("{color_1}{separator}", &config, &info), "{color_1}{separator}");
}

#[test]
fn unknown_placeholder_stays_as_written() {
    let config = config(&[("color_1", "bright_red")], ": ", 2, &[]);
    let info = facts(&[("os_name", "TestOS")]);
    let line = render_template("{os_name} {unknown_token} end", &config, &info);
    assert_eq!(line, "TestOS {unknown_token} end");
    assert!(line.contains("{unknown_token}"));
}

#[test]
fn fact_precedes_separator() {
    let config = config(&[], ": ", 2, &[]);
    let info = facts(&[("separator", " = ")]);
    assert_eq!(render_template("a{separator}b", &config, &info), "a = b");
}

#[test]
fn substituted_value_is_not_expanded_again() {
    let config = config(&[], ": ", 2, &[]);
    let info = facts(&[("outer", "{inner}"), ("inner", "deep")]);
    assert_eq!(render_template("{outer}", &config, &info), "{inner}");
    assert_eq!(render_template("{outer}{inner}", &config, &info), "{inner}deep");
}

#[test]
fn text_that_is_no_placeholder_is_kept() {
    let config = config(&[], ": ", 2, &[]);
    let info = facts(&[("a", "1"), ("b", "2")]);
    assert_eq!(render_template("", &config, &info), "");
    assert_eq!(render_template("plain", &config, &info), "plain");
    assert_eq!(render_template("{}", &config, &info), "{}");
    assert_eq!(render_template("{a b}", &config, &info), "{a b}");
    assert_eq!(render_template("{a-b}", &config, &info), "{a-b}");
    assert_eq!(render_template("{a", &config, &info), "{a");
    assert_eq!(render_template("a}", &config, &info), "a}");
    assert_eq!(render_template("{{a}}", &config, &info), "{1}");
    assert_eq!(render_template("{a{b}", &config, &info), "{a2");
    assert_eq!(render_template("{a}{b}{a}", &config, &info), "121");
}

#[test]
fn names_hold_letters_digits_and_underscores() {
    let config = config(&[], ": ", 2, &[]);
    let info = facts(&[("Az_09", "ok"), ("\u{e9}", "no")]);
    assert_eq!(render_template("{Az_09}", &config, &info), "ok");
    assert_eq!(render_template("{\u{e9}}", &config, &info), "{\u{e9}}");
}

#[test]
fn text_beyond_ascii_is_kept_around_placeholders() {
    let config = config(&[], " \u{2192} ", 2, &[]);
    let info = facts(&[("city", "K\u{f6}ln")]);
    assert_eq!(
        render_template("\u{65e5}\u{672c}{separator}{city}\u{1f600}{nope}\u{e9}", &config, &info),
        "\u{65e5}\u{672c} \u{2192} K\u{f6}ln\u{1f600}{nope}\u{e9}"
    );
}

#[test]
fn resolve_placeholder_follows_the_precedence() {
    let config = config(&[("c", "bold"), ("bad", "none")], "|", 0, &[]);
    let info = facts(&[("c", "fact"), ("f", "value")]);
    assert_eq!(resolve_placeholder("c", &config, &info), "\x1b[1m");
    assert_eq!(resolve_placeholder("bad", &config, &info), "{bad}");
    assert_eq!(resolve_placeholder("f", &config, &info), "value");
    assert_eq!(resolve_placeholder("separator", &config, &info), "|");
    assert_eq!(resolve_placeholder("other", &config, &info), "{other}");
}

#[test]
fn every_color_keyword_has_its_sequence() {
    let table = [
        ("black", "\x1b[30m"),
        ("red", "\x1b[31m"),
        ("green", "\x1b[32m"),
        ("yellow", "\x1b[33m"),
        ("blue", "\x1b[34m"),
        ("magenta", "\x1b[35m"),
        ("cyan", "\x1b[36m"),
        ("white", "\x1b[37m"),
        ("bright_black", "\x1b[90m"),
        ("bright_red", "\x1b[91m"),
        ("bright_green", "\x1b[92m"),
        ("bright_yellow", "\x1b[93m"),
        ("bright_blue", "\x1b[94m"),
        ("bright_magenta", "\x1b[95m"),
        ("bright_cyan", "\x1b[96m"),
        ("bright_white", "\x1b[97m"),
        ("reset", "\x1b[0m"),
        ("bold", "\x1b[1m"),
        ("dim", "\x1b[2m"),
        ("italic", "\x1b[3m"),
        ("underline", "\x1b[4m"),
        ("blink", "\x1b[5m"),
        ("reverse", "\x1b[7m"),
        ("hidden", "\x1b[8m"),
    ];
    for (keyword, sequence) in table {
        assert_eq!(ansi_code(keyword), Some(sequence));
    }
    assert_eq!(ansi_code("Red"), None);
    assert_eq!(ansi_code(""), None);
    assert_eq!(ansi_code("bright"), None);
}

#[test]
fn layout_longer_than_logo_is_filled_with_blanks() {
    let config = config(&[], ": ", 1, &["one", "two", "three"]);
    let info = SystemInfo::new();
    let logo = vec!["##".to_string()];
    let rows = render_output(&logo, &config, &info);
    assert_eq!(rows, vec!["## one".to_string(), "   two".to_string(), "   three".to_string()]);
}

#[test]
fn layout_without_logo_has_only_the_padding() {
    let config = config(&[], ": ", 3, &["one", "two"]);
    let info = SystemInfo::new();
    let logo: Vec<String> = Vec::new();
    let rows = render_output(&logo, &config, &info);
    assert_eq!(rows, vec!["   one".to_string(), "   two".to_string()]);
}

#[test]
fn logo_longer_than_layout_ends_alone() {
    let config = config(&[], ": ", 0, &["x"]);
    let info = SystemInfo::new();
    let logo = vec!["a".to_string(), "b".to_string(), "c".to_string()];
    let rows = render_output(&logo, &config, &info);
    assert_eq!(rows, vec!["ax".to_string(), "b".to_string(), "c".to_string()]);
}

#[test]
fn nothing_to_render_gives_no_rows() {
    let config = config(&[], ": ", 2, &[]);
    let info = SystemInfo::new();
    let logo: Vec<String> = Vec::new();
    assert_eq!(render_output(&logo, &config, &info), Vec::<String>::new());
}

#[test]
fn filler_has_the_width_of_the_first_logo_line_in_characters() {
    let config = config(&[], ": ", 0, &["a", "b"]);
    let info = SystemInfo::new();
    let logo = vec!["\u{2588}\u{2588}\u{2588}".to_string()];
    let rows = render_output(&logo, &config, &info);
    assert_eq!(rows, vec!["\u{2588}\u{2588}\u{2588}a".to_string(), "   b".to_string()]);
}
