use duja_platform::autostart::xdg_entry::{
    desktop_entry, escape_key_file, is_entry_enabled, quote_argument, quote_exec,
};

fn escaped(value: &str) -> String {
    let chars: Vec<char> = value.chars().collect();
    escape_key_file(&chars).iter().collect()
}

fn exec_line(entry: &str) -> &str {
    entry
        .lines()
        .find_map(|line| line.strip_prefix("Exec="))
        .expect("every entry has an Exec line")
}

#[test]
fn an_ordinary_path_renders_a_launchable_entry() {
    let entry = desktop_entry("/usr/local/bin/duja");

    assert!(entry.starts_with("[Desktop Entry]\n"));
    assert!(entry.contains("\nType=Application\n"));
    assert!(entry.contains("\nName=Duja\n"));
    assert!(entry.contains("\nTerminal=false\n"));
    assert_eq!(exec_line(&entry), "\"/usr/local/bin/duja\"");
    assert!(entry.ends_with('\n'));
}

#[test]
fn a_path_with_a_space_stays_one_argument() {
    let entry = desktop_entry("/home/ana/My Apps/duja");

    assert_eq!(exec_line(&entry), "\"/home/ana/My Apps/duja\"");
}

#[test]
fn the_reserved_characters_are_escaped_through_both_levels() {
    let entry = desktop_entry(r#"/opt/a$b`c\d"e/duja"#);

    assert_eq!(exec_line(&entry), r#""/opt/a\\$b\\`c\\\\d\\"e/duja""#);
}

#[test]
fn a_percent_in_the_path_is_doubled_so_it_is_not_a_field_code() {
    let entry = desktop_entry("/opt/100%fun/duja");

    assert_eq!(exec_line(&entry), r#""/opt/100%%fun/duja""#);
}

#[test]
fn a_trailing_backslash_survives_both_levels() {
    let entry = desktop_entry(r"/opt/odd\");

    assert_eq!(exec_line(&entry), r#""/opt/odd\\\\""#);
}

#[test]
fn control_characters_become_key_file_escapes() {
    assert_eq!(escaped("a\nb"), r"a\nb");
    assert_eq!(escaped("a\tb"), r"a\tb");
    assert_eq!(escaped("a\rb"), r"a\rb");
}

#[test]
fn quoting_is_unconditional() {
    assert_eq!(quote_exec("/usr/bin/duja"), "\"/usr/bin/duja\"");
    assert_eq!(quote_exec(""), "\"\"");
}

#[test]
fn an_entry_a_desktop_disabled_reads_as_disabled() {
    let base = desktop_entry("/usr/bin/duja");
    assert!(
        is_entry_enabled(&base),
        "a freshly written entry is enabled"
    );

    let tweaked = base.replace(
        "X-GNOME-Autostart-enabled=true",
        "X-GNOME-Autostart-enabled=false",
    );
    assert!(!is_entry_enabled(&tweaked));

    assert!(!is_entry_enabled(&format!(
        "{base}Hidden=true
"
    )));
}

#[test]
fn an_entry_with_neither_key_is_enabled() {
    assert!(is_entry_enabled(
        "[Desktop Entry]
Type=Application
Name=Duja
Exec=/usr/bin/duja
"
    ));
    assert!(is_entry_enabled(""));
}

#[test]
fn the_disabling_values_are_matched_loosely() {
    for line in [
        "Hidden=true",
        "Hidden = TRUE ",
        "Hidden=True",
        "X-GNOME-Autostart-enabled=false",
        "X-GNOME-Autostart-enabled = FALSE",
    ] {
        assert!(
            !is_entry_enabled(&format!(
                "[Desktop Entry]
{line}
"
            )),
            "{line}"
        );
    }
    assert!(is_entry_enabled(
        "Hidden=false
X-GNOME-Autostart-enabled=true
"
    ));
}

#[test]
fn the_gnome_enabled_key_is_written_rather_than_left_to_default() {
    let entry = desktop_entry("/usr/bin/duja");

    assert!(entry.contains("\nX-GNOME-Autostart-enabled=true\n"));
}

#[test]
fn every_line_is_a_group_header_or_a_key_value_pair() {
    let entry = desktop_entry("/usr/bin/duja");

    let mut lines = entry.lines();
    assert_eq!(lines.next(), Some("[Desktop Entry]"));
    for line in lines {
        assert!(
            line.contains('=') && !line.starts_with('='),
            "not a key-value line: {line:?}"
        );
    }
}

#[test]
fn the_argument_level_alone_quotes_and_escapes() {
    let chars: Vec<char> = r#"a"b$c%"#.chars().collect();
    let quoted: String = quote_argument(&chars).iter().collect();
    assert_eq!(quoted, r#""a\"b\$c%%""#);
}

#[test]
fn a_path_with_a_newline_stays_on_one_line() {
    let value = quote_exec("/opt/a\nHidden=true\nb/duja");
    assert_eq!(value, r#""/opt/a\nHidden=true\nb/duja""#);
    assert!(is_entry_enabled(&desktop_entry("/opt/a\nHidden=true\nb/duja")));
}
