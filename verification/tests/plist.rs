use duja_platform::autostart::plist::{
    generate_plist, parse_program_argument0, plist_file_name, xml_escape, xml_unescape, LABEL,
};

#[test]
fn file_name_is_label_dot_plist() {
    assert_eq!(plist_file_name(), "io.github.itabajah.duja.plist");
    assert_eq!(LABEL, "io.github.itabajah.duja");
}

#[test]
fn generated_plist_has_the_required_keys() {
    let plist = generate_plist("/Applications/Duja.app/Contents/MacOS/duja");
    assert!(plist.contains("<key>Label</key>"));
    assert!(plist.contains("<string>io.github.itabajah.duja</string>"));
    assert!(plist.contains("<key>ProgramArguments</key>"));
    assert!(plist.contains("<key>RunAtLoad</key>"));
    assert!(plist.contains("<true/>"));
    assert!(plist.contains("<key>LimitLoadToSessionType</key>"));
    assert!(plist.contains("<string>Aqua</string>"));
}

#[test]
fn generate_then_parse_round_trips_the_exe_path() {
    let exe = "/Users/me/Applications/Duja.app/Contents/MacOS/duja";
    let plist = generate_plist(exe);
    assert_eq!(
        parse_program_argument0(&plist).as_deref(),
        Some("/Users/me/Applications/Duja.app/Contents/MacOS/duja")
    );
}

#[test]
fn special_characters_in_the_path_round_trip() {
    let exe = "/Users/a&b/<duja> app/duja";
    let plist = generate_plist(exe);
    assert!(plist.contains("/Users/a&amp;b/&lt;duja&gt; app/duja"));
    assert!(!plist.contains("<duja>"));
    assert_eq!(
        parse_program_argument0(&plist).as_deref(),
        Some("/Users/a&b/<duja> app/duja")
    );
}

#[test]
fn parse_returns_none_without_program_arguments() {
    let plist = "<?xml version=\"1.0\"?>\n<plist><dict>\
         <key>Label</key><string>io.github.itabajah.duja</string></dict></plist>";
    assert_eq!(parse_program_argument0(plist), None);
}

#[test]
fn parse_returns_none_on_empty_input() {
    assert_eq!(parse_program_argument0(""), None);
}

#[test]
fn parse_reads_a_hand_written_plist_layout() {
    let plist = "<plist version=\"1.0\"><dict>\n\
        <key>ProgramArguments</key>\n<array>\n\
        <string>/opt/duja/bin/duja</string>\n<string>--tray</string>\n</array>\n\
        <key>RunAtLoad</key><true/></dict></plist>";
    assert_eq!(
        parse_program_argument0(plist).as_deref(),
        Some("/opt/duja/bin/duja")
    );
}

fn chars(s: &str) -> Vec<char> {
    s.chars().collect()
}

fn text(chars: &[char]) -> String {
    chars.iter().collect()
}

#[test]
fn escaping_and_unescaping_are_exact() {
    assert_eq!(text(&xml_escape(&chars("a<b>&c"))), "a&lt;b&gt;&amp;c");
    assert_eq!(text(&xml_unescape(&chars("a&lt;b&gt;&amp;c"))), "a<b>&c");
    assert_eq!(text(&xml_unescape(&chars("&amp;lt;"))), "&lt;");
    let hard = "&amp; &lt; <>&&;";
    assert_eq!(text(&xml_unescape(&xml_escape(&chars(hard)))), hard);
}

#[test]
fn a_path_that_looks_like_markup_round_trips() {
    let exe = "/x/<key>ProgramArguments</key><array></string>&amp;/duja";
    assert_eq!(
        parse_program_argument0(&generate_plist(exe)).as_deref(),
        Some(exe)
    );
}
