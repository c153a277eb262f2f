use ccusage_tray::debug_report::{
    debug_console_text, debug_dialog_script, debug_probes, debug_report, probe_line_text,
    report_header_text, ProbeOutcome,
};
use ccusage_tray::text::{escape_quotes_and_newlines, is_white_space_char, str_starts_with, trim_text};

const WIDE_PATH: &str = "PATH=/usr/local/bin:/opt/homebrew/bin:/usr/bin:/bin:$HOME/.npm/bin:$HOME/.nvm/versions/node/*/bin:$HOME/.volta/bin:$PATH";

#[test]
fn trimming_drops_surrounding_white_space() {
    assert_eq!(trim_text("  /usr/bin/npx \n"), "/usr/bin/npx");
    assert_eq!(trim_text("\t\r\n "), "");
    assert_eq!(trim_text(""), "");
    assert_eq!(trim_text("a b"), "a b");
    assert_eq!(trim_text("\u{3000}x\u{a0}"), "x");
}

#[test]
fn escaping_quotes_and_line_breaks() {
    assert_eq!(escape_quotes_and_newlines("say \"hi\"\nbye"), "say \\\"hi\\\"\\nbye");
    assert_eq!(escape_quotes_and_newlines("plain"), "plain");
    let escaped = escape_quotes_and_newlines("\"\n\"");
    assert!(!escaped.contains('\n'));
    assert_eq!(escaped, "\\\"\\n\\\"");
}

#[test]
fn probes_are_listed_in_order() {
    let probes = debug_probes();
    assert!(probes.iter().all(|p| p.program == "sh" && p.args.len() == 2 && p.args[0] == "-c"));
    let listed: Vec<(String, String)> =
        probes.into_iter().map(|p| (p.args[1].clone(), p.description)).collect();
    assert_eq!(
        listed,
        vec![
            (format!("{} which npx", WIDE_PATH), "npx location".to_string()),
            (format!("{} which node", WIDE_PATH), "node location".to_string()),
            (format!("{} which ccusage", WIDE_PATH), "ccusage location".to_string()),
            (format!("{} npx --version", WIDE_PATH), "npx version".to_string()),
            (format!("{} node --version", WIDE_PATH), "node version".to_string()),
            (
                format!("{} ccusage --version 2>&1 || echo 'not found'", WIDE_PATH),
                "ccusage version".to_string()
            ),
        ]
    );
}

#[test]
fn header_names_the_path() {
    assert_eq!(
        report_header_text(Some("/bin")),
        format!(
            "Environment:\nDefault PATH: /bin\nExtended PATH used: {}\n\nCommand availability (with extended PATH):\n",
            WIDE_PATH
        )
    );
    assert_eq!(
        report_header_text(None),
        format!(
            "Environment:\nDefault PATH: (not set)\nExtended PATH used: {}\n\nCommand availability (with extended PATH):\n",
            WIDE_PATH
        )
    );
}

#[test]
fn probe_lines_for_each_outcome() {
    assert_eq!(
        probe_line_text("npx version", &ProbeOutcome::Succeeded(" 10.2.0\n".to_string())),
        "npx version: 10.2.0\n"
    );
    assert_eq!(
        probe_line_text("node location", &ProbeOutcome::Failed("  \n".to_string())),
        "node location: not found\n"
    );
    assert_eq!(
        probe_line_text("node location", &ProbeOutcome::Failed("sh: bad\n".to_string())),
        "node location: sh: bad\n"
    );
    assert_eq!(
        probe_line_text("npx location", &ProbeOutcome::NotRun("No such file".to_string())),
        "npx location: error - No such file\n"
    );
}

#[test]
fn whole_report_joins_header_and_lines() {
    let outcomes = vec![
        ProbeOutcome::Succeeded("/usr/bin/npx\n".to_string()),
        ProbeOutcome::Failed(String::new()),
        ProbeOutcome::Failed("missing".to_string()),
        ProbeOutcome::Succeeded("10.0.0".to_string()),
        ProbeOutcome::NotRun("denied".to_string()),
        ProbeOutcome::Succeeded("not found\n".to_string()),
    ];
    let report = debug_report(Some("/bin"), &outcomes);
    let expected = format!(
        "{}npx location: /usr/bin/npx\nnode location: not found\nccusage location: missing\nnpx version: 10.0.0\nnode version: error - denied\nccusage version: not found\n",
        report_header_text(Some("/bin"))
    );
    assert_eq!(report, expected);
}

#[test]
fn dialog_script_and_console_frame() {
    assert_eq!(
        debug_dialog_script("a \"b\"\nc"),
        "display dialog \"a \\\"b\\\"\\nc\" buttons {\"OK\"} default button \"OK\" with title \"CCUsage Debug Info\""
    );
    assert_eq!(
        debug_console_text("info"),
        "=== DEBUG INFO ===\ninfo\n=================="
    );
}

#[test]
fn white_space_is_the_unicode_set() {
    for c in ['\t', '\n', '\u{b}', '\u{c}', '\r', ' ', '\u{85}', '\u{a0}', '\u{1680}', '\u{2000}', '\u{200a}', '\u{2028}', '\u{2029}', '\u{202f}', '\u{205f}', '\u{3000}'] {
        assert!(is_white_space_char(c));
        assert!(c.is_whitespace());
    }
    for c in ['a', '0', '\u{200b}', '\u{feff}', '\u{8}', '\u{e}', '\u{180e}'] {
        assert!(!is_white_space_char(c));
        assert!(!c.is_whitespace());
    }
}

#[test]
fn prefix_test_compares_characters() {
    assert!(str_starts_with("2024-03-07", "2024-03"));
    assert!(str_starts_with("2024-03", ""));
    assert!(!str_starts_with("2024-3", "2024-03"));
    assert!(!str_starts_with("20", "2024"));
    assert!(str_starts_with("é1", "é"));
}
