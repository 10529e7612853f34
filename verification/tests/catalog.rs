use tracing_eventlog::fold::{fold, unquote};
use tracing_eventlog::catalog::{
    category_of_key, get_category, severity_info, supported_types, total_category_count,
    MessageType, Severity, CATEGORY_COUNT, DATABASE_EVENTS_CATEGORY, MSG_DEBUG, MSG_ERROR,
    MSG_INFO, MSG_TRACE, MSG_WARNING, NETWORK_EVENTS_CATEGORY, UI_EVENTS_CATEGORY,
};

fn quoted(label: &str) -> String {
    format!("{:?}", label)
}

/// The category of an event whose field is rendered as `label`.
fn event_category(label: &str) -> u16 {
    category_of_key(&fold(label))
}

/// Taking the rendering off, written with the standard library alone.
fn unrendered(label: &str) -> String {
    let outer = label.trim();
    let inner = match outer.strip_prefix('"').and_then(|rest| rest.strip_suffix('"')) {
        Some(inner) => inner,
        None => outer,
    };
    inner.trim().to_string()
}

const WHITE_SPACE: [char; 25] = [
    '\u{9}', '\u{a}', '\u{b}', '\u{c}', '\u{d}', ' ', '\u{85}', '\u{a0}', '\u{1680}',
    '\u{2000}', '\u{2001}', '\u{2002}', '\u{2003}', '\u{2004}', '\u{2005}', '\u{2006}',
    '\u{2007}', '\u{2008}', '\u{2009}', '\u{200a}', '\u{2028}', '\u{2029}', '\u{202f}',
    '\u{205f}', '\u{3000}',
];

#[test]
fn category_of_each_known_name() {
    assert_eq!(get_category("Database Events".to_string()), DATABASE_EVENTS_CATEGORY);
    assert_eq!(get_category("Network Events".to_string()), NETWORK_EVENTS_CATEGORY);
    assert_eq!(get_category("UI Events".to_string()), UI_EVENTS_CATEGORY);
    assert_eq!(get_category("Database Events".to_string()), 1);
    assert_eq!(get_category("Network Events".to_string()), 2);
    assert_eq!(get_category("UI Events".to_string()), 3);
    assert_eq!(get_category("network events".to_string()), 2);
}

#[test]
fn category_ignores_case_and_surrounding_space() {
    assert_eq!(get_category("  NETWORK events\t\n".to_string()), 2);
    assert_eq!(get_category("\r\n\x0b\x0c ui EVENTS".to_string()), 3);
    assert_eq!(get_category("database events".to_string()), 1);
    assert_eq!(get_category("  DataBase EVENTS\n".to_string()), 1);
}

#[test]
fn category_of_unknown_label_is_zero() {
    assert_eq!(get_category(String::new()), 0);
    assert_eq!(get_category("   ".to_string()), 0);
    assert_eq!(get_category("Printer Events".to_string()), 0);
    assert_eq!(get_category("network  events".to_string()), 0);
    assert_eq!(get_category("network events x".to_string()), 0);
    assert_eq!(get_category("networkevents".to_string()), 0);
    assert_eq!(get_category("'ui events'".to_string()), 0);
}

#[test]
fn label_between_quotes_is_no_name() {
    assert_eq!(get_category("\"network events\"".to_string()), 0);
    assert_eq!(get_category(quoted("Network Events")), 0);
    assert_eq!(get_category("\" network events \"".to_string()), 0);
    assert_eq!(get_category("\"  UI EVENTS \"".to_string()), 0);
    assert_eq!(get_category("  \"Database Events\"  ".to_string()), 0);
    assert_eq!(get_category("\"ui events".to_string()), 0);
    assert_eq!(get_category("\"\"".to_string()), 0);
}

#[test]
fn labels_with_one_code_name_one_category() {
    let labels = [
        "network events",
        " Network Events ",
        "\"network events\"",
        "\" network events \"",
        "UI EVENTS",
        "ui events\n",
        "\"ui events\"",
        "database events",
        "Printer Events",
        "",
    ];
    for one in labels {
        for other in labels {
            let code = get_category(one.to_string());
            if code != 0 && code == get_category(other.to_string()) {
                assert_eq!(one.trim().to_lowercase(), other.trim().to_lowercase());
            }
        }
    }
}

#[test]
fn category_resolves_as_its_folded_form() {
    let labels = [
        "Network Events",
        "  UI EVENTS  ",
        "\tDatabase Events\n",
        "\u{a0}Ui Events\u{2003}",
        "networ\u{212a} events",
        "\u{2028}NETWOR\u{212a} EVENTS",
    ];
    for label in labels {
        let code = get_category(label.to_string());
        assert_ne!(code, 0);
        assert_eq!(code, get_category(label.trim().to_lowercase()));
        assert_eq!(code, category_of_key(&label.trim().to_lowercase()));
    }
}

#[test]
fn category_is_that_of_the_trimmed_label_in_lower_case() {
    let labels = [
        "",
        " ",
        "Printer Events",
        " \"Printer Events\" ",
        "\"\"UI Events\"\"",
        " \t\"Network EVENTS\"\r\n",
        " \tNetwork EVENTS\r\n",
        "\x0bdatabase events\x0c",
        "\x1cui events\x1f",
        "ui events\x00",
        "Aui eventsZ",
        "UI\tEvents",
        "UI EVENTS\"",
        "Straße ",
        "\u{a0}ΟΔΟΣ",
    ];
    for label in labels {
        let again = label.trim().to_lowercase();
        assert_eq!(get_category(label.to_string()), get_category(again.clone()), "label {:?}", label);
        assert_eq!(get_category(label.to_string()), category_of_key(&again), "label {:?}", label);
    }
}

#[test]
fn category_folds_every_ascii_character_as_written() {
    let names = ["database events", "Network Events", "UI EVENTS"];
    for code in 0u8..128 {
        let c = code as char;
        for name in names {
            let labels = [
                format!("{c}{name}"),
                format!("{name}{c}"),
                format!("{c}{name}{c}"),
                format!("{c}\"{name}\"{c}"),
                format!("\"{c}{name}{c}\""),
                name.replace(' ', &c.to_string()),
                name.replace('e', &c.to_string()),
                format!("{c}"),
            ];
            for label in labels {
                let expected = category_of_key(&label.trim().to_lowercase());
                assert_eq!(get_category(label.clone()), expected, "label {:?}", label);
                let rendered = category_of_key(&unrendered(&label).to_lowercase());
                assert_eq!(event_category(&label), rendered, "label {:?}", label);
            }
        }
        // Around a name only white space is taken off.
        let around = get_category(format!("{c}ui events{c}"));
        assert_eq!(around == 3, matches!(code, 9..=13 | 32), "character {:?}", c);
        let inside = get_category(format!("u{c} events"));
        assert_eq!(inside == 3, c == 'i' || c == 'I', "character {:?}", c);
    }
}

#[test]
fn white_space_is_that_of_unicode() {
    for c in WHITE_SPACE {
        assert_eq!(get_category(format!("{c}UI Events{c}")), 3, "character {:?}", c);
        assert_eq!(event_category(&format!("{c}\"{c}UI Events{c}\"{c}")), 3, "character {:?}", c);
        assert_eq!(get_category(format!("UI{c}Events")), if c == ' ' { 3 } else { 0 });
    }
    // No other character is taken off a name.
    let mut count = 0;
    for code in 0u32..0x11_0000 {
        if let Some(c) = char::from_u32(code) {
            let taken = get_category(format!("{c}ui events{c}")) == 3;
            assert_eq!(taken, WHITE_SPACE.contains(&c), "character {:?}", c);
            if taken {
                count += 1;
            }
        }
    }
    assert_eq!(count, 25);
}

#[test]
fn lower_case_of_ascii_changes_the_capital_letters_only() {
    for code in 0u8..128 {
        let c = code as char;
        let low = if c.is_ascii_uppercase() { (code + 32) as char } else { c };
        assert_eq!(fold(&format!("x{c}y")), format!("x{low}y"), "character {:?}", c);
    }
    assert_eq!(fold("ABCDEFGHIJKLMNOPQRSTUVWXYZ"), "abcdefghijklmnopqrstuvwxyz");
    assert_eq!(fold("@[`{ 0123456789"), "@[`{ 0123456789");
}

#[test]
fn category_of_label_beyond_ascii() {
    // The space around the label and one of its letters are not ASCII.
    assert_eq!(get_category("\u{a0}UI EVENTS\u{2003}".to_string()), 3);
    assert_eq!(get_category("networ\u{212a} events".to_string()), 2);
    assert_eq!(get_category("\u{3000}Database Events".to_string()), 1);
    assert_eq!(get_category("ui évents".to_string()), 0);
    assert_eq!(get_category("\u{200b}ui events".to_string()), 0);
}

#[test]
fn category_of_key_takes_the_key_as_it_stands() {
    assert_eq!(category_of_key("database events"), 1);
    assert_eq!(category_of_key("network events"), 2);
    assert_eq!(category_of_key("ui events"), 3);
    assert_eq!(category_of_key("UI events"), 0);
    assert_eq!(category_of_key(" ui events"), 0);
    assert_eq!(category_of_key("\"ui events\""), 0);
    assert_eq!(category_of_key(""), 0);
}

#[test]
fn rendered_field_gives_the_category_of_its_name() {
    assert_eq!(event_category(&quoted("Database Events")), 1);
    assert_eq!(event_category(&quoted("Network Events")), 2);
    assert_eq!(event_category(&quoted("UI Events")), 3);
    assert_eq!(event_category("\"  UI EVENTS \""), 3);
    assert_eq!(event_category(&quoted("  UI EVENTS ")), 3);
    assert_eq!(event_category(" \"\tDatabase Events\n\" "), 1);
    assert_eq!(event_category("Network Events"), 2);
    assert_eq!(event_category("\u{a0}\"UI EVENTS\"\u{2003}"), 3);
    assert_eq!(event_category("\"networ\u{212a} events\""), 2);
    assert_eq!(event_category("\"\u{2028}Network Events\u{a0}\""), 2);
    assert_eq!(event_category(&quoted("Printer Events")), 0);
    assert_eq!(event_category("\"\""), 0);
    assert_eq!(event_category(""), 0);
}

#[test]
fn only_one_pair_of_quotes_is_taken_off() {
    assert_eq!(event_category("\"\"ui events\"\""), 0);
    assert_eq!(event_category("\"ui events"), 0);
    assert_eq!(event_category("ui events\""), 0);
    assert_eq!(event_category("\" \"ui events\" \""), 0);
    assert_eq!(event_category("'ui events'"), 0);
    assert_eq!(event_category("\"network events\" x"), 0);
}

#[test]
fn rendered_field_resolves_as_its_name_does() {
    let labels = [
        "\"Network Events\"",
        "  \"UI EVENTS\"  ",
        "\"  UI EVENTS \"",
        "Database Events",
        "\"Printer Events\"",
        "\"\"ui events\"\"",
        "\u{a0}\"Ui Events\"\u{2003}",
    ];
    for label in labels {
        assert_eq!(event_category(label), get_category(unrendered(label)), "label {:?}", label);
    }
}

#[test]
fn quotes_are_taken_off_as_a_pair() {
    assert_eq!(unquote("\"ui events\""), "ui events");
    assert_eq!(unquote("\"\""), "");
    assert_eq!(unquote("\""), "\"");
    assert_eq!(unquote(""), "");
    assert_eq!(unquote("\"ui events"), "\"ui events");
    assert_eq!(unquote("ui events\""), "ui events\"");
    assert_eq!(unquote("\"\"x\"\""), "\"x\"");
    assert_eq!(unquote(" \"x\""), " \"x\"");
    assert_eq!(unquote("\"é€\""), "é€");
    assert_eq!(fold("  \"  UI Events \" "), "ui events");
    assert_eq!(fold("\u{a0}Straße "), "straße");
}

#[test]
fn severity_info_of_each_severity() {
    assert_eq!(severity_info(Severity::Error), (1, 0xC0000100));
    assert_eq!(severity_info(Severity::Warn), (2, 0x80000101));
    assert_eq!(severity_info(Severity::Info), (4, 0x40000102));
    assert_eq!(severity_info(Severity::Debug), (4, 0x40000103));
    assert_eq!(severity_info(Severity::Trace), (4, 0x40000104));
    assert_eq!(severity_info(Severity::Error).1, MSG_ERROR);
    assert_eq!(severity_info(Severity::Warn).1, MSG_WARNING);
    assert_eq!(severity_info(Severity::Info).1, MSG_INFO);
    assert_eq!(severity_info(Severity::Debug).1, MSG_DEBUG);
    assert_eq!(severity_info(Severity::Trace).1, MSG_TRACE);
}

#[test]
fn severity_info_is_the_same_on_every_call() {
    let all = [
        Severity::Error,
        Severity::Warn,
        Severity::Info,
        Severity::Debug,
        Severity::Trace,
    ];
    for level in all {
        let first = severity_info(level);
        for _ in 0..3 {
            assert_eq!(severity_info(level), first);
        }
        let kind = MessageType::from(level);
        assert_eq!((kind.message_type as u32, kind.level), first);
    }
}

#[test]
fn message_ids_differ_between_severities() {
    let ids = [
        severity_info(Severity::Error).1,
        severity_info(Severity::Warn).1,
        severity_info(Severity::Info).1,
        severity_info(Severity::Debug).1,
        severity_info(Severity::Trace).1,
    ];
    for i in 0..ids.len() {
        for j in 0..ids.len() {
            if i != j {
                assert_ne!(ids[i], ids[j]);
            }
        }
    }
}

#[test]
fn catalog_counts() {
    assert_eq!(total_category_count(), 3);
    assert_eq!(total_category_count(), CATEGORY_COUNT);
    assert_eq!(supported_types(), 7);
    assert_eq!(supported_types(), 1 | 2 | 4);
}
