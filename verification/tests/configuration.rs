use tango_signaling_server::config::{Config, Environment};
use tango_signaling_server::pb::Reason;
use tango_signaling_server::text::{
    clone_text, is_true, parse_flag, parse_number, parse_protocol_version, same_text,
};

fn unset() -> Environment {
    Environment {
        server_host: None,
        server_port: None,
        turn_addr: None,
        turn_user: None,
        turn_credential: None,
        turn_secret: None,
        turn_credential_ttl: None,
        debug: None,
        use_static_turn_credential: None,
        log_level: None,
        broadcast_server: None,
        server_name: None,
        server_description: None,
        server_country_code_alpha2: None,
        endpoint_address: None,
        min_protocol_version: None,
        max_protocol_version: None,
    }
}

fn text(s: &str) -> Option<String> {
    Some(s.to_string())
}

fn bounded(min: Option<&str>, max: Option<&str>) -> Config {
    let mut env = unset();
    env.min_protocol_version = min.map(|s| s.to_string());
    env.max_protocol_version = max.map(|s| s.to_string());
    Config::from_env(env)
}

#[test]
fn empty_environment_gives_the_defaults() {
    let c = Config::from_env(unset());
    assert_eq!(c.server_host, "0.0.0.0");
    assert_eq!(c.server_port, 8000);
    assert_eq!(c.turn_addr, None);
    assert_eq!(c.turn_user, None);
    assert_eq!(c.turn_credential, None);
    assert_eq!(c.turn_secret, None);
    assert_eq!(c.turn_credential_ttl, 3600);
    assert!(!c.debug);
    assert!(!c.use_static_turn_credential);
    assert_eq!(c.log_level, "INFO");
    assert!(!c.broadcast_server);
    assert_eq!(c.server_name, "");
    assert_eq!(c.server_description, "");
    assert_eq!(c.server_country_code_alpha2, "");
    assert_eq!(c.endpoint_address, "");
    assert_eq!(c.min_protocol_version, None);
    assert_eq!(c.max_protocol_version, None);
}

#[test]
fn environment_overrides_the_defaults() {
    let c = Config::from_env(Environment {
        server_host: text("127.0.0.1"),
        server_port: text("9001"),
        turn_addr: text("turn:a"),
        turn_user: text("u"),
        turn_credential: text("c"),
        turn_secret: text("s"),
        turn_credential_ttl: text("60"),
        debug: text("TRUE"),
        use_static_turn_credential: text("tRuE"),
        log_level: text("DEBUG"),
        broadcast_server: text("true"),
        server_name: text("n"),
        server_description: text("d"),
        server_country_code_alpha2: text("DE"),
        endpoint_address: text("wss://x"),
        min_protocol_version: text("0x50"),
        max_protocol_version: text("56"),
    });
    assert_eq!(c.server_host, "127.0.0.1");
    assert_eq!(c.server_port, 9001);
    assert_eq!(c.turn_addr, text("turn:a"));
    assert_eq!(c.turn_user, text("u"));
    assert_eq!(c.turn_credential, text("c"));
    assert_eq!(c.turn_secret, text("s"));
    assert_eq!(c.turn_credential_ttl, 60);
    assert!(c.debug);
    assert!(c.use_static_turn_credential);
    assert_eq!(c.log_level, "DEBUG");
    assert!(c.broadcast_server);
    assert_eq!(c.server_name, "n");
    assert_eq!(c.server_description, "d");
    assert_eq!(c.server_country_code_alpha2, "DE");
    assert_eq!(c.endpoint_address, "wss://x");
    assert_eq!(c.min_protocol_version, Some(0x50));
    assert_eq!(c.max_protocol_version, Some(0x56));
}

#[test]
fn unreadable_values_fall_back() {
    for port in ["", "abc", "65536", "-1", " 80", "80 ", "0x50"] {
        let mut env = unset();
        env.server_port = text(port);
        assert_eq!(Config::from_env(env).server_port, 8000, "{:?}", port);
    }
    for (port, value) in [("0", 0), ("65535", 65535), ("+80", 80), ("00080", 80)] {
        let mut env = unset();
        env.server_port = text(port);
        assert_eq!(Config::from_env(env).server_port, value, "{:?}", port);
    }
    let mut env = unset();
    env.turn_credential_ttl = text("18446744073709551615");
    assert_eq!(Config::from_env(env).turn_credential_ttl, u64::MAX);
    let mut env = unset();
    env.turn_credential_ttl = text("18446744073709551616");
    assert_eq!(Config::from_env(env).turn_credential_ttl, 3600);
    let mut env = unset();
    env.min_protocol_version = text("new");
    env.max_protocol_version = text("");
    let c = Config::from_env(env);
    assert_eq!(c.min_protocol_version, None);
    assert_eq!(c.max_protocol_version, None);
}

#[test]
fn flags_read_true_in_any_case() {
    for on in ["true", "TRUE", "True", "tRUe"] {
        assert!(parse_flag(on), "{:?}", on);
    }
    for off in ["", "1", "yes", "on", "false", " true", "true ", "truee", "tru\u{0117}"] {
        assert!(!parse_flag(off), "{:?}", off);
    }
    assert!(is_true("true"));
    assert!(!is_true("TRUE"));
}

#[test]
fn flags_agree_with_unicode_lower_case() {
    for c in (0..=0x10ffff).filter_map(char::from_u32) {
        let s: String = ['t', 'r', 'u', c].iter().collect();
        assert_eq!(parse_flag(&s), s.to_lowercase() == "true", "{:?}", s);
    }
}

#[test]
fn text_is_compared_and_copied() {
    assert!(same_text("", ""));
    assert!(same_text("abc", "abc"));
    assert!(!same_text("abc", "abd"));
    assert!(!same_text("abc", "ab"));
    assert_eq!(clone_text(&None), None);
    assert_eq!(clone_text(&text("x")), text("x"));
}

#[test]
fn numbers_agree_with_the_standard_library() {
    let samples = [
        "", "+", "-", "0", "+0", "-0", "7", "00", "12", "ff", "FF", "fF", "g", "z", "Z", "1_000",
        " 1", "1 ", "++1", "+-1", "0x10", "4294967295", "4294967296", "ffffffff", "100000000",
        "18446744073709551615", "18446744073709551616", "99999999999999999999999999999999999999999",
        "zz", "\u{0661}", "1\u{0301}", "2222222222222222222222222222222222222222222222222",
    ];
    for s in samples {
        for radix in 2..=36 {
            assert_eq!(
                parse_number(s, radix, u64::MAX),
                u64::from_str_radix(s, radix).ok(),
                "{:?} in base {}",
                s,
                radix
            );
            assert_eq!(
                parse_number(s, radix, u32::MAX as u64),
                u32::from_str_radix(s, radix).ok().map(u64::from),
                "{:?} in base {}",
                s,
                radix
            );
        }
        assert_eq!(
            parse_number(s, 10, u16::MAX as u64),
            s.parse::<u16>().ok().map(u64::from)
        );
    }
}

#[test]
fn every_character_is_read_as_the_standard_library_reads_it() {
    for c in (0..=0x10ffff).filter_map(char::from_u32) {
        let s = c.to_string();
        assert_eq!(parse_number(&s, 36, 35), u64::from_str_radix(&s, 36).ok());
    }
}

#[test]
fn versions_are_hexadecimal_or_decimal() {
    assert_eq!(parse_protocol_version("56"), Some(0x56));
    assert_eq!(parse_protocol_version("0x56"), Some(0x56));
    assert_eq!(parse_protocol_version("0X56"), Some(0x56));
    assert_eq!(parse_protocol_version("ffffffff"), Some(u32::MAX));
    assert_eq!(parse_protocol_version("0xFFFFFFFF"), Some(u32::MAX));
    // Too large for hexadecimal: decimal.
    assert_eq!(parse_protocol_version("4294967295"), Some(u32::MAX));
    assert_eq!(parse_protocol_version("123456789"), Some(123456789));
    assert_eq!(parse_protocol_version("12345678"), Some(0x12345678));
    // With the mark there is no second reading.
    assert_eq!(parse_protocol_version("0x4294967295"), None);
    assert_eq!(parse_protocol_version("4294967296"), None);
    assert_eq!(parse_protocol_version(""), None);
    assert_eq!(parse_protocol_version("0x"), None);
    assert_eq!(parse_protocol_version("x56"), None);
    assert_eq!(parse_protocol_version("-1"), None);
    assert_eq!(parse_protocol_version("0x 56"), None);
    assert_eq!(parse_protocol_version("5 6"), None);
    assert_eq!(parse_protocol_version("+56"), Some(0x56));
    assert_eq!(parse_protocol_version("0x+56"), Some(0x56));
}

#[test]
fn white_space_around_a_version_does_not_count() {
    assert_eq!(parse_protocol_version("  56 "), Some(0x56));
    assert_eq!(parse_protocol_version("\t0x56\r\n"), Some(0x56));
    assert_eq!(parse_protocol_version("\u{3000}56\u{a0}"), Some(0x56));
    assert_eq!(parse_protocol_version("   "), None);
}

#[test]
fn white_space_is_that_of_unicode() {
    let listed = |c: char| {
        matches!(c,
            '\u{9}'..='\u{d}' | '\u{20}' | '\u{85}' | '\u{a0}' | '\u{1680}'
            | '\u{2000}'..='\u{200a}' | '\u{2028}' | '\u{2029}' | '\u{202f}' | '\u{205f}'
            | '\u{3000}')
    };
    for c in (0..=0x10ffff).filter_map(char::from_u32) {
        let before: String = [c, '7'].iter().collect();
        let after: String = ['7', c].iter().collect();
        assert_eq!(before.trim() == "7", listed(c), "{:?}", c);
        assert_eq!(after.trim() == "7", listed(c), "{:?}", c);
        if listed(c) {
            assert_eq!(parse_protocol_version(&before), Some(7));
            assert_eq!(parse_protocol_version(&after), Some(7));
        }
    }
}

#[test]
fn versions_outside_the_bounds_are_turned_away() {
    let c = bounded(Some("50"), Some("60"));
    assert_eq!(c.protocol_version_abort_reason(None), None);
    assert_eq!(
        c.protocol_version_abort_reason(Some(0x4f)),
        Some(Reason::ProtocolVersionTooOld)
    );
    assert_eq!(c.protocol_version_abort_reason(Some(0x50)), None);
    assert_eq!(c.protocol_version_abort_reason(Some(0x60)), None);
    assert_eq!(
        c.protocol_version_abort_reason(Some(0x61)),
        Some(Reason::ProtocolVersionTooNew)
    );
}

#[test]
fn absent_bounds_turn_nobody_away() {
    let open = bounded(None, None);
    assert_eq!(open.protocol_version_abort_reason(Some(0)), None);
    assert_eq!(open.protocol_version_abort_reason(Some(u32::MAX)), None);
    let lower = bounded(Some("50"), None);
    assert_eq!(
        lower.protocol_version_abort_reason(Some(0)),
        Some(Reason::ProtocolVersionTooOld)
    );
    assert_eq!(lower.protocol_version_abort_reason(Some(u32::MAX)), None);
    let upper = bounded(None, Some("50"));
    assert_eq!(upper.protocol_version_abort_reason(Some(0)), None);
    assert_eq!(
        upper.protocol_version_abort_reason(Some(0x51)),
        Some(Reason::ProtocolVersionTooNew)
    );
}

#[test]
fn crossed_bounds_complain_of_the_lower_first() {
    let c = bounded(Some("60"), Some("50"));
    assert_eq!(
        c.protocol_version_abort_reason(Some(0x55)),
        Some(Reason::ProtocolVersionTooOld)
    );
    assert_eq!(
        c.protocol_version_abort_reason(Some(0x60)),
        Some(Reason::ProtocolVersionTooNew)
    );
}

#[test]
fn reasons_have_the_names_of_the_schema() {
    assert_eq!(
        Reason::ProtocolVersionTooOld.as_str_name(),
        "REASON_PROTOCOL_VERSION_TOO_OLD"
    );
    assert_eq!(
        Reason::ProtocolVersionTooNew.as_str_name(),
        "REASON_PROTOCOL_VERSION_TOO_NEW"
    );
}
