use acs::packet::matches_reduced_ac_packet;
use acs::args::{parse_key_value_args, parse_port_spec, parse_u32_arg};
use acs::command_line::{format_command_preview, parse_output_format_list, shell_quote_arg};
use acs::paths::join_path;
use acs::text::{
    decimal_text, format_bytes_hex, hex_text, is_white_char, join, pad_end, parse_number,
    parse_u32, rsplit_once, split, split_once, string_of, strip_prefix, strip_suffix, to_lower,
    to_upper, trim,
};

#[test]
fn white_space_is_that_of_the_language() {
    for code in 0..=0x10FFFFu32 {
        if let Some(c) = char::from_u32(code) {
            assert_eq!(is_white_char(c), c.is_whitespace(), "U+{code:04X}");
        }
    }
}

#[test]
fn case_changes_only_ascii_letters() {
    let text = "PacketACv6 ÄÖ é 送信 z{`@[";
    assert_eq!(to_lower(text), text.to_ascii_lowercase());
    assert_eq!(to_upper(text), text.to_ascii_uppercase());
}

#[test]
fn pieces_are_those_of_split() {
    for text in ["", ",", "a", "a,b", ",a,,b,", "送信,受信"] {
        assert_eq!(split(text, ','), text.split(',').collect::<Vec<_>>());
        assert_eq!(split_once(text, ','), text.split_once(','));
        assert_eq!(rsplit_once(text, ','), text.rsplit_once(','));
    }
}

#[test]
fn ends_are_cut_as_asked() {
    assert_eq!(trim("\u{3000} \t a b \r\n"), "a b");
    assert_eq!(trim(" \n"), "");
    assert_eq!(strip_prefix("--port=x", "--port="), Some("x"));
    assert_eq!(strip_prefix("-p", "--port="), None);
    assert_eq!(strip_suffix("2s", "s"), Some("2"));
    assert_eq!(strip_suffix("2hz", "s"), None);
    assert_eq!(pad_end("ab", 4), "ab  ");
    assert_eq!(pad_end("abcde", 4), "abcde");
}

#[test]
fn numbers_are_read_and_written_in_decimal() {
    for n in [0u64, 9, 10, 115_200, 4_294_967_295, u64::MAX] {
        assert_eq!(decimal_text(n), n.to_string());
        assert_eq!(parse_number(&n.to_string(), u64::MAX), Some(n));
    }
    assert_eq!(parse_u32("4294967295"), Some(u32::MAX));
    assert_eq!(parse_u32("4294967296"), None);
    assert_eq!(parse_u32("+7"), Some(7));
    assert_eq!(parse_u32(""), None);
    assert_eq!(parse_u32("+"), None);
    assert_eq!(parse_u32("-1"), None);
    assert_eq!(parse_u32("1.5"), None);
    assert_eq!(parse_u32("99999999999999999999999999"), None);
}

#[test]
fn bytes_are_written_in_hex() {
    assert_eq!(format_bytes_hex(&[0x00, 0x0A, 0xFF]), "00 0A FF");
    assert_eq!(format_bytes_hex(&[]), "");
    assert_eq!(hex_text(0x54C, 4), "054c");
}

#[test]
fn texts_are_put_together_character_by_character() {
    assert_eq!(string_of(&vec!['送', '信', 'é', 'a']), "送信éa");
    assert_eq!(
        join(&vec![String::from("a"), String::from("b"), String::from("c")], "+"),
        "a+b+c"
    );
    assert_eq!(join(&Vec::new(), "+"), "");
}

#[test]
fn paths_are_joined_like_directories() {
    assert_eq!(join_path("/etc/acs", "logs"), "/etc/acs/logs");
    assert_eq!(join_path("/etc/acs", "/var/log"), "/var/log");
}

#[test]
fn quoted_words_stay_one_word() {
    assert_eq!(shell_quote_arg(""), "''");
    assert_eq!(shell_quote_arg("/dev/ttyUSB0@921600,hex+packet"), "/dev/ttyUSB0@921600,hex+packet");
    assert_eq!(shell_quote_arg("tmp/io logs"), "'tmp/io logs'");
    assert_eq!(shell_quote_arg("it's"), "'it'\\''s'");
    assert_eq!(
        format_command_preview(&vec![String::from("acs"), String::from("a b")]),
        "acs 'a b'"
    );
}

#[test]
fn arguments_that_are_no_numbers_are_refused() {
    assert_eq!(parse_u32_arg("--baud", "115200"), Ok(115_200));
    assert!(parse_u32_arg("--baud", "fast").is_err());
    assert!(parse_u32_arg("--baud", "-5").unwrap_err().contains("--baud"));
}

#[test]
fn port_specs_that_say_nothing_are_refused() {
    assert_eq!(parse_port_spec("--port", "  ").unwrap_err(), "--port must not be empty");
    assert_eq!(
        parse_port_spec("--port", "@9600").unwrap_err(),
        "invalid value for --port: @9600 (expected PORT[@BAUD][,DISPLAY])"
    );
    assert_eq!(
        parse_port_spec("--port", "/dev/ttyUSB0@fast").unwrap_err(),
        "invalid value for --port: /dev/ttyUSB0@fast (expected PORT[@BAUD][,DISPLAY])"
    );
}

#[test]
fn assignments_need_a_key_and_a_value() {
    assert_eq!(
        parse_key_value_args("--config", " ").unwrap_err(),
        "missing value for --config"
    );
    assert_eq!(
        parse_key_value_args("--config", "RATE").unwrap_err(),
        "invalid value for --config: RATE (expected KEY=VALUE or KEY=VALUE,KEY=VALUE)"
    );
    assert!(parse_key_value_args("--config", "RATE=10,").is_err());
    assert!(parse_key_value_args("--config", "=10").is_err());
    let one = parse_key_value_args("--config", " LOG_DIR = a=b ").unwrap();
    assert_eq!(one[0].key, "LOG_DIR");
    assert_eq!(one[0].value, "a=b");
}

#[test]
fn format_lists_name_each_format_once() {
    assert_eq!(
        parse_output_format_list("PacketACv6+packetjfv1+ packetacv6 "),
        Some(vec![String::from("packetacv6"), String::from("packetjfv1")])
    );
    assert_eq!(parse_output_format_list("packetacv6+"), None);
    assert_eq!(parse_output_format_list(""), None);
}

#[test]
fn a_packet_of_one_byte_needs_another_header() {
    assert!(!matches_reduced_ac_packet(&[0x4D], 0x49, 1));
    assert!(!matches_reduced_ac_packet(&[0x4D, 0x4D], 0x4D, 1));
}
