//! The smaller parts: netsh arguments, registry answers, restore points, the
//! log, and texts.

use stabilizatores::log::{log, now, read, rotating, Time, MAX_BYTES};
use stabilizatores::netsh::{failure, fold, interface_arg, name_arg, run};
use stabilizatores::order::{in_order, sort};
use stabilizatores::registry::{
    cannot_open, delete_answer, dword_answer, name_answer, opened, read_message, string_answer,
    string_size, write_answer, write_message, Failure, ERROR_FILE_NOT_FOUND, ERROR_NO_MORE_ITEMS,
    ERROR_SUCCESS, REG_DWORD, REG_SZ,
};
use stabilizatores::restore::{
    begin, create, end, fill_description, status_message, Attempt, BEGIN_SYSTEM_CHANGE,
    END_SYSTEM_CHANGE, ERROR_BAD_ENVIRONMENT, ERROR_DISK_FULL, ERROR_VOLUME_TOO_SMALL, MAX_DESC,
    STATUS_ACCESS_DENIED,
};
use stabilizatores::text;
use stabilizatores::utf16::{decode, decode_terminated, encode, find_terminator};
use stabilizatores::win::{
    civil_from_days, command_line, poll_key, timestamp_compact, wide, KEY_EVENT,
};

#[test]
fn name_quotes_always() {
    assert_eq!(name_arg("Wi-Fi").unwrap(), "name=\"Wi-Fi\"");
    assert_eq!(name_arg("Ethernet 2").unwrap(), "name=\"Ethernet 2\"");
}

#[test]
fn interface_arg_uses_interface_tag() {
    assert_eq!(interface_arg("Wi-Fi").unwrap(), "interface=\"Wi-Fi\"");
}

#[test]
fn quoted_rejects_quotes() {
    assert!(name_arg("bad\"name").is_err());
}

#[test]
fn quoted_rejects_empty() {
    assert!(name_arg("").is_err());
}

#[test]
fn netsh_runs_are_judged_by_their_status() {
    assert_eq!(run(true, b"Ok.\r\n", b"ignored"), Ok("Ok.\r\n".to_string()));
    assert_eq!(run(true, &[b'a', 0xff], b""), Ok("a\u{fffd}".to_string()));
    let error = run(false, b"out", b"  Element not found.\r\n").expect_err("netsh failed");
    assert!(error.contains("Element not found."), "{error}");
    assert!(!error.contains('\r'), "{error:?}");
    assert!(failure("boom").expect_err("a failure").contains("boom"));
}

#[test]
fn netsh_failures_are_one_line() {
    assert_eq!(
        run(false, b"", b"\r\nThe syntax is wrong.\r\nTry help.\r\n"),
        Err("netsh: The syntax is wrong. Try help.".to_string())
    );
    assert_eq!(fold("a\nb\rc\r\n\r\nd"), "a b c  d");
    assert_eq!(fold("plain"), "plain");
    assert_eq!(
        run(false, b"", b" \r\n"),
        Err("netsh exited with an error".to_string())
    );
}

#[test]
fn timestamp_has_expected_shape() {
    let stamp = now(Time {
        year: 2024,
        month: 5,
        day: 6,
        hour: 7,
        minute: 8,
        second: 9,
    });
    assert_eq!(stamp.len(), 19, "stamp is YYYY-MM-DD HH:MM:SS: {stamp}");
    assert_eq!(stamp, "2024-05-06 07:08:09");
}

#[test]
fn log_lines_are_stamped_and_read_back() {
    let time = Time {
        year: 2024,
        month: 12,
        day: 31,
        hour: 23,
        minute: 59,
        second: 58,
    };
    let first = log(time, "write A");
    assert_eq!(first, "[2024-12-31 23:59:58] write A\n");
    let text = format!("{first}{}{}", log(time, "write B"), log(time, "write C"));
    assert_eq!(
        read(&text, 2),
        vec![
            "[2024-12-31 23:59:58] write B".to_string(),
            "[2024-12-31 23:59:58] write C".to_string()
        ]
    );
    assert_eq!(read(&text, 9).len(), 3);
    assert_eq!(read("", 9), Vec::<String>::new());
    assert!(!rotating(MAX_BYTES));
    assert!(rotating(MAX_BYTES + 1));
}

#[test]
fn description_is_padded_and_truncated() {
    let mut buffer = [0u16; MAX_DESC];
    fill_description(&mut buffer, "é");
    assert_eq!(buffer[0], 'é' as u16);
    assert_eq!(buffer[1], 0, "null terminator");

    let long = "x".repeat(MAX_DESC + 50);
    fill_description(&mut buffer, &long);
    assert_eq!(buffer[MAX_DESC - 1], 0, "kept room for the terminator");
    assert!(buffer[..MAX_DESC - 1]
        .iter()
        .all(|&unit| unit == 'x' as u16));
}

#[test]
fn known_statuses_map_to_readable_text() {
    assert!(status_message(0).contains("created"));
    assert!(status_message(ERROR_BAD_ENVIRONMENT).contains("disabled"));
    assert!(status_message(ERROR_DISK_FULL).contains("space"));
    assert!(
        status_message(0xDEAD_BEEF).contains("0xdeadbeef"),
        "fallback keeps the code"
    );
    assert!(status_message(ERROR_VOLUME_TOO_SMALL).contains("too small"));
    assert!(status_message(STATUS_ACCESS_DENIED).contains("denied"));
}

#[test]
fn restore_points_are_begun_and_ended() {
    let begun = begin("before tweaks");
    assert_eq!(begun.event_type, BEGIN_SYSTEM_CHANGE);
    assert_eq!(begun.sequence_number, 0);
    assert_eq!(begun.description[0], 'b' as u16);
    let ended = end(begun, 42);
    assert_eq!(ended.event_type, END_SYSTEM_CHANGE);
    assert_eq!(ended.sequence_number, 42);
}

#[test]
fn attempts_at_a_restore_point_have_outcomes() {
    assert_eq!(create(&Attempt::Granted), Ok(()));
    assert!(create(&Attempt::Refused(ERROR_BAD_ENVIRONMENT))
        .expect_err("refused")
        .contains("disabled"));
    assert!(create(&Attempt::NotLoaded("gone".into())).is_err());
    assert!(create(&Attempt::NotExported).is_err());
}

#[test]
fn registry_answers_are_decoded() {
    assert_eq!(
        dword_answer("n", ERROR_SUCCESS, REG_DWORD, 7),
        Ok(Some(7))
    );
    assert_eq!(dword_answer("n", ERROR_FILE_NOT_FOUND, 0, 0), Ok(None));
    assert_eq!(dword_answer("n", 5, 0, 0), Err(Failure::Os(5)));
    assert!(matches!(
        dword_answer("n", ERROR_SUCCESS, REG_SZ, 7),
        Err(Failure::Message(_))
    ));
    assert_eq!(write_answer(ERROR_SUCCESS), Ok(()));
    assert_eq!(write_answer(5), Err(Failure::Os(5)));
    assert_eq!(delete_answer(ERROR_FILE_NOT_FOUND), Ok(()));
    assert_eq!(delete_answer(5), Err(Failure::Os(5)));
    assert_eq!(opened(ERROR_SUCCESS, false, 0), Ok(true));
    assert_eq!(opened(ERROR_FILE_NOT_FOUND, false, 0), Ok(false));
    assert_eq!(opened(5, false, 0), Err(Failure::Os(5)));
    assert!(matches!(cannot_open("k"), Failure::Message(_)));
}

#[test]
fn enumeration_ends_after_the_last_name() {
    assert_eq!(name_answer(ERROR_SUCCESS), Ok(true));
    assert_eq!(name_answer(ERROR_NO_MORE_ITEMS), Ok(false));
    assert_eq!(name_answer(5), Err(Failure::Os(5)));
}

#[test]
fn registry_texts_are_measured_and_decoded() {
    assert_eq!(string_size(ERROR_FILE_NOT_FOUND, 0, 0), Ok(None));
    assert_eq!(string_size(ERROR_SUCCESS, REG_DWORD, 4), Ok(None));
    assert_eq!(string_size(5, REG_SZ, 0), Err(Failure::Os(5)));
    assert_eq!(string_size(ERROR_SUCCESS, REG_SZ, 12), Ok(Some(7)));
    let units = wide("Intel");
    assert_eq!(string_answer(ERROR_SUCCESS, &units), Ok("Intel".to_string()));
    assert_eq!(string_answer(5, &units), Err(Failure::Os(5)));
}

#[test]
fn registry_messages_name_the_value() {
    assert!(read_message("k", "n", "denied").contains("denied"));
    assert!(write_message("k", "n", "denied").contains("n"));
    assert_ne!(
        read_message("k", "n", "denied"),
        write_message("k", "n", "denied")
    );
}

#[test]
fn wide_terminates_with_nul() {
    let buf = wide("abc");
    assert_eq!(buf, vec![b'a' as u16, b'b' as u16, b'c' as u16, 0]);
}

#[test]
fn wide_handles_non_ascii() {
    let mut buf = wide("\u{0441}\u{0442}аб");
    assert_eq!(buf.pop(), Some(0));
    assert_ne!(buf[0], 0);
}

#[test]
fn keys_are_read_from_key_presses() {
    assert_eq!(poll_key(KEY_EVENT, true, 't' as u16), Some('t'));
    assert_eq!(poll_key(KEY_EVENT, false, 't' as u16), None);
    assert_eq!(poll_key(KEY_EVENT, true, 0), None);
    assert_eq!(poll_key(KEY_EVENT, true, 0xD800), None);
    assert_eq!(poll_key(2, true, 't' as u16), None);
}

#[test]
fn arguments_are_quoted_for_the_elevated_copy() {
    assert_eq!(
        command_line(&vec!["--apply".into(), "a\"b".into()]),
        "\"--apply\" \"a\"\"b\""
    );
    assert_eq!(command_line(&vec![]), "");
}

#[test]
fn days_become_dates() {
    assert_eq!(civil_from_days(0), (1970, 1, 1));
    assert_eq!(civil_from_days(19_782), (2024, 2, 29));
    assert_eq!(civil_from_days(-1), (1969, 12, 31));
}

#[test]
fn stamps_sort_by_time() {
    assert_eq!(timestamp_compact(0), "1970-01-01-000000");
    assert_eq!(timestamp_compact(1_709_210_096), "2024-02-29-123456");
    let early = timestamp_compact(1_700_000_000);
    let late = timestamp_compact(1_700_000_001);
    assert!(early < late);
}

#[test]
fn utf16_goes_both_ways() {
    let text = "a\u{20ac}\u{1f600}z";
    let units = encode(text);
    assert_eq!(units, text.encode_utf16().collect::<Vec<_>>());
    assert_eq!(decode(&units, units.len()), text);
    assert_eq!(decode(&[0xD800, b'x' as u16], 2), "\u{fffd}x");
    let padded = [b'h' as u16, b'i' as u16, 0, b'!' as u16];
    assert_eq!(find_terminator(&padded), 2);
    assert_eq!(decode_terminated(&padded), "hi");
}

#[test]
fn sorting_is_by_characters() {
    assert!(in_order("a", "b") && in_order("a", "a") && !in_order("b", "a"));
    assert!(in_order("", "a") && in_order("a", "ab"));
    let list = vec!["b".to_string(), "".to_string(), "ab".to_string(), "a".to_string()];
    assert_eq!(
        sort(list),
        vec!["".to_string(), "a".to_string(), "ab".to_string(), "b".to_string()]
    );
}

#[test]
fn texts_are_taken_apart() {
    assert_eq!(text::chars("a\u{e9}"), vec!['a', '\u{e9}']);
    assert!(text::contains_char("abc", 'b') && !text::contains_char("abc", 'x'));
    assert!(text::starts_with("--mtu=1", "--mtu=") && !text::starts_with("-", "--"));
    assert_eq!(text::strip_prefix("--mtu=1", "--mtu="), Some("1".to_string()));
    assert_eq!(text::strip_prefix("x", "--"), None);
    assert_eq!(text::strip_suffix("a.json", ".json"), Some("a".to_string()));
    assert_eq!(text::strip_suffix("a.txt", ".json"), None);
    assert!(text::contains_part("add encryption", "encryption"));
    assert!(!text::contains_part("add", "encryption"));
    assert!(text::same_ignoring_case("{AbC}", "{aBc}") && !text::same_ignoring_case("a", "ab"));
    assert_eq!(text::trim("\u{a0} a b \r\n"), "a b");
    assert_eq!(text::trim_end(" a\t"), " a");
    assert_eq!(
        text::lines("a\r\nb\n\nc"),
        vec!["a".to_string(), "b".to_string(), "".to_string(), "c".to_string()]
    );
}

#[test]
fn numbers_become_texts_and_come_back() {
    assert_eq!(text::dec(0), "0");
    assert_eq!(text::dec(u64::MAX), u64::MAX.to_string());
    assert_eq!(text::signed_dec(i32::MIN), "-2147483648");
    assert_eq!(text::hex_small(0xdead_beef), "deadbeef");
    assert_eq!(text::hex_caps(0x2b, 4), "002B");
    assert_eq!(text::pad("7", 3, ' '), "  7");
    assert_eq!(text::dec_zero(5, 2), "05");
    assert_eq!(text::parse_u32("1400"), Some(1400));
    assert_eq!(text::parse_u32("+9"), "+9".parse::<u32>().ok());
    assert_eq!(text::parse_u32("4294967296"), None);
    assert_eq!(text::parse_u32(""), None);
    assert_eq!(text::parse_u32("1a"), None);
}
