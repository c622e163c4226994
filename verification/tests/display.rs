use urwtest_rs::console::{format_bytes, Console, Message, Style};
use urwtest_rs::engine::TestReport;
use urwtest_rs::report::{emit_report, print_report, progress_line, Throughput};
use urwtest_rs::text;
use urwtest_rs::types::{CleanupMode, ColorMode, VerifyMode};
use urwtest_rs::volume::{VolumeInfo, VolumeKind};

fn lines(messages: &[Message]) -> Vec<(Style, &str)> {
    messages.iter().map(|m| (m.style, m.text.as_str())).collect()
}

fn chars(text: &str) -> Vec<char> {
    text.chars().collect()
}

fn formatted_with_doubles(bytes: u64) -> String {
    let units = ["B", "KiB", "MiB", "GiB", "TiB", "PiB"];
    let mut value = bytes as f64;
    let mut unit = 0usize;
    while value >= 1024.0 && unit < units.len() - 1 {
        value /= 1024.0;
        unit += 1;
    }
    if unit == 0 {
        format!("{} {}", bytes, units[unit])
    } else {
        format!("{:.2} {}", value, units[unit])
    }
}

#[test]
fn sizes_have_known_texts() {
    assert_eq!(format_bytes(0), "0 B");
    assert_eq!(format_bytes(1023), "1023 B");
    assert_eq!(format_bytes(1024), "1.00 KiB");
    assert_eq!(format_bytes(1536), "1.50 KiB");
    assert_eq!(format_bytes(1048575), "1024.00 KiB");
    assert_eq!(format_bytes(1048576), "1.00 MiB");
    assert_eq!(format_bytes(8_000_000_000), "7.45 GiB");
    assert_eq!(format_bytes(1 << 40), "1.00 TiB");
    assert_eq!(format_bytes(u64::MAX), "16384.00 PiB");
}

#[test]
fn sizes_are_formatted_as_doubles_are() {
    let mut values: Vec<u64> = Vec::new();
    for shift in 0..64 {
        let n = 1u64 << shift;
        for d in 0..5 {
            values.push(n.wrapping_sub(d));
            values.push(n.wrapping_add(d));
        }
    }
    for unit in [1u64 << 10, 1 << 20, 1 << 30, 1 << 40, 1 << 50] {
        for eighths in 0..9000u64 {
            values.push((unit / 8).wrapping_mul(eighths));
        }
        for n in 0..2000u64 {
            values.push(unit + (unit / 200).wrapping_mul(n));
        }
    }
    let mut random = 0x9e37_79b9_7f4a_7c15u64;
    for i in 0..60_000u32 {
        random = random.wrapping_mul(6364136223846793005).wrapping_add(1442695040888963407);
        values.push(random >> (i % 64));
    }
    for bytes in values {
        assert_eq!(format_bytes(bytes), formatted_with_doubles(bytes), "{}", bytes);
    }
}

#[test]
fn spaces_are_those_of_unicode() {
    for code in 0..=0x10ffffu32 {
        if let Some(c) = char::from_u32(code) {
            assert_eq!(text::space(c), c.is_whitespace(), "{:x}", code);
        }
    }
}

#[test]
fn numbers_are_read_as_rust_reads_them() {
    for input in [
        "", "+", "-", "0", "00", "+0", "-0", "1", "+1", "-1", "++1", "1+", " 1", "1 ", "1_000", "0x10",
        "4294967295", "4294967296", "+0004294967295", "18446744073709551615",
        "18446744073709551616", "99999999999999999999999", "\u{661}", "1.0", "1e3",
    ] {
        let given = chars(input);
        assert_eq!(
            text::parse_number(&given, u32::MAX as u64),
            input.parse::<u32>().ok().map(|n| n as u64),
            "{}",
            input
        );
        assert_eq!(text::parse_number(&given, u64::MAX), input.parse::<u64>().ok(), "{}", input);
    }
}

#[test]
fn texts_are_taken_apart_as_rust_does() {
    for input in ["", " ", "a", " a b ", "\ta\u{a0}\u{3000}b\r\n", "a  b   c", "a,b,,c,", ",", "é ü"] {
        let given = chars(input);
        let words: Vec<String> =
            text::words_of(&given).iter().map(|w| text::string_of(w)).collect();
        assert_eq!(words, input.split_whitespace().collect::<Vec<_>>(), "{:?}", input);
        assert_eq!(text::string_of(&text::trimmed(&given)), input.trim(), "{:?}", input);
        let parts: Vec<String> =
            text::split_at(&given, ',').iter().map(|w| text::string_of(w)).collect();
        assert_eq!(parts, input.split(',').collect::<Vec<_>>(), "{:?}", input);
    }
    let upper = "ÀBCxyzŁ[@`{Z";
    assert_eq!(text::string_of(&text::lowered(&chars(upper))), upper.to_ascii_lowercase());
    assert!(text::contains_text(&chars("abcd"), "bc") && !text::contains_text(&chars("abcd"), "bd"));
    assert!(text::contains_text(&chars(""), ""));
    assert!(text::starts_with(&chars("abc"), "ab") && !text::starts_with(&chars("a"), "ab"));
    assert!(text::ends_with(&chars("abc"), "bc") && !text::ends_with(&chars("c"), "bc"));
}

#[test]
fn numbers_are_written_out() {
    assert_eq!(text::decimal_string(0), "0");
    assert_eq!(text::decimal_string(u64::MAX), "18446744073709551615");
    assert_eq!(text::hex_string(0xabc), "0000000000000abc");
    let mut out = "x".to_string();
    text::push_padded_decimal(&mut out, 42, 5);
    text::push_padded_decimal(&mut out, 123456, 5);
    assert_eq!(out, "x00042123456");
}

#[test]
fn messages_are_colored() {
    let colored = Console::new(ColorMode::Always, false);
    assert_eq!(colored.ok("m"), "\x1b[32mm\x1b[0m");
    assert_eq!(colored.fail("m"), "\x1b[31mm\x1b[0m");
    assert_eq!(colored.warn("m"), "\x1b[33mm\x1b[0m");
    assert_eq!(colored.info("m"), "\x1b[36mm\x1b[0m");
    for (mode, terminal, shown) in [
        (ColorMode::Never, true, "m"),
        (ColorMode::Auto, false, "m"),
        (ColorMode::Auto, true, "\x1b[32mm\x1b[0m"),
        (ColorMode::Always, true, "\x1b[32mm\x1b[0m"),
    ] {
        let console = Console::new(mode, terminal);
        assert_eq!(console.ok("m"), shown);
        assert_eq!(console.progress_enabled(), terminal);
        assert_eq!(console.render(&Message::new(Style::Good, "m".to_string())), shown);
        assert_eq!(console.render(&Message::new(Style::Plain, "m".to_string())), "m");
        assert_eq!(console.render(&Message::new(Style::Error, "m".to_string())), "m");
    }
    assert_eq!(
        colored.render(&Message::new(Style::Info, "m".to_string())),
        "\x1b[36mm\x1b[0m"
    );
}

#[test]
fn defaults_are_the_careful_ones() {
    assert_eq!(VerifyMode::default(), VerifyMode::Immediate);
    assert_eq!(CleanupMode::default(), CleanupMode::OnSuccess);
    assert_eq!(ColorMode::default(), ColorMode::Auto);
}

#[test]
fn volumes_are_shown_in_a_table() {
    let volume = VolumeInfo {
        mount_point: "/mnt/usb".to_string(),
        device: None,
        fs: "vfat".to_string(),
        total_bytes: 8 << 30,
        free_bytes: 512,
        kind: VolumeKind::Removable,
        label: Some("STICK".to_string()),
    };
    assert_eq!(volume.display_name(), "/mnt/usb (STICK)");
    let console = Console::new(ColorMode::Never, false);
    let shown = console.print_volumes(&[volume]);
    assert_eq!(
        shown[0],
        format!(
            "{:<4} {:<28} {:<12} {:<10} {:>12} {:>12}",
            "#", "Mount point", "Kind", "FS", "Total", "Free"
        )
    );
    assert_eq!(shown[1], "-".repeat(84));
    assert_eq!(
        shown[2],
        format!(
            "{:<4} {:<28} {:<12} {:<10} {:>12} {:>12}",
            1, "/mnt/usb", "Removable", "vfat", "8.00 GiB", "512 B"
        )
    );
    assert_eq!(shown.len(), 3);
}

#[test]
fn kinds_of_volumes_have_names() {
    assert_eq!(VolumeKind::Removable.label(), "Removable");
    assert_eq!(VolumeKind::Fixed.label(), "Fixed");
    assert_eq!(VolumeKind::Network.label(), "Network");
    assert_eq!(VolumeKind::Other.label(), "Other");
}

fn report() -> TestReport {
    let mut report = TestReport::new("/mnt/usb");
    report.passes_total = 3;
    report.passes_completed = 1;
    report.files_total = 5;
    report.files_passed = 5;
    report.expected_total = 2048;
    report.actual_total = 1024;
    report.capacity_ok = true;
    report.success = true;
    report
}

#[test]
fn a_good_report_says_so() {
    let throughput = Throughput { seconds: "2.50".to_string(), mib_per_sec: "7.1".to_string() };
    assert_eq!(
        lines(&emit_report(&report(), &Some(throughput), &None)),
        vec![
            (Style::Plain, "Target: /mnt/usb"),
            (Style::Plain, "Passes: 1/3"),
            (Style::Plain, "Files:  5 passed, 0 failed, 5 total"),
            (Style::Plain, "Write:  1.00 KiB in 2.50s (7.1 MiB/s)"),
            (Style::Good, "All checks passed."),
        ]
    );
    let throughput = Throughput { seconds: "0.10".to_string(), mib_per_sec: "9.0".to_string() };
    assert_eq!(
        lines(&emit_report(&report(), &None, &Some(throughput)))[3],
        (Style::Plain, "Read:   1.00 KiB in 0.10s (9.0 MiB/s)")
    );
    let printed = print_report(&report());
    assert_eq!(lines(&printed)[0], (Style::Plain, ""));
    assert_eq!(lines(&printed)[1..], lines(&emit_report(&report(), &None, &None))[..]);
}

#[test]
fn a_bad_report_names_the_failed_files() {
    let mut bad = report();
    bad.success = false;
    bad.capacity_ok = false;
    bad.files_passed = 3;
    bad.files_failed = 2;
    bad.failed_files = vec!["a.bin".to_string(), "b.bin".to_string()];
    assert_eq!(
        lines(&emit_report(&bad, &None, &None))[2..],
        [
            (Style::Plain, "Files:  3 passed, 2 failed, 5 total"),
            (Style::Fail, "Capacity shortfall: wrote 1.00 KiB of 2.00 KiB"),
            (Style::Fail, "Test failed."),
            (Style::Fail, "  failed: a.bin"),
            (Style::Fail, "  failed: b.bin"),
        ]
    );
}

#[test]
fn other_reports_tell_what_is_left() {
    let mut pending = report();
    pending.pending_verify = true;
    assert_eq!(
        lines(&emit_report(&pending, &None, &None)).last(),
        Some(&(Style::Warn, "Test data written. Verification is still pending."))
    );
    let mut failed = report();
    failed.success = false;
    assert_eq!(
        lines(&emit_report(&failed, &None, &None)).last(),
        Some(&(Style::Fail, "Test did not complete successfully."))
    );
}

#[test]
fn progress_is_shown_in_a_line() {
    assert_eq!(progress_line(1024, 2048, "3.5"), "  1.00 KiB / 2.00 KiB  3.5 MiB/s");
}
