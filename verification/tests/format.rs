use syslog_fmt::{
    Facility, Formatter3164, Formatter5424, LogFormat, SdParams, Severity, StructuredData,
    Timestamp,
};

fn reading() -> Timestamp {
    Timestamp::new(2024, 3, 9, 14, 5, 6, 123_456_789).unwrap()
}

fn bsd(hostname: Option<&str>) -> Formatter3164 {
    Formatter3164 {
        facility: Facility::LOG_USER,
        hostname: hostname.map(String::from),
        process: String::from("myapp"),
        pid: 123,
    }
}

fn structured(hostname: Option<&str>) -> Formatter5424 {
    Formatter5424 {
        facility: Facility::LOG_USER,
        hostname: hostname.map(String::from),
        process: String::from("myapp"),
        pid: 123,
    }
}

fn example_data() -> StructuredData {
    let mut params = SdParams::new();
    params.insert("iut".to_string(), "3".to_string());
    let mut data = StructuredData::new();
    data.insert("exampleSDID@0".to_string(), params);
    data
}

/// Whether `stamp` has the shape `Mon DD HH:MM:SS` with a space-padded day.
fn is_bsd_stamp(stamp: &str) -> bool {
    let months = [
        "Jan", "Feb", "Mar", "Apr", "May", "Jun", "Jul", "Aug", "Sep", "Oct", "Nov", "Dec",
    ];
    let b = stamp.as_bytes();
    b.len() == 15
        && months.contains(&&stamp[0..3])
        && b[3] == b' '
        && (b[4] == b' ' || (b'1'..=b'3').contains(&b[4]))
        && b[5].is_ascii_digit()
        && b[6] == b' '
        && b[7].is_ascii_digit()
        && b[8].is_ascii_digit()
        && b[9] == b':'
        && b[10].is_ascii_digit()
        && b[11].is_ascii_digit()
        && b[12] == b':'
        && b[13].is_ascii_digit()
        && b[14].is_ascii_digit()
}

#[test]
fn identity_that_was_not_found() {
    let d = Formatter3164::with_identity(None, None, 77);
    assert_eq!(d.facility, Facility::LOG_USER);
    assert_eq!(d.hostname, None);
    assert_eq!(d.process, "");
    assert_eq!(d.pid, 77);
    let d = Formatter5424::with_identity(None, None, 78);
    assert_eq!(d.facility, Facility::LOG_USER);
    assert_eq!(d.hostname, None);
    assert_eq!(d.process, "");
    assert_eq!(d.pid, 78);
}

#[test]
fn identity_that_was_found() {
    let d = Formatter3164::with_identity(
        Some("host1".to_string()),
        Some(("myapp".to_string(), 123)),
        77,
    );
    assert_eq!(d.hostname.as_deref(), Some("host1"));
    assert_eq!(d.process, "myapp");
    assert_eq!(d.pid, 123);
    let d = Formatter5424::with_identity(
        Some("host1".to_string()),
        Some(("myapp".to_string(), 123)),
        77,
    );
    assert_eq!(d.hostname.as_deref(), Some("host1"));
    assert_eq!(d.process, "myapp");
    assert_eq!(d.pid, 123);
}

#[test]
fn bsd_line_with_host_name() {
    let line = bsd(Some("host1")).format_at(&reading(), Severity::LOG_INFO, "hello");
    assert_eq!(line, "<14>Mar  9 14:05:06 host1 myapp[123]: hello");
}

#[test]
fn bsd_line_without_host_name() {
    let line = bsd(None).format_at(&reading(), Severity::LOG_INFO, "hello");
    assert_eq!(line, "<14>Mar  9 14:05:06 myapp[123]: hello");
}

#[test]
fn bsd_line_without_host_name_drops_the_token_and_its_space() {
    for host in ["host1", "a", "mymachine.example.com", ""] {
        for message in ["hello", "", "two words"] {
            let with = bsd(Some(host)).format_at(&reading(), Severity::LOG_ERR, message);
            let without = bsd(None).format_at(&reading(), Severity::LOG_ERR, message);
            let head = "<11>Mar  9 14:05:06 ";
            assert!(with.starts_with(head));
            assert!(without.starts_with(head));
            assert_eq!(with[head.len()..], format!("{} {}", host, &without[head.len()..]));
            assert_eq!(with.len(), without.len() + host.len() + 1);
        }
    }
}

#[test]
fn bsd_line_has_no_newline_and_no_leading_zero_in_the_priority() {
    let f = Formatter3164 {
        facility: Facility::LOG_KERN,
        hostname: Some("h".to_string()),
        process: "p".to_string(),
        pid: 0,
    };
    let line = f.format_at(&reading(), Severity::LOG_EMERG, "m");
    assert_eq!(line, "<0>Mar  9 14:05:06 h p[0]: m");
    let f = Formatter3164 { facility: Facility::LOG_LOCAL7, pid: u32::MAX, ..f };
    let line = f.format_at(&reading(), Severity::LOG_DEBUG, "m");
    assert_eq!(line, "<191>Mar  9 14:05:06 h p[4294967295]: m");
    assert!(!line.ends_with('\n'));
}

#[test]
fn bsd_line_for_the_clock() {
    let f = bsd(Some("host1"));
    let line = f.format(Severity::LOG_INFO, "hello").unwrap();
    assert!(line.starts_with("<14>"));
    assert!(line.ends_with(" host1 myapp[123]: hello"));
    let stamp = &line[4..line.len() - " host1 myapp[123]: hello".len()];
    assert!(is_bsd_stamp(stamp), "{:?}", stamp);
}

#[test]
fn bsd_shorthands_fix_the_severity() {
    let mut f = bsd(None);
    let tail = " myapp[123]: m";
    let lines = [
        (f.emerg("m"), "<8>"),
        (f.alert("m"), "<9>"),
        (f.crit("m"), "<10>"),
        (f.err("m"), "<11>"),
        (f.warning("m"), "<12>"),
        (f.notice("m"), "<13>"),
        (f.info("m"), "<14>"),
        (f.debug("m"), "<15>"),
    ];
    for (line, pri) in lines {
        let line = line.unwrap();
        assert!(line.starts_with(pri), "{:?}", line);
        assert!(line.ends_with(tail), "{:?}", line);
        assert!(is_bsd_stamp(&line[pri.len()..line.len() - tail.len()]), "{:?}", line);
    }
    assert_eq!(f.process, "myapp");
    assert_eq!(f.pid, 123);
}

#[test]
fn bsd_trait_and_inherent_rendering_agree() {
    let f = bsd(Some("host1"));
    let through_trait = <Formatter3164 as LogFormat<&str>>::format_at(
        &f,
        &reading(),
        Severity::LOG_WARNING,
        "m",
    );
    assert_eq!(through_trait, f.format_at(&reading(), Severity::LOG_WARNING, "m"));
    assert_eq!(through_trait, "<12>Mar  9 14:05:06 host1 myapp[123]: m");
}

#[test]
fn structured_line_with_everything() {
    let line = structured(Some("host1")).format_at(
        &reading(),
        Severity::LOG_INFO,
        Some("ID47".to_string()),
        example_data(),
        "hello",
    );
    assert_eq!(
        line,
        "<14>1 2024-03-09T14:05:06.123456Z host1 myapp 123 ID47 [exampleSDID@0 iut=\"3\"] hello"
    );
}

#[test]
fn structured_line_with_nothing() {
    let line = structured(None).format_at(
        &reading(),
        Severity::LOG_INFO,
        None,
        StructuredData::new(),
        "hello",
    );
    assert_eq!(line, "<14>1 2024-03-09T14:05:06.123456Z localhost myapp 123 - - hello");
}

#[test]
fn structured_line_floors_the_fraction_to_six_digits() {
    let now = Timestamp::new(2024, 3, 9, 14, 5, 6, 123_456_789).unwrap();
    let line = structured(None).format_at(&now, Severity::LOG_INFO, None, StructuredData::new(), "");
    let stamp = line.split(' ').nth(1).unwrap();
    assert_eq!(stamp, "2024-03-09T14:05:06.123456Z");
    let fraction = &stamp[stamp.find('.').unwrap() + 1..stamp.len() - 1];
    assert_eq!(fraction, "123456");
    assert_eq!(fraction.len(), 6);

    let now = Timestamp::new(2024, 3, 9, 14, 5, 6, 999_999_999).unwrap();
    let line = structured(None).format_at(&now, Severity::LOG_INFO, None, StructuredData::new(), "");
    assert_eq!(line.split(' ').nth(1).unwrap(), "2024-03-09T14:05:06.999999Z");
}

#[test]
fn numeric_message_id_is_its_decimal_text() {
    let f = structured(Some("host1"));
    let by_number = <Formatter5424 as LogFormat<(u32, StructuredData, &str)>>::format_at(
        &f,
        &reading(),
        Severity::LOG_NOTICE,
        (42, example_data(), "hello"),
    );
    let by_text = <Formatter5424 as LogFormat<(Option<String>, StructuredData, &str)>>::format_at(
        &f,
        &reading(),
        Severity::LOG_NOTICE,
        (Some("42".to_string()), example_data(), "hello"),
    );
    assert_eq!(by_number, by_text);
    assert_eq!(
        by_number,
        "<13>1 2024-03-09T14:05:06.123456Z host1 myapp 123 42 [exampleSDID@0 iut=\"3\"] hello"
    );
    for n in [0u32, 7, 10, 4294967295] {
        let by_number = <Formatter5424 as LogFormat<(u32, StructuredData, &str)>>::format_at(
            &f,
            &reading(),
            Severity::LOG_NOTICE,
            (n, StructuredData::new(), "m"),
        );
        let by_text = f.format_at(
            &reading(),
            Severity::LOG_NOTICE,
            Some(n.to_string()),
            StructuredData::new(),
            "m",
        );
        assert_eq!(by_number, by_text);
    }
}

#[test]
fn structured_line_filters_the_message_id_before_cutting_it() {
    let mut raw = String::new();
    for i in 0..20u8 {
        raw.push(char::from(b'a' + i));
        raw.push(' ');
    }
    assert_eq!(raw.chars().count(), 40);
    let line = structured(None).format_at(
        &reading(),
        Severity::LOG_INFO,
        Some(raw),
        StructuredData::new(),
        "m",
    );
    assert_eq!(
        line,
        "<14>1 2024-03-09T14:05:06.123456Z localhost myapp 123 abcdefghijklmnopqrst - m"
    );

    let long: String = "0123456789".repeat(5);
    let line = structured(None).format_at(
        &reading(),
        Severity::LOG_INFO,
        Some(long),
        StructuredData::new(),
        "m",
    );
    assert_eq!(
        line,
        "<14>1 2024-03-09T14:05:06.123456Z localhost myapp 123 \
         01234567890123456789012345678901 - m"
    );
}

#[test]
fn structured_line_for_the_clock() {
    let f = structured(None);
    let line = f
        .format(Severity::LOG_INFO, (Some("ID47".to_string()), example_data(), "hello"))
        .unwrap();
    assert!(line.starts_with("<14>1 "));
    assert!(line.ends_with("Z localhost myapp 123 ID47 [exampleSDID@0 iut=\"3\"] hello"));
    let stamp = line.split(' ').nth(1).unwrap();
    assert_eq!(&stamp[4..5], "-");
    assert_eq!(&stamp[10..11], "T");
    match stamp.find('.') {
        Some(dot) => {
            let fraction = &stamp[dot + 1..stamp.len() - 1];
            assert!(!fraction.is_empty() && fraction.len() <= 6);
            assert!(fraction.bytes().all(|b| b.is_ascii_digit()));
        }
        None => assert_eq!(stamp.len(), 20),
    }

    let by_number = f.format(Severity::LOG_INFO, (42u32, StructuredData::new(), "m")).unwrap();
    assert!(by_number.ends_with("Z localhost myapp 123 42 - m"));
}

#[test]
fn structured_shorthands_fix_the_severity() {
    let mut f = structured(Some("h"));
    let tail = "Z h myapp 123 - - m";
    let lines = [
        (f.emerg((None, StructuredData::new(), "m")), "<8>1 "),
        (f.alert((None, StructuredData::new(), "m")), "<9>1 "),
        (f.crit((None, StructuredData::new(), "m")), "<10>1 "),
        (f.err((None, StructuredData::new(), "m")), "<11>1 "),
        (f.warning((None, StructuredData::new(), "m")), "<12>1 "),
        (f.notice((None, StructuredData::new(), "m")), "<13>1 "),
        (f.info((None, StructuredData::new(), "m")), "<14>1 "),
        (f.debug((None, StructuredData::new(), "m")), "<15>1 "),
    ];
    for (line, head) in lines {
        let line = line.unwrap();
        assert!(line.starts_with(head), "{:?}", line);
        assert!(line.ends_with(tail), "{:?}", line);
    }
}

#[test]
fn formatters_can_be_used_again() {
    let f = bsd(Some("host1"));
    let first = f.format_at(&reading(), Severity::LOG_INFO, "hello");
    let second = f.format_at(&reading(), Severity::LOG_INFO, "hello");
    assert_eq!(first, second);
    let g = structured(Some("host1"));
    let first = g.format_at(&reading(), Severity::LOG_INFO, None, example_data(), "hello");
    let second = g.format_at(&reading(), Severity::LOG_INFO, None, example_data(), "hello");
    assert_eq!(first, second);
}

#[test]
fn structured_line_for_a_reading_that_can_be_written() {
    let f = structured(Some("host1"));
    let line = f.format_reading(
        &reading(),
        Severity::LOG_INFO,
        Some("ID47".to_string()),
        example_data(),
        "hello",
    );
    assert_eq!(
        line.as_deref(),
        Some("<14>1 2024-03-09T14:05:06.123456Z host1 myapp 123 ID47 [exampleSDID@0 iut=\"3\"] hello")
    );
    let first_year = Timestamp::new(0, 1, 1, 0, 0, 0, 0).unwrap();
    let line = f.format_reading(&first_year, Severity::LOG_INFO, None, StructuredData::new(), "m");
    assert_eq!(line.as_deref(), Some("<14>1 0000-01-01T00:00:00Z host1 myapp 123 - - m"));
}

#[test]
fn structured_line_for_a_reading_that_cannot_be_written() {
    let f = structured(Some("host1"));
    let before_year_zero = Timestamp::new(-1, 12, 31, 23, 59, 59, 0).unwrap();
    assert_eq!(
        f.format_reading(&before_year_zero, Severity::LOG_INFO, None, StructuredData::new(), "m"),
        None
    );
    let no_such_day = Timestamp {
        year: 2023,
        month: 2,
        day: 29,
        hour: 0,
        minute: 0,
        second: 0,
        nanosecond: 0,
    };
    assert_eq!(
        f.format_reading(&no_such_day, Severity::LOG_INFO, None, StructuredData::new(), "m"),
        None
    );
}
