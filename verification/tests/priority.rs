use syslog_fmt::{encode_priority, Facility, Severity};

fn severities() -> Vec<Severity> {
    vec![
        Severity::LOG_EMERG,
        Severity::LOG_ALERT,
        Severity::LOG_CRIT,
        Severity::LOG_ERR,
        Severity::LOG_WARNING,
        Severity::LOG_NOTICE,
        Severity::LOG_INFO,
        Severity::LOG_DEBUG,
    ]
}

fn facilities() -> Vec<(Facility, u8)> {
    vec![
        (Facility::LOG_KERN, 0),
        (Facility::LOG_USER, 1),
        (Facility::LOG_MAIL, 2),
        (Facility::LOG_DAEMON, 3),
        (Facility::LOG_AUTH, 4),
        (Facility::LOG_SYSLOG, 5),
        (Facility::LOG_LPR, 6),
        (Facility::LOG_NEWS, 7),
        (Facility::LOG_UUCP, 8),
        (Facility::LOG_CRON, 9),
        (Facility::LOG_AUTHPRIV, 10),
        (Facility::LOG_FTP, 11),
        (Facility::LOG_LOCAL0, 16),
        (Facility::LOG_LOCAL1, 17),
        (Facility::LOG_LOCAL2, 18),
        (Facility::LOG_LOCAL3, 19),
        (Facility::LOG_LOCAL4, 20),
        (Facility::LOG_LOCAL5, 21),
        (Facility::LOG_LOCAL6, 22),
        (Facility::LOG_LOCAL7, 23),
    ]
}

#[test]
fn severity_codes_run_from_0_to_7() {
    for (i, s) in severities().into_iter().enumerate() {
        assert_eq!(s.code() as usize, i);
    }
}

#[test]
fn facility_codes_are_the_number_shifted_by_three() {
    for (f, number) in facilities() {
        assert_eq!(f.code(), number << 3);
    }
}

#[test]
fn priority_is_facility_code_or_severity_code() {
    for (f, number) in facilities() {
        for s in severities() {
            let p = encode_priority(s, f);
            assert_eq!(p, f.code() | s.code());
            assert_eq!(p, number * 8 + s.code());
            assert!(p <= 191);
            assert_eq!(p, encode_priority(s, f));
        }
    }
}

#[test]
fn priority_of_chosen_pairs() {
    assert_eq!(encode_priority(Severity::LOG_INFO, Facility::LOG_USER), 14);
    assert_eq!(encode_priority(Severity::LOG_EMERG, Facility::LOG_KERN), 0);
    assert_eq!(encode_priority(Severity::LOG_DEBUG, Facility::LOG_LOCAL7), 191);
    assert_eq!(encode_priority(Severity::LOG_CRIT, Facility::LOG_LOCAL4), 162);
    assert_eq!(encode_priority(Severity::LOG_ERR, Facility::LOG_DAEMON), 27);
}

#[test]
fn priorities_of_different_pairs_differ() {
    let mut seen = Vec::new();
    for (f, _) in facilities() {
        for s in severities() {
            let p = encode_priority(s, f);
            assert!(!seen.contains(&p));
            seen.push(p);
        }
    }
    assert_eq!(seen.len(), 160);
}

#[test]
fn default_facility_is_user() {
    assert_eq!(Facility::default(), Facility::LOG_USER);
}
