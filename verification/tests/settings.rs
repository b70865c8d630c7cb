use hi_kafka::ini_config::{
    drain_timeout_ms, ini_entries, log_file, log_level, metrics_addr, Source,
};
use hi_kafka::path::same_path;
use hi_kafka::spawn::{SpawnConfig, SpawnSources};
use hi_kafka::text::{chars_of, parse_u64, parse_usize, push_decimal};

fn source(env: Option<&str>, ini: Option<&str>) -> Source {
    Source {
        env: env.map(|s| s.to_string()),
        ini: ini.map(|s| s.to_string()),
    }
}

#[test]
fn the_environment_comes_before_ini_and_default() {
    assert_eq!(log_level(&source(Some("debug"), Some("warn"))), "debug");
    assert_eq!(log_level(&source(None, Some("warn"))), "warn");
    assert_eq!(log_level(&source(None, None)), "info");
}

#[test]
fn empty_settings_count_as_missing() {
    assert_eq!(log_level(&source(Some(""), Some("warn"))), "warn");
    assert_eq!(log_level(&source(Some(""), Some(""))), "info");
    assert_eq!(log_file(&source(Some(""), Some(""))), None);
    assert_eq!(
        log_file(&source(None, Some("/var/log/worker.log"))),
        Some("/var/log/worker.log".to_string())
    );
}

#[test]
fn drain_timeout_is_a_number_or_the_default() {
    assert_eq!(drain_timeout_ms(&source(Some("250"), Some("1"))), 250);
    assert_eq!(drain_timeout_ms(&source(Some("soon"), Some("1"))), 1);
    assert_eq!(drain_timeout_ms(&source(Some(""), None)), 10_000);
    assert_eq!(drain_timeout_ms(&source(None, Some("-1"))), 10_000);
    assert_eq!(drain_timeout_ms(&source(Some("+7"), None)), 7);
    assert_eq!(
        drain_timeout_ms(&source(Some("18446744073709551615"), None)),
        u64::MAX
    );
    assert_eq!(
        drain_timeout_ms(&source(Some("18446744073709551616"), Some("3"))),
        3
    );
}

#[test]
fn metrics_are_off_unless_an_address_is_given() {
    let parse = |s: &str| s.parse::<u16>().ok();
    assert_eq!(metrics_addr(&source(None, Some("")), parse), None);
    assert_eq!(metrics_addr(&source(None, Some("9100")), parse), Some(9100));
    assert_eq!(metrics_addr(&source(Some("x"), Some("9100")), parse), None);
}

#[test]
fn ini_entries_hold_the_defaults() {
    let expected = [
        ("hi_kafka.log_level", "info"),
        ("hi_kafka.log_file", ""),
        ("hi_kafka.drain_timeout_ms", "10000"),
        ("hi_kafka.metrics_addr", ""),
    ];
    let entries = ini_entries();
    assert_eq!(entries.len(), expected.len());
    for (entry, want) in entries.iter().zip(expected.iter()) {
        assert_eq!((entry.0.as_str(), entry.1.as_str()), *want);
    }
}

#[test]
fn the_registered_drain_default_is_the_default() {
    let registered = ini_entries()[2].1.clone();
    assert_eq!(
        drain_timeout_ms(&source(None, Some(&registered))),
        drain_timeout_ms(&source(None, None))
    );
}

#[test]
fn spawn_config_is_settled_from_all_sources() {
    let sources = SpawnSources {
        brokers: Some("kafka:9092".to_string()),
        log_level: source(None, None),
        log_file: source(Some("/tmp/w.log"), None),
        drain_timeout_ms: source(None, Some("500")),
    };
    let cfg = SpawnConfig::from_env("/tmp/w.sock".to_string(), &sources);
    assert_eq!(cfg.socket, "/tmp/w.sock");
    assert_eq!(cfg.brokers.as_deref(), Some("kafka:9092"));
    assert_eq!(cfg.log_level, "info");
    assert_eq!(cfg.log_file.as_deref(), Some("/tmp/w.log"));
    assert_eq!(cfg.drain_timeout_ms, 500);
    assert_eq!(cfg.ready_timeout_ms, 5000);

    let child = cfg.to_child_config(Some(9100u16));
    assert_eq!(child.socket, "/tmp/w.sock");
    assert_eq!(child.brokers.as_deref(), Some("kafka:9092"));
    assert_eq!(child.log_level, "info");
    assert_eq!(child.log_file.as_deref(), Some("/tmp/w.log"));
    assert_eq!(child.drain_timeout_ms, 500);
    assert_eq!(child.metrics_addr, Some(9100));
}

#[test]
fn numbers_are_written_and_read() {
    for n in [0u64, 7, 10, 99, 1_000_000, u64::MAX] {
        let mut s = "n=".to_string();
        push_decimal(&mut s, n);
        assert_eq!(s, format!("n={n}"));
        assert_eq!(parse_u64(&s[2..]), Some(n));
    }
}

#[test]
fn numbers_are_read_as_std_reads_them() {
    for s in [
        "", "+", "-", "-0", "+0", "007", " 1", "1 ", "1_0", "0x1", "٣", "++1",
        "18446744073709551615", "18446744073709551616", "99999999999999999999999",
    ] {
        assert_eq!(parse_u64(s), s.parse::<u64>().ok(), "{s:?}");
        assert_eq!(parse_usize(s), s.parse::<usize>().ok(), "{s:?}");
    }
}

#[test]
fn characters_are_listed_in_order() {
    assert_eq!(chars_of("a长b"), vec!['a', '长', 'b']);
}

#[test]
fn paths_are_compared_by_their_components() {
    let paths = [
        "", ".", "..", "/", "//", "a", "a/", "./a", "/a", "/a/", "//a", "a/b", "a//b", "a/./b",
        "a/b/.", "a/../b", "/a/./b//", "/a/b", "./", "./.", "/.",
    ];
    for a in paths {
        for b in paths {
            let expected = std::path::Path::new(a) == std::path::Path::new(b);
            assert_eq!(same_path(a, b), expected, "{a:?} {b:?}");
        }
    }
}
