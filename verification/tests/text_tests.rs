use proc_manager::filters::{filter_services, hits};
use proc_manager::services::{ServiceInfo, ServiceStatus};
use proc_manager::text::{
    contains, decimal, join_from, lines, parse_u64, parse_usize, remove_all, replace_char,
    split_whitespace, str_eq,
};

#[test]
fn hits_lowercases_the_field() {
    assert!(hits("NGINX Proxy", "nginx proxy"));
    assert!(hits("ÄÖ", "äö"));
}

#[test]
fn hits_compares_in_lower_case() {
    assert!(hits("PostgreSQL", "postgres"));
    assert!(!hits("PostgreSQL", "Postgres"));
    assert!(!hits("redis", "mongo"));
}

#[test]
fn split_whitespace_drops_empty_words() {
    let w = split_whitespace("  kill \t node  app ");
    assert_eq!(w, vec!["kill".to_string(), "node".to_string(), "app".to_string()]);
    assert!(split_whitespace("   ").is_empty());
}

#[test]
fn join_from_skips_the_first_parts() {
    let parts = vec!["a".to_string(), "b".to_string(), "c".to_string()];
    assert_eq!(join_from(&parts, 1, " "), "b c");
    assert_eq!(join_from(&parts, 0, ", "), "a, b, c");
    assert_eq!(join_from(&parts, 3, " "), "");
}

#[test]
fn contains_finds_substrings() {
    assert!(contains("running (Up 3 hours)", "running"));
    assert!(contains("abc", ""));
    assert!(!contains("abc", "abcd"));
}

#[test]
fn parse_numbers_like_std() {
    assert_eq!(parse_u64("1024"), Some(1024));
    assert_eq!(parse_u64("+7"), Some(7));
    assert_eq!(parse_u64("-7"), None);
    assert_eq!(parse_u64(""), None);
    assert_eq!(parse_u64("18446744073709551616"), None);
    assert_eq!(parse_usize("42x"), None);
    assert_eq!(parse_usize("0042"), Some(42));
}

#[test]
fn lines_split_like_std() {
    assert_eq!(lines("a\nb\r\n\nc"), vec!["a".to_string(), "b".to_string(), "".to_string(), "c".to_string()]);
    assert_eq!(lines("a\n"), vec!["a".to_string()]);
    assert!(lines("").is_empty());
}

#[test]
fn remove_and_replace() {
    assert_eq!(remove_all("ssh.service", ".service"), "ssh");
    assert_eq!(remove_all("/web/db", "/"), "webdb");
    assert_eq!(replace_char("my app logs", ' ', '_'), "my_app_logs");
}

#[test]
fn decimal_writes_digits() {
    assert_eq!(decimal(0), "0");
    assert_eq!(decimal(8080), "8080");
    assert_eq!(decimal(u64::MAX), "18446744073709551615");
}

#[test]
fn str_eq_compares_texts() {
    assert!(str_eq("kill", "kill"));
    assert!(!str_eq("kill", "Kill"));
}

#[test]
fn service_filter_lowercases_the_query() {
    let services = vec![
        ServiceInfo { name: "nginx".to_string(), description: "Web server".to_string(), status: ServiceStatus::Running, is_enabled: true },
        ServiceInfo { name: "sshd".to_string(), description: "OpenSSH daemon".to_string(), status: ServiceStatus::Stopped, is_enabled: true },
    ];
    let kept = filter_services(&services, "NGINX");
    assert_eq!(kept.len(), 1);
    assert_eq!(kept[0].name, "nginx");
    let kept = filter_services(&services, "openssh");
    assert_eq!(kept.len(), 1);
    assert_eq!(kept[0].name, "sshd");
    assert_eq!(filter_services(&services, "").len(), 2);
}
