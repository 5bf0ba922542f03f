use streamguard_gateway::v2::config::{reject_journal_collisions, V2GatewayConfigError};
use streamguard_gateway::v2::paths::{has_trailing_separator, journal_tmp_path, lexical_normalize};

fn normalized(path: &str) -> String {
    String::from_utf8(lexical_normalize(path.as_bytes())).unwrap()
}

fn temporary(path: &str) -> String {
    String::from_utf8(journal_tmp_path(path.as_bytes())).unwrap()
}

fn collisions(lease: &str, replay: &str) -> Result<(), V2GatewayConfigError> {
    reject_journal_collisions(lease.as_bytes(), replay.as_bytes())
}

#[test]
fn lexical_normalize_resolves_dot_and_dotdot_without_filesystem() {
    assert_eq!(normalized("a/./b"), "a/b");
    assert_eq!(normalized("a/b/../b/c.journal"), "a/b/c.journal");
    assert_eq!(normalized("a//b/c.journal"), "a/b/c.journal");
    assert_eq!(normalized("/a/../b/c.journal"), "/b/c.journal");
    assert_eq!(normalized("/../b.journal"), "/b.journal");
    assert_eq!(normalized("a/../../b.journal"), "../b.journal");
}

#[test]
fn normal_forms_of_corner_cases() {
    assert_eq!(normalized(""), ".");
    assert_eq!(normalized("."), ".");
    assert_eq!(normalized("a/.."), ".");
    assert_eq!(normalized("/"), "/");
    assert_eq!(normalized("//a/"), "/a");
    assert_eq!(normalized("../.."), "../..");
    for path in ["a/../../b", "/x/./y/..", "", "./..", "/../.."] {
        let once = normalized(path);
        assert_eq!(normalized(&once), once, "normalizing is idempotent on {path}");
    }
}

#[test]
fn journal_collisions_reject_same_tmp_alias_and_lexical_alias() {
    assert!(collisions("/var/lib/sg/leases.journal", "/var/lib/sg/replay.journal").is_ok());
    let refused = Err(V2GatewayConfigError::FilesystemRef);
    assert_eq!(collisions("/var/lib/sg/shared.journal", "/var/lib/sg/shared.journal"), refused);
    assert_eq!(collisions("/var/lib/sg/leases.journal", "/var/lib/sg/leases.tmp"), refused);
    assert_eq!(collisions("/var/lib/sg/a.journal", "/var/lib/sg/a.replay"), refused);
    assert_eq!(collisions("a/./leases.journal", "a/leases.journal"), refused);
    assert_eq!(
        collisions("/var/lib/sg/dir/../sg/leases.journal", "/var/lib/sg/sg/leases.journal"),
        refused
    );
    assert_eq!(collisions("/var/lib/sg/leases.tmp", "/var/lib/sg/replay.journal"), refused);
    assert_eq!(collisions("/var/lib/sg/", "/var/lib/sg/replay.journal"), refused);
}

#[test]
fn journals_must_name_files() {
    let refused = Err(V2GatewayConfigError::FilesystemRef);
    assert_eq!(collisions("/", "/var/lib/sg/replay.journal"), refused);
    assert_eq!(collisions("..", "replay.journal"), refused);
    assert_eq!(collisions(".", "replay.journal"), refused);
    assert_eq!(collisions("leases.journal", ""), refused);
    assert!(collisions("leases", "replay").is_ok());
}

#[test]
fn temporary_files_replace_the_extension() {
    assert_eq!(temporary("/var/lib/sg/leases.journal"), "/var/lib/sg/leases.tmp");
    assert_eq!(temporary("leases"), "leases.tmp");
    assert_eq!(temporary("a.b/leases"), "a.b/leases.tmp");
    assert_eq!(temporary(".journal"), ".journal.tmp");
    assert_eq!(temporary("a.b.c"), "a.b.tmp");
}

#[test]
fn a_trailing_separator_means_a_directory() {
    assert!(has_trailing_separator(b""));
    assert!(has_trailing_separator(b"/"));
    assert!(has_trailing_separator(b"a/"));
    assert!(!has_trailing_separator(b"a"));
    assert!(!has_trailing_separator(b"a/b"));
}
