use streamguard_gateway::id_map::IdMap;
use streamguard_gateway::ids::TicketId;
use streamguard_gateway::v2::admission::{AdmissionError, ReplayCache, ReplayCacheError};
use streamguard_gateway::v2::replay::{
    read_replay_journal, rewrite_replay_journal, RedemptionScope, RedemptionScopeError, ReplayFile,
    ReplayJournalError,
};

fn ticket(byte: u8) -> TicketId {
    TicketId::from_bytes([byte; 16])
}

fn entries(pairs: &[(u8, u64)]) -> IdMap<u64> {
    let mut map = IdMap::new();
    for (byte, retained) in pairs {
        map.insert(ticket(*byte).key, *retained);
    }
    map
}

fn read(bytes: &[u8], name: &str, now: u64) -> Result<Vec<(u128, u64)>, ReplayJournalError> {
    read_replay_journal(&ReplayFile::Present(bytes.to_vec()), name, now).map(|map| listed(&map))
}

fn listed(map: &IdMap<u64>) -> Vec<(u128, u64)> {
    let mut pairs = Vec::new();
    for byte in 0..=255u8 {
        if let Some(value) = map.get(ticket(byte).key) {
            pairs.push((ticket(byte).key, *value));
        }
    }
    pairs
}

#[test]
fn scope_parsing_accepts_single_and_explicitly_rejects_multi() {
    assert_eq!(RedemptionScope::parse("single-gateway"), Ok(RedemptionScope::SingleGateway));
    assert_eq!(
        RedemptionScope::parse("multi-gateway"),
        Err(RedemptionScopeError::MultiGatewayRejected)
    );
    assert_eq!(
        RedemptionScope::parse("shared"),
        Err(RedemptionScopeError::MultiGatewayRejected)
    );
    assert_eq!(
        RedemptionScope::parse("clustered"),
        Err(RedemptionScopeError::MultiGatewayRejected)
    );
    assert_eq!(RedemptionScope::parse(""), Err(RedemptionScopeError::InvalidScope));
    assert_eq!(
        RedemptionScope::parse("SINGLE-GATEWAY"),
        Err(RedemptionScopeError::InvalidScope)
    );
}

#[test]
fn scope_text_parses_back() {
    assert_eq!(
        RedemptionScope::parse(RedemptionScope::SingleGateway.as_str()),
        Ok(RedemptionScope::SingleGateway)
    );
}

#[test]
fn missing_journal_loads_empty_and_round_trips() {
    let loaded = read_replay_journal(&ReplayFile::Missing, "iad-1.example.test", 1_000).unwrap();
    assert!(listed(&loaded).is_empty());

    let snapshot = entries(&[(1, 2_000), (2, 3_000)]);
    let bytes = rewrite_replay_journal("iad-1.example.test", &snapshot).unwrap();
    let reloaded = read(&bytes, "iad-1.example.test", 1_000).unwrap();
    assert_eq!(reloaded, listed(&snapshot));
}

#[test]
fn gateway_mismatch_and_bad_header_fail_closed() {
    let bytes = rewrite_replay_journal("iad-1.example.test", &entries(&[(1, 2_000)])).unwrap();
    assert_eq!(read(&bytes, "iad-2.example.test", 1_000), Err(ReplayJournalError::Corrupt));

    let mut bad_magic = bytes.clone();
    bad_magic[0] = b'X';
    assert_eq!(read(&bad_magic, "iad-1.example.test", 1_000), Err(ReplayJournalError::Corrupt));

    let mut trailing = bytes.clone();
    trailing.push(0);
    assert_eq!(read(&trailing, "iad-1.example.test", 1_000), Err(ReplayJournalError::Corrupt));
}

#[test]
fn expired_entries_are_pruned_on_load() {
    let bytes = rewrite_replay_journal("gw.test", &entries(&[(1, 1_030), (2, 5_000)])).unwrap();
    let loaded = read(&bytes, "gw.test", 1_030).unwrap();
    assert_eq!(loaded.len(), 1);
    assert_eq!(loaded[0].0, ticket(2).key);
}

#[test]
fn duplicate_and_zero_records_fail_closed() {
    let header = |len: u8| {
        let mut bytes = Vec::new();
        bytes.extend_from_slice(b"SGTR");
        bytes.push(1);
        bytes.push(0);
        bytes.push(len);
        bytes.push(0);
        bytes.extend_from_slice(b"gw");
        bytes
    };
    let mut bytes = header(2);
    for _ in 0..2 {
        bytes.extend_from_slice(&[9u8; 16]);
        bytes.extend_from_slice(&2_000u64.to_be_bytes());
    }
    assert_eq!(read(&bytes, "gw", 1_000), Err(ReplayJournalError::Corrupt));
    let mut zero = header(2);
    zero.extend_from_slice(&[0u8; 16]);
    zero.extend_from_slice(&2_000u64.to_be_bytes());
    assert_eq!(read(&zero, "gw", 1_000), Err(ReplayJournalError::Corrupt));
}

#[test]
fn unreadable_and_insecure_journals_are_refused() {
    assert!(read_replay_journal(&ReplayFile::Unreadable, "gw", 1).is_err());
    assert!(read_replay_journal(&ReplayFile::Insecure, "gw", 1).is_err());
}

#[test]
fn replay_cache_is_atomic_bounded_and_reports_expiry() {
    let mut cache = ReplayCache::new(1).unwrap();
    assert_eq!(cache.consume(ticket(1), 1, 1), Ok(()));
    assert_eq!(cache.consume(ticket(1), 1, 1), Err(ReplayCacheError::Replay));
    assert_eq!(cache.consume(ticket(2), 1, 1), Err(ReplayCacheError::Capacity));
    let mut shared = ReplayCache::new(2).unwrap();
    let first = shared.consume(ticket(3), 100, 1);
    let second = shared.consume(ticket(3), 100, 1);
    assert_eq!([first, second].into_iter().filter(|result| result.is_ok()).count(), 1);
    assert_eq!(cache.consume(ticket(4), 1, 40), Ok(()));
    let snapshot = cache.snapshot();
    assert_eq!(snapshot.entries, 1);
    assert_eq!(snapshot.replay_rejected, 1);
    assert_eq!(snapshot.capacity_rejected, 1);
    assert_eq!(snapshot.expired, 1);
}

#[test]
fn a_replay_cache_needs_a_bounded_capacity() {
    assert!(matches!(ReplayCache::new(0), Err(AdmissionError::InvalidConfiguration)));
    assert!(ReplayCache::new(65_536).is_ok());
    assert!(matches!(
        ReplayCache::open_durable(&ReplayFile::Missing, "gw", 65_537, 1),
        Err(AdmissionError::InvalidConfiguration)
    ));
}

#[test]
fn redemptions_survive_a_restart() {
    let (cache, journal) = ReplayCache::open_durable(&ReplayFile::Missing, "gw", 4, 1_000).unwrap();
    assert_eq!(read(&journal, "gw", 1_000), Ok(vec![]));
    let mut cache = cache.opened(true).unwrap();
    let redemption = match cache.begin_consume(ticket(7), 2_000, 1_000) {
        Ok(redemption) => redemption,
        Err(error) => panic!("a fresh ticket redeems: {error:?}"),
    };
    let written = redemption.journal.clone().unwrap();
    assert_eq!(cache.end_consume(redemption, true).unwrap().ticket_id(), ticket(7));

    let file = ReplayFile::Present(written);
    let (restarted, _) = ReplayCache::open_durable(&file, "gw", 4, 1_500).unwrap();
    let mut restarted = restarted.opened(true).unwrap();
    assert!(matches!(
        restarted.begin_consume(ticket(7), 2_000, 1_500),
        Err(ReplayCacheError::Replay)
    ));
    assert!(matches!(
        ReplayCache::open_durable(&file, "other", 4, 1_500),
        Err(AdmissionError::ReplayStore)
    ));
}

#[test]
fn a_redemption_that_was_not_written_is_undone() {
    let (cache, _) = ReplayCache::open_durable(&ReplayFile::Missing, "gw", 4, 1_000).unwrap();
    let mut cache = cache.opened(true).unwrap();
    let redemption = match cache.begin_consume(ticket(7), 2_000, 1_000) {
        Ok(redemption) => redemption,
        Err(error) => panic!("a fresh ticket redeems: {error:?}"),
    };
    assert_eq!(cache.end_consume(redemption, false), Err(ReplayCacheError::Unavailable));
    assert!(cache.begin_consume(ticket(7), 2_000, 1_000).is_ok());
    assert!(matches!(
        cache.begin_consume(ticket(8), 2_000, 1_000),
        Err(ReplayCacheError::Unavailable)
    ));
    let (unwritten, _) = ReplayCache::open_durable(&ReplayFile::Missing, "gw", 4, 1).unwrap();
    assert!(matches!(unwritten.opened(false), Err(AdmissionError::ReplayStore)));
}
