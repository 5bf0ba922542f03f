use std::cell::RefCell;
use std::rc::Rc;
use streamguard_gateway::ids::{DeviceId, SessionId};
use streamguard_gateway::v2::address_pool::journal::{
    decode_lease_record, encode_lease_record, lease_state_from_wire, lease_state_to_wire,
    read_journal, write_journal, JOURNAL_RECORD_LEN,
};
use streamguard_gateway::v2::address_pool::pool_state::ReserveStep;
use streamguard_gateway::v2::address_pool::{
    AddressPool, AddressPoolConfig, AddressPoolError, AddressPoolMode, InMemoryLeaseStore,
    JournalLeaseStore, LeaseState, LeaseStore, OpenedStore, PersistedLease, StoreAnswer,
    StoreAnswers, StoreError, StoredLeases,
};
use streamguard_gateway::v2::persistence::PoolTime;
use streamguard_gateway::v2::runtime::{open_pool, V2GatewayRuntimeError};

type Disk = Rc<RefCell<Option<Vec<u8>>>>;

/// A journal on a disk that never fails.
struct DiskJournal {
    journal: JournalLeaseStore,
    disk: Disk,
}

impl DiskJournal {
    fn open(disk: &Disk) -> Result<DiskJournal, StoreError> {
        let contents = disk.borrow().clone();
        let journal = JournalLeaseStore::open(contents.as_deref())?;
        Ok(DiskJournal { journal, disk: Rc::clone(disk) })
    }
}

impl LeaseStore for DiskJournal {
    fn contents(&self) -> StoredLeases {
        unreachable!()
    }

    fn wf(&self) -> bool {
        true
    }

    fn files_once(&self) -> bool {
        true
    }

    fn answers(&self) -> StoreAnswers {
        unreachable!()
    }

    fn moves(&self, _answer: StoreAnswer, _after: &Self) -> bool {
        true
    }

    fn load(&mut self) -> Result<Vec<PersistedLease>, StoreError> {
        Ok(self.journal.leases())
    }

    fn persist(&mut self, lease: &PersistedLease) -> Result<(), StoreError> {
        let bytes = self.journal.stage_persist(lease)?;
        *self.disk.borrow_mut() = Some(bytes);
        self.journal.commit_persist(lease);
        Ok(())
    }

    fn release(&mut self, session_id: &SessionId) -> Result<(), StoreError> {
        let bytes = self.journal.stage_release(session_id)?;
        *self.disk.borrow_mut() = Some(bytes);
        self.journal.commit_release(session_id);
        Ok(())
    }
}

type Opened = AddressPool<OpenedStore<DiskJournal, InMemoryLeaseStore>>;

fn test_config(maximum_leases: usize) -> AddressPoolConfig {
    AddressPoolConfig::new(
        [10, 64, 0, 0],
        24,
        [10, 64, 0, 1],
        vec![[10, 64, 0, 254]],
        [0xfd, 0, 0, 0, 0, 0, 0, 0, 0, 0, 0, 0, 0, 0, 0, 0],
        48,
        maximum_leases,
        5_000,
        60_000,
        maximum_leases,
    )
    .unwrap()
}

fn session(byte: u8) -> SessionId {
    SessionId::from_bytes([byte; 16])
}

fn device(byte: u8) -> DeviceId {
    DeviceId::from_bytes([byte; 16])
}

fn sample() -> PersistedLease {
    PersistedLease {
        session_id: session(1),
        device_id: device(11),
        ipv4: [10, 64, 0, 2],
        ipv4_prefix_len: 24,
        ipv6_prefix: [0xfd, 0, 0, 0, 0, 0, 0, 1, 0, 0, 0, 0, 0, 0, 0, 0],
        ipv6_prefix_len: 64,
        state: LeaseState::Active,
        expires_at_ms: 200_000,
    }
}

fn open(disk: &Disk, now: PoolTime) -> Result<Opened, AddressPoolError> {
    Opened::open_at_time(
        test_config(4),
        AddressPoolMode::SelfHosted { journal: DiskJournal::open(disk) },
        now,
    )
}

#[test]
fn journal_roundtrip_and_reopen_recovers() {
    let disk: Disk = Rc::new(RefCell::new(None));
    let journal = DiskJournal::open(&disk).unwrap();
    let mut pool = AddressPool::with_store(test_config(4), journal, 1_000).unwrap();
    let lease = pool.reserve(session(1), device(11), 1_000).unwrap();
    pool.commit(session(1), 1_000).unwrap();
    assert!(disk.borrow().is_some(), "first persist must create the journal file");
    drop(pool);
    let mut journal = DiskJournal::open(&disk).unwrap();
    assert_eq!(journal.load().unwrap().len(), 1);
    let mut reopened = AddressPool::with_store(test_config(4), journal, 2_000).unwrap();
    assert_eq!(reopened.lookup(session(1)), Some(lease));
    assert_eq!(reopened.snapshot().recovered, 1);
    let other = reopened.reserve(session(2), device(12), 2_000).unwrap();
    assert_ne!(other.ipv4, lease.ipv4);
}

#[test]
fn journal_concurrent_reserve_and_reopen_recovers_all() {
    const CONCURRENT: u8 = 8;
    let disk: Disk = Rc::new(RefCell::new(None));
    let journal = DiskJournal::open(&disk).unwrap();
    let mut pool = AddressPool::with_store(test_config(16), journal, 1_000).unwrap();
    // Every reservation is under way before the first record is written, and
    // the records are written in another order.
    let now = PoolTime::from_monotonic(1_000);
    let mut plans = Vec::new();
    for index in 0..CONCURRENT {
        let begun = pool.state_mut().begin_reserve(session(40 + index), device(60 + index), now);
        match begun {
            Ok(ReserveStep::Persist(plan)) => plans.push(plan),
            _ => panic!("concurrent reserve must succeed"),
        }
    }
    plans.reverse();
    let mut leases = Vec::new();
    for plan in plans {
        let persisted = pool.store_mut().unwrap().persist(&plan.record()).is_ok();
        let reserved = pool.state_mut().finish_reserve(plan, persisted);
        leases.push(reserved.expect("concurrent reserve must succeed"));
    }
    let mut v4 = leases.iter().map(|lease| lease.ipv4).collect::<Vec<_>>();
    v4.sort();
    v4.dedup();
    assert_eq!(v4.len(), CONCURRENT as usize, "concurrent reserves must hold distinct IPv4 leases");
    let mut v6 = leases.iter().map(|lease| lease.ipv6_prefix).collect::<Vec<_>>();
    v6.sort();
    v6.dedup();
    assert_eq!(v6.len(), CONCURRENT as usize, "concurrent reserves must hold distinct IPv6 leases");
    for index in 0..CONCURRENT {
        pool.commit(session(40 + index), 1_000).unwrap();
    }
    assert_eq!(pool.snapshot().active, CONCURRENT as usize);
    drop(pool);
    let mut journal = DiskJournal::open(&disk).unwrap();
    assert_eq!(
        journal.load().unwrap().len(),
        CONCURRENT as usize,
        "journal file must contain every concurrent reserve"
    );
    let mut reopened = AddressPool::with_store(test_config(16), journal, 2_000).unwrap();
    assert_eq!(reopened.snapshot().recovered, CONCURRENT as u64);
    for index in 0..CONCURRENT {
        let recovered = reopened
            .lookup(session(40 + index))
            .expect("reopen must recover every concurrent lease");
        assert!(leases.contains(&recovered), "recovered lease must match a reserved lease");
        assert!(
            reopened.lookup_active(session(40 + index)).is_some(),
            "committed leases must reopen as Active and keep authorizing payload"
        );
    }
    let other = reopened.reserve(session(99), device(99), 2_000).unwrap();
    assert!(!leases.contains(&other), "recovered addresses must stay blocked for reuse");
}

#[test]
fn journal_corrupt_and_trailing_data_fail_closed() {
    let bad_magic = vec![0xFFu8; JOURNAL_RECORD_LEN];
    assert!(JournalLeaseStore::open(Some(&bad_magic)).is_err(), "bad magic must fail closed");
    let truncated = vec![0x53u8; JOURNAL_RECORD_LEN - 1];
    assert!(JournalLeaseStore::open(Some(&truncated)).is_err(), "short read must fail closed");
    let journal = JournalLeaseStore::open(None).unwrap();
    let mut trailing = journal.stage_persist(&sample()).unwrap();
    assert!(JournalLeaseStore::open(Some(&trailing)).is_ok());
    trailing.push(0xAA);
    assert!(JournalLeaseStore::open(Some(&trailing)).is_err(), "trailing data must fail closed");
    let mut record = Vec::new();
    encode_lease_record(&mut record, &sample());
    record[5] = 0xFF;
    assert!(JournalLeaseStore::open(Some(&record)).is_err(), "unknown state must fail closed");
}

#[test]
fn a_journal_names_a_session_once() {
    let mut bytes = Vec::new();
    encode_lease_record(&mut bytes, &sample());
    encode_lease_record(&mut bytes, &sample());
    assert!(matches!(JournalLeaseStore::open(Some(&bytes)), Err(StoreError::Corrupt)));
}

#[test]
fn records_are_read_as_they_were_written() {
    let mut bytes = Vec::new();
    encode_lease_record(&mut bytes, &sample());
    assert_eq!(bytes.len(), JOURNAL_RECORD_LEN);
    assert_eq!(&bytes[0..4], b"SGAL");
    assert_eq!(decode_lease_record(&bytes, 0), Some(sample()));
    let reserved = PersistedLease { state: LeaseState::Reserved, session_id: session(2), ..sample() };
    let both = write_journal(&vec![sample(), reserved]);
    assert_eq!(read_journal(&both), Ok(vec![sample(), reserved]));
    assert_eq!(decode_lease_record(&both, JOURNAL_RECORD_LEN), Some(reserved));
}

#[test]
fn lease_states_have_one_byte_each() {
    for state in [LeaseState::Reserved, LeaseState::Active, LeaseState::ReleasePending] {
        assert_eq!(lease_state_from_wire(lease_state_to_wire(state)), Some(state));
    }
    assert_eq!(lease_state_from_wire(0xFF), None);
}

#[test]
fn pool_open_modes_recover_explicitly_and_fail_closed() {
    let mut ephemeral =
        Opened::open(test_config(2), AddressPoolMode::Ephemeral, 1_000).unwrap();
    ephemeral.reserve(session(1), device(11), 1_000).unwrap();
    assert!(ephemeral.lookup(session(1)).is_some());
    let disk: Disk = Rc::new(RefCell::new(None));
    let mut pool = open(&disk, PoolTime::from_monotonic(1_000)).unwrap();
    let lease = pool.reserve(session(1), device(11), 1_000).unwrap();
    pool.commit(session(1), 1_000).unwrap();
    let reopened = open(&disk, PoolTime::from_monotonic(2_000)).unwrap();
    assert_eq!(reopened.lookup(session(1)), Some(lease));
    let store = InMemoryLeaseStore::new();
    let mut pool =
        Opened::open(test_config(4), AddressPoolMode::Managed { store }, 1_000).unwrap();
    let managed_lease = pool.reserve(session(7), device(17), 1_000).unwrap();
    pool.commit(session(7), 1_000).unwrap();
    let store = match pool.into_store() {
        Some(OpenedStore::Managed(adapter)) => adapter.into_inner(),
        _ => panic!("a managed pool keeps its store"),
    };
    let managed =
        Opened::open(test_config(4), AddressPoolMode::Managed { store }, 2_000).unwrap();
    assert_eq!(managed.lookup(session(7)), Some(managed_lease));
    let mut failing = InMemoryLeaseStore::new();
    failing.fail_next_loads(100);
    let refused = Opened::open(test_config(2), AddressPoolMode::Managed { store: failing }, 1_000);
    assert!(refused.is_err());
    let corrupt: Disk = Rc::new(RefCell::new(Some(vec![1, 2, 3])));
    assert!(open(&corrupt, PoolTime::from_monotonic(1_000)).is_err());
}

#[test]
fn a_start_needs_its_lease_journal() {
    let disk: Disk = Rc::new(RefCell::new(Some(vec![1, 2, 3])));
    let refused = open_pool(test_config(4), DiskJournal::open(&disk), PoolTime::new(1, 1));
    assert!(matches!(refused, Err(V2GatewayRuntimeError::Unavailable)));
    let empty: Disk = Rc::new(RefCell::new(None));
    assert!(open_pool(test_config(4), DiskJournal::open(&empty), PoolTime::new(1, 1)).is_ok());
}

#[test]
fn wall_clock_expiry_survives_restart_and_converts_safely() {
    let disk: Disk = Rc::new(RefCell::new(None));
    let start = PoolTime::new(1_000, 1_000_000);
    let mut pool = open(&disk, start).unwrap();
    let lease = pool.reserve_at_time(session(1), device(11), start).unwrap();
    pool.commit_at_time(session(1), start).unwrap();
    pool.renew_at_time(session(1), PoolTime::new(2_000, 1_001_000)).unwrap();
    drop(pool);
    let mut reopened = open(&disk, PoolTime::new(3_000, 1_002_000)).unwrap();
    assert_eq!(reopened.lookup(session(1)), Some(lease));
    assert!(reopened.lookup_active(session(1)).is_some());
    assert!(reopened.sweep(61_999).is_empty());
    assert_eq!(reopened.sweep(62_000), vec![session(1)]);
    assert!(reopened.lookup(session(1)).is_none());

    let expired: Disk = Rc::new(RefCell::new(None));
    let start = PoolTime::new(1_000, 2_000_000);
    let mut pool = open(&expired, start).unwrap();
    pool.reserve_at_time(session(5), device(15), start).unwrap();
    pool.commit_at_time(session(5), start).unwrap();
    drop(pool);
    let mut restarted = open(&expired, PoolTime::new(70_000, 2_061_000)).unwrap();
    assert!(restarted.lookup(session(5)).is_none(), "expired wall must not recover");
    assert_eq!(restarted.snapshot().recovered_dropped, 1);
    restarted.reserve(session(6), device(16), 70_000).unwrap();
    restarted.commit(session(6), 70_000).unwrap();
    assert!(restarted.lookup_active(session(6)).is_some());
}
