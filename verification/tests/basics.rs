use streamguard_gateway::arith::{count, count_flags, power_of_two};
use streamguard_gateway::encoding::{append_be, be_bytes_4, be_u32, copy_range, read_be, same_bytes};
use streamguard_gateway::id_map::IdMap;
use streamguard_gateway::ids::{DeviceId, OrganizationId, SessionId, TicketId};
use streamguard_gateway::text::same_text;
use streamguard_gateway::time::Span;

#[test]
fn identifiers_round_trip_and_order_as_their_bytes() {
    let low: [u8; 16] = [0, 1, 2, 3, 4, 5, 6, 7, 8, 9, 10, 11, 12, 13, 14, 15];
    let high: [u8; 16] = [1, 0, 0, 0, 0, 0, 0, 0, 0, 0, 0, 0, 0, 0, 0, 0];
    assert_eq!(SessionId::from_bytes(low).as_bytes(), low);
    assert_eq!(DeviceId::from_bytes(low).as_bytes(), low);
    assert_eq!(TicketId::from_bytes(high).as_bytes(), high);
    assert_eq!(OrganizationId::from_bytes(high).as_bytes(), high);
    assert!(SessionId::from_bytes(low).key < SessionId::from_bytes(high).key);
    assert_eq!(SessionId::from_bytes(high).key, 1u128 << 120);
    assert_eq!(SessionId::from_bytes([0; 16]).key, 0);
}

#[test]
fn big_endian_numbers_round_trip() {
    let mut out = vec![7];
    append_be(&mut out, 0x0102_03, 4);
    assert_eq!(out, vec![7, 0, 1, 2, 3]);
    assert_eq!(read_be(&out, 1, 4), 0x0102_03);
    assert_eq!(read_be(&out, 0, 0), 0);
    assert_eq!(be_bytes_4(0x0a40_0001), [10, 64, 0, 1]);
    assert_eq!(be_u32([10, 64, 0, 1]), 0x0a40_0001);
    assert_eq!(copy_range(&out, 1, 3), vec![0, 1]);
    assert!(same_bytes(&out, &[7, 0, 1, 2, 3]));
    assert!(!same_bytes(&out, &[7, 0, 1, 2]));
    assert!(same_text("gateway-1", "gateway-1"));
    assert!(!same_text("gateway-1", "gateway-2"));
}

#[test]
fn counters_wrap() {
    assert_eq!(count(41, 1), 42);
    assert_eq!(count(u64::MAX, 1), 0);
    assert_eq!(count_flags(&vec![true, false, true]), 2);
    assert_eq!(power_of_two(0), 1);
    assert_eq!(power_of_two(64), 1u128 << 64);
}

#[test]
fn maps_keep_their_keys_in_order() {
    let mut map: IdMap<u8> = IdMap::new();
    for key in [5u128, 1, 9, 5] {
        map.insert(key, key as u8);
    }
    assert_eq!(map.len(), 3);
    assert_eq!(map.entries(), vec![(1, 1), (5, 5), (9, 9)]);
    assert_eq!(map.copied().entries(), map.entries());
    assert_eq!(map.get(5), Some(&5));
    assert_eq!(map.remove(5), Some(5));
    assert_eq!(map.remove(5), None);
    assert!(!map.contains(5));
    let kept = map.select(&vec![false, true]);
    assert_eq!(kept.len(), 1);
    assert_eq!(kept.entries(), vec![(9, 9)]);
}

#[test]
fn spans_carry_and_saturate() {
    let span = Span::new(1, 2_500_000_000);
    assert_eq!((span.as_secs(), span.subsec_nanos()), (3, 500_000_000));
    assert_eq!(span.as_millis(), 3_500);
    assert_eq!(span.as_nanos(), 3_500_000_000);
    assert_eq!(Span::new(u64::MAX, 1).as_nanos(), u64::MAX as u128 * 1_000_000_000 + 1);
    assert_eq!(Span::from_millis(1_250), Span::new(1, 250_000_000));
    assert_eq!(Span::from_secs(2).as_millis(), 2_000);
    assert!(Span::from_millis(0).is_zero());
    assert!(!Span::new(0, 1).is_zero());
    assert_eq!(Span::new(u64::MAX, 1_000_000_000).as_secs(), u64::MAX);
}
