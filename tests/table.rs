use icmp_prober::error::{Error, TargetParams};
use icmp_prober::table::CorrelationTable;

fn checksum(b: &[u8], skip: usize) -> u16 {
    let mut s: u32 = 0;
    for k in 0..(b.len() + 1) / 2 {
        if k == skip {
            continue;
        }
        let lo = if 2 * k + 1 < b.len() { b[2 * k + 1] as u32 } else { 0 };
        s += (b[2 * k] as u32) * 256 + lo;
    }
    while s >> 16 != 0 {
        s = (s >> 16) + (s & 0xffff);
    }
    !(s as u16)
}

/// Writes correct IPv4 and ICMP checksums into a network-layer packet.
fn seal(b: &mut [u8]) {
    let hl = std::cmp::max(20, (b[0] as usize & 15) * 4);
    let c = checksum(&b[..hl], 5);
    b[10..12].copy_from_slice(&c.to_be_bytes());
    let c = checksum(&b[hl..], 1);
    b[hl + 2..hl + 4].copy_from_slice(&c.to_be_bytes());
}

fn echo_reply(src: [u8; 4], seq: u16) -> Vec<u8> {
    let mut b = vec![0u8; 28];
    b[0] = 0x45;
    b[3] = 28;
    b[9] = 1;
    b[12..16].copy_from_slice(&src);
    b[26] = (seq >> 8) as u8;
    b[27] = seq as u8;
    seal(&mut b);
    b
}

#[test]
fn duplicate_key_is_refused() {
    let mut t = CorrelationTable::new();
    let k = TargetParams { addr: 7, seq: 1 };
    t.register(k, "a").unwrap();
    assert!(matches!(t.register(k, "b"), Err(Error::DuplicateKey(d)) if d == k));
    assert_eq!(t.take(k), Some("a"));
}

#[test]
fn take_is_idempotent() {
    let mut t = CorrelationTable::new();
    let k = TargetParams { addr: 7, seq: 1 };
    t.register(k, 5u8).unwrap();
    assert_eq!(t.take(k), Some(5));
    assert_eq!(t.take(k), None);
    assert_eq!(t.len(), 0);
}

#[test]
fn keys_differ_by_address_and_sequence() {
    let mut t = CorrelationTable::new();
    t.register(TargetParams { addr: 1, seq: 0 }, 1u8).unwrap();
    t.register(TargetParams { addr: 0, seq: 1 }, 2u8).unwrap();
    t.register(TargetParams { addr: 0x0001_0000, seq: 0 }, 3u8).unwrap();
    assert_eq!(t.len(), 3);
}

#[test]
fn reply_with_other_sequence_is_dropped() {
    let mut t = CorrelationTable::new();
    let k = TargetParams { addr: 0x0a00_0002, seq: 4 };
    t.register(k, "waiting").unwrap();
    assert!(t.route(&echo_reply([10, 0, 0, 2], 5)).is_none());
    assert!(t.contains(k));
    let (h, o) = t.route(&echo_reply([10, 0, 0, 2], 4)).unwrap();
    assert_eq!(h, "waiting");
    assert_eq!((o.addr, o.seq), (0x0a00_0002, 4));
    assert!(!t.contains(k));
    assert!(t.route(&echo_reply([10, 0, 0, 2], 4)).is_none());
}

#[test]
fn unrelated_traffic_is_dropped() {
    let mut t = CorrelationTable::new();
    let k = TargetParams { addr: 0x0a00_0002, seq: 4 };
    t.register(k, 1u8).unwrap();
    let mut b = echo_reply([10, 0, 0, 2], 4);
    b[9] = 17;
    seal(&mut b);
    assert!(t.route(&b).is_none());
    assert!(t.route(&echo_reply([10, 0, 0, 3], 4)).is_none());
    assert_eq!(t.len(), 1);
}
