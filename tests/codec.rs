use icmp_prober::codec::{EthernetConf, IcmpProbe, FRAME_LEN};
use icmp_prober::error::{Error, TargetParams};

fn conf() -> EthernetConf {
    EthernetConf {
        source: [2, 0, 0, 0, 0, 1],
        destination: [2, 0, 0, 0, 0, 2],
        ethertype: 0x0800,
        address: 0x0a00_0001,
    }
}

fn ones_sum_folds(b: &[u8]) -> u32 {
    let mut s: u32 = 0;
    for k in 0..b.len() / 2 {
        s += (b[2 * k] as u32) * 256 + b[2 * k + 1] as u32;
    }
    while s >> 16 != 0 {
        s = (s >> 16) + (s & 0xffff);
    }
    s
}

fn checksum(b: &[u8], skip: usize) -> u16 {
    let mut s: u32 = 0;
    for k in 0..(b.len() + 1) / 2 {
        if k == skip {
            continue;
        }
        let lo = if 2 * k + 1 < b.len() { b[2 * k + 1] as u32 } else { 0 };
        s += (b[2 * k] as u32) * 256 + lo;
    }
    while s >> 16 != 0 {
        s = (s >> 16) + (s & 0xffff);
    }
    !(s as u16)
}

/// Writes correct IPv4 and ICMP checksums into a network-layer packet.
fn seal(b: &mut [u8]) {
    let hl = std::cmp::max(20, (b[0] as usize & 15) * 4);
    let c = checksum(&b[..hl], 5);
    b[10..12].copy_from_slice(&c.to_be_bytes());
    let c = checksum(&b[hl..], 1);
    b[hl + 2..hl + 4].copy_from_slice(&c.to_be_bytes());
}

const TEMPLATE: [u8; 42] = [
    2, 0, 0, 0, 0, 2, 2, 0, 0, 0, 0, 1, 8, 0, 69, 0, 0, 28, 0, 0, 0, 0, 101, 1, 75, 225, 10, 0, 0,
    1, 0, 0, 0, 0, 8, 0, 0, 0, 0, 42, 0, 0,
];

const REQUEST: [u8; 42] = [
    2, 0, 0, 0, 0, 2, 2, 0, 0, 0, 0, 1, 8, 0, 69, 0, 0, 28, 0, 0, 0, 0, 101, 1, 65, 223, 10, 0, 0,
    1, 10, 0, 0, 2, 8, 0, 247, 210, 0, 42, 0, 3,
];

#[test]
fn template_is_byte_exact() {
    let p = IcmpProbe::new(&conf()).unwrap();
    assert_eq!(p.packet(), &TEMPLATE[..]);
}

#[test]
fn many_builds_identical_slots() {
    let v = IcmpProbe::many(3, &conf()).unwrap();
    assert_eq!(v.len(), 3);
    for p in &v {
        assert_eq!(p.packet(), &TEMPLATE[..]);
    }
    assert!(IcmpProbe::many(0, &conf()).unwrap().is_empty());
}

#[test]
fn update_writes_target_and_checksums() {
    let mut p = IcmpProbe::new(&conf()).unwrap();
    p.update_icmp_request_packet(0x0a00_0002, 3).unwrap();
    assert_eq!(p.packet(), &REQUEST[..]);
    assert_eq!(p.packet().len(), FRAME_LEN);
}

#[test]
fn update_twice_depends_only_on_last_target() {
    let mut p = IcmpProbe::new(&conf()).unwrap();
    p.update_icmp_request_packet(0xc0a8_0101, 9).unwrap();
    p.update_icmp_request_packet(0x0a00_0002, 3).unwrap();
    assert_eq!(p.packet(), &REQUEST[..]);
}

#[test]
fn request_checksums_verify() {
    let mut p = IcmpProbe::new(&conf()).unwrap();
    for (addr, seq) in [(0x0a00_0002u32, 0u16), (0xffff_ffff, 65535), (0, 0), (0x0808_0808, 9)] {
        p.update_icmp_request_packet(addr, seq).unwrap();
        let f = p.packet();
        assert_eq!(ones_sum_folds(&f[14..34]), 0xffff);
        assert_eq!(ones_sum_folds(&f[34..42]), 0xffff);
    }
    let t = IcmpProbe::new(&conf()).unwrap();
    assert_eq!(ones_sum_folds(&t.packet()[14..34]), 0xffff);
}

#[test]
fn round_trip_recovers_target_and_sequence() {
    let mut p = IcmpProbe::new(&conf()).unwrap();
    p.update_icmp_request_packet(0x0a00_0002, 7).unwrap();
    let mut reply = p.packet()[14..].to_vec();
    reply[20] = 0;
    // the type changed, the ICMP checksum did not: rejected
    assert!(IcmpProbe::validate_response(&reply).is_none());
    reply[12..16].copy_from_slice(&[10, 0, 0, 2]);
    reply[16..20].copy_from_slice(&[10, 0, 0, 1]);
    seal(&mut reply);
    let (t, o) = IcmpProbe::validate_response(&reply).unwrap();
    assert_eq!(t, TargetParams { addr: 0x0a00_0002, seq: 7 });
    assert_eq!((o.addr, o.seq), (0x0a00_0002, 7));
    assert_eq!(ones_sum_folds(&reply[..20]), 0xffff);
    assert_eq!(ones_sum_folds(&reply[20..]), 0xffff);
}

fn echo_reply(src: [u8; 4], seq: u16) -> Vec<u8> {
    let mut b = vec![0u8; 28];
    b[0] = 0x45;
    b[3] = 28;
    b[8] = 64;
    b[9] = 1;
    b[12..16].copy_from_slice(&src);
    b[26] = (seq >> 8) as u8;
    b[27] = seq as u8;
    seal(&mut b);
    b
}

#[test]
fn validate_accepts_echo_reply() {
    let (t, _) = IcmpProbe::validate_response(&echo_reply([192, 168, 1, 1], 0x0102)).unwrap();
    assert_eq!(t, TargetParams { addr: 0xc0a8_0101, seq: 0x0102 });
}

#[test]
fn validate_rejects_other_protocol() {
    let mut b = echo_reply([1, 2, 3, 4], 1);
    b[9] = 6;
    seal(&mut b);
    assert!(IcmpProbe::validate_response(&b).is_none());
}

#[test]
fn validate_rejects_echo_request_and_nonzero_code() {
    let mut b = echo_reply([1, 2, 3, 4], 1);
    b[20] = 8;
    seal(&mut b);
    assert!(IcmpProbe::validate_response(&b).is_none());
    let mut b = echo_reply([1, 2, 3, 4], 1);
    b[21] = 1;
    seal(&mut b);
    assert!(IcmpProbe::validate_response(&b).is_none());
}

#[test]
fn validate_rejects_short_packets() {
    assert!(IcmpProbe::validate_response(&[]).is_none());
    let b = echo_reply([1, 2, 3, 4], 1);
    assert!(IcmpProbe::validate_response(&b[..19]).is_none());
    assert!(IcmpProbe::validate_response(&b[..23]).is_none());
    assert!(IcmpProbe::validate_response(&b[..27]).is_none());
}

#[test]
fn validate_takes_header_length_from_length_fields() {
    // 4 bytes of options: the header-length field says 24, the reply follows it
    let mut b = vec![0u8; 32];
    b[0] = 0x46;
    b[3] = 32;
    b[9] = 1;
    b[12..16].copy_from_slice(&[10, 9, 8, 7]);
    b[30] = 0;
    b[31] = 5;
    seal(&mut b);
    let (t, _) = IcmpProbe::validate_response(&b).unwrap();
    assert_eq!(t, TargetParams { addr: 0x0a09_0807, seq: 5 });
}

#[test]
fn error_variants_are_distinct() {
    let t = TargetParams { addr: 1, seq: 2 };
    assert!(matches!(Error::Timeout(t), Error::Timeout(d) if d == t));
    assert!(matches!(Error::ConfigError("x".to_string()), Error::ConfigError(_)));
}

#[test]
fn validate_rejects_bad_ipv4_checksum() {
    let mut b = echo_reply([1, 2, 3, 4], 1);
    b[11] ^= 1;
    assert!(IcmpProbe::validate_response(&b).is_none());
}

#[test]
fn validate_rejects_bad_icmp_checksum() {
    let mut b = echo_reply([1, 2, 3, 4], 1);
    b[23] ^= 1;
    assert!(IcmpProbe::validate_response(&b).is_none());
    let mut b = echo_reply([1, 2, 3, 4], 1);
    b[27] ^= 0x10;
    assert!(IcmpProbe::validate_response(&b).is_none());
}

#[test]
fn validate_accepts_odd_length_message() {
    let mut b = vec![0u8; 29];
    b[0] = 0x45;
    b[3] = 29;
    b[9] = 1;
    b[12..16].copy_from_slice(&[10, 0, 0, 5]);
    b[27] = 6;
    b[28] = 0xab;
    seal(&mut b);
    let (t, _) = IcmpProbe::validate_response(&b).unwrap();
    assert_eq!(t, TargetParams { addr: 0x0a00_0005, seq: 6 });
    b[28] = 0xac;
    assert!(IcmpProbe::validate_response(&b).is_none());
}

#[test]
fn validate_rejects_header_length_below_five_words() {
    let mut b = vec![0u8; 24];
    b[0] = 0x40;
    b[3] = 20;
    b[9] = 1;
    b[12..16].copy_from_slice(&[10, 0, 0, 5]);
    seal(&mut b);
    assert!(IcmpProbe::validate_response(&b).is_none());
    let mut b = echo_reply([10, 0, 0, 5], 1);
    b[0] = 0x44;
    seal(&mut b);
    assert!(IcmpProbe::validate_response(&b).is_none());
}

#[test]
fn validate_rejects_total_length_beyond_buffer() {
    let mut b = echo_reply([10, 0, 0, 5], 1);
    b[3] = 40;
    seal(&mut b);
    assert!(IcmpProbe::validate_response(&b).is_none());
}

#[test]
fn validate_accepts_checksum_stored_as_all_ones() {
    let mut b = vec![0u8; 28];
    b[0] = 0x45;
    b[3] = 28;
    b[9] = 1;
    b[12..16].copy_from_slice(&[10, 0, 0, 5]);
    b[24] = 0xff;
    b[25] = 0xff;
    seal(&mut b);
    // the ICMP words sum to 0xffff, so the computed checksum is 0
    assert_eq!(b[22..24], [0, 0]);
    b[22] = 0xff;
    b[23] = 0xff;
    let (t, _) = IcmpProbe::validate_response(&b).unwrap();
    assert_eq!(t, TargetParams { addr: 0x0a00_0005, seq: 0 });
    assert_eq!(ones_sum_folds(&b[20..]), 0xffff);
}
