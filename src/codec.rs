//! The request frame (Ethernet + IPv4 + ICMP Echo Request) and the parsing
//! of replies (IPv4 + ICMP Echo Reply, without a link-layer header).
use vstd::prelude::*;
use vstd::slice::slice_subrange;
use crate::checksum::{
    checksum_verifies, internet_checksum, icmp_message_checksum, ipv4_header_checksum,
    ipv4_header_span, lemma_checksum_ignores_field, lemma_checksum_verifies,
    lemma_stored_checksum_verifies, lemma_verifies_iff,
};
use crate::error::{Error, TargetParams};

verus! {

pub const ETHERNET_HEADER_LEN: usize = 14;
pub const IPV4_HEADER_LEN: usize = 20;
pub const ICMP_ECHO_LEN: usize = 8;
pub const FRAME_LEN: usize = ETHERNET_HEADER_LEN + IPV4_HEADER_LEN + ICMP_ECHO_LEN;
/// Time to live of every request.
pub const REQUEST_TTL: u8 = 101;
/// ICMP identifier of every request.
pub const REQUEST_IDENTIFIER: u16 = 42;
pub const PROTOCOL_ICMP: u8 = 1;
pub const ICMP_ECHO_REQUEST: u8 = 8;
pub const ICMP_ECHO_REPLY: u8 = 0;

/// The resolved link and network addresses of the outgoing interface.
#[derive(Clone, Copy, Debug)]
pub struct EthernetConf {
    pub source: [u8; 6],
    pub destination: [u8; 6],
    pub ethertype: u16,
    /// IPv4 address of the interface, as the big-endian integer of its octets.
    pub address: u32,
}

/// What a validated Echo Reply tells: who answered, and to which sequence number.
#[derive(Clone, Copy, Debug, PartialEq, Eq, Structural)]
pub struct IcmpOutput {
    pub addr: u32,
    pub seq: u16,
}

/// One reusable send buffer holding a full request frame.
#[derive(Debug)]
pub struct IcmpProbe {
    buf: Vec<u8>,
}

impl View for IcmpProbe {
    type V = Seq<u8>;

    closed spec fn view(&self) -> Seq<u8> {
        self.buf@
    }
}

pub open spec fn zeros(n: nat) -> Seq<u8> {
    Seq::new(n, |_i: int| 0u8)
}

pub open spec fn put16(s: Seq<u8>, i: int, v: u16) -> Seq<u8> {
    s.update(i, (v / 256) as u8).update(i + 1, (v % 256) as u8)
}

pub open spec fn put32(s: Seq<u8>, i: int, v: u32) -> Seq<u8> {
    s.update(i, (v / 0x1000000) as u8).update(i + 1, ((v / 0x10000) % 256) as u8).update(
        i + 2,
        ((v / 256) % 256) as u8,
    ).update(i + 3, (v % 256) as u8)
}

pub open spec fn put6(s: Seq<u8>, i: int, m: Seq<u8>) -> Seq<u8> {
    s.update(i, m[0]).update(i + 1, m[1]).update(i + 2, m[2]).update(i + 3, m[3]).update(
        i + 4,
        m[4],
    ).update(i + 5, m[5])
}

pub open spec fn get16(s: Seq<u8>, i: int) -> nat {
    (s[i] as nat) * 256 + (s[i + 1] as nat)
}

pub open spec fn get32(s: Seq<u8>, i: int) -> nat {
    (s[i] as nat) * 0x1000000 + (s[i + 1] as nat) * 0x10000 + (s[i + 2] as nat) * 256 + (
    s[i + 3] as nat)
}

/// The template before its IPv4 checksum: every field that never changes.
pub open spec fn template_fields(c: EthernetConf) -> Seq<u8> {
    let s = put16(put6(put6(zeros(42), 0, c.destination@), 6, c.source@), 12, c.ethertype);
    let s = put16(s.update(14, 0x45), 16, 28);
    let s = put32(s.update(22, REQUEST_TTL).update(23, PROTOCOL_ICMP), 26, c.address);
    put16(s.update(34, ICMP_ECHO_REQUEST), 38, REQUEST_IDENTIFIER)
}

/// The frame a slot holds after construction: fixed fields and their IPv4 checksum.
pub open spec fn template(c: EthernetConf) -> Seq<u8> {
    let s = template_fields(c);
    put16(s, 24, internet_checksum(s.subrange(14, 34), 5))
}

/// A frame readied for one attempt: destination and sequence number written,
/// then both checksums recomputed with their fields zeroed.
pub open spec fn with_target(s: Seq<u8>, addr: u32, seq: u16) -> Seq<u8> {
    let a = put16(put32(s, 30, addr), 24, 0);
    let b = put16(a, 24, internet_checksum(a.subrange(14, 34), 5));
    let c = put16(put16(b, 40, seq), 36, 0);
    put16(c, 36, internet_checksum(c.subrange(34, 42), 1))
}

/// The request frame sent to `addr` with sequence number `seq`.
pub open spec fn request_frame(c: EthernetConf, addr: u32, seq: u16) -> Seq<u8> {
    with_target(template(c), addr, seq)
}

/// Offset of the IPv4 payload as the packet's header-length field places it.
pub open spec fn payload_start(b: Seq<u8>) -> int {
    let hl = (b[0] % 16) as int * 4;
    if hl < 20 { 20 } else { hl }
}

/// Length of the IPv4 payload: what the total-length field leaves after the
/// header, cut off at the end of the buffer.
pub open spec fn payload_len(b: Seq<u8>) -> int {
    let hl = (b[0] % 16) as int * 4;
    let total = get16(b, 2) as int;
    let start = payload_start(b);
    let want = if total > hl { total - hl } else { 0 };
    if b.len() <= start {
        0
    } else if start + want < b.len() {
        want
    } else {
        b.len() - start
    }
}

/// Where the Echo Reply starts: total length minus payload length.
pub open spec fn reply_offset(b: Seq<u8>) -> int {
    get16(b, 2) as int - payload_len(b)
}

/// The IPv4 header of a received packet: everything before the payload.
pub open spec fn reply_header(b: Seq<u8>) -> Seq<u8> {
    b.subrange(0, payload_start(b))
}

/// The ICMP message of a received packet: the IPv4 payload.
pub open spec fn reply_message(b: Seq<u8>) -> Seq<u8> {
    b.subrange(payload_start(b), payload_start(b) + payload_len(b))
}

/// The key of a network-layer packet that is a valid ICMP Echo Reply (a
/// header-length field of at least five words, a total length within the
/// buffer, right protocol, type and code, room for the reply, and both
/// checksums verifying): its source address and its sequence number; `None`
/// for anything else.
pub open spec fn reply_key(b: Seq<u8>) -> Option<TargetParams> {
    if b.len() < 20 || b[9] != PROTOCOL_ICMP || b[0] % 16 < 5 || get16(b, 2) > b.len() {
        None
    } else if payload_len(b) < 4 || b[payload_start(b)] != ICMP_ECHO_REPLY || b[payload_start(b)
        + 1] != 0 {
        None
    } else if !checksum_verifies(reply_header(b)) || !checksum_verifies(reply_message(b)) {
        None
    } else if reply_offset(b) < 0 || reply_offset(b) + 8 > b.len() {
        None
    } else {
        Some(
            TargetParams {
                addr: get32(b, 12) as u32,
                seq: get16(b, reply_offset(b) + 6) as u16,
            },
        )
    }
}

/// Every accepted reply has an IPv4 header and an ICMP message whose
/// checksums verify as a receiver checks them.
pub proof fn lemma_accepted_reply_checksums(b: Seq<u8>)
    requires
        reply_key(b) is Some,
    ensures
        checksum_verifies(reply_header(b)),
        checksum_verifies(reply_message(b)),
{
}

/// Two bytes written as `put16` writes them read back as the value.
pub proof fn lemma_bytes16(t: Seq<u8>, i: int, v: u16)
    requires
        0 <= i,
        i + 1 < t.len(),
        t[i] == (v / 256) as u8,
        t[i + 1] == (v % 256) as u8,
    ensures
        get16(t, i) == v,
{
    assert((v / 256) * 256 + v % 256 == v) by (nonlinear_arith);
}

/// Four bytes written as `put32` writes them read back as the value.
pub proof fn lemma_bytes32(t: Seq<u8>, i: int, v: u32)
    requires
        0 <= i,
        i + 3 < t.len(),
        t[i] == (v / 0x1000000) as u8,
        t[i + 1] == ((v / 0x10000) % 256) as u8,
        t[i + 2] == ((v / 256) % 256) as u8,
        t[i + 3] == (v % 256) as u8,
    ensures
        get32(t, i) == v,
{
    assert(v / 0x1000000 < 256) by (nonlinear_arith);
    assert((v / 0x1000000) * 0x1000000 + ((v / 0x10000) % 256) * 0x10000 + ((v / 256) % 256)
        * 256 + v % 256 == v) by (nonlinear_arith);
}

/// What the target sends back for a request: the network-layer packet with
/// source and destination exchanged, the type turned into Echo Reply, and
/// both checksums recomputed.
pub open spec fn echo_reply_to(c: EthernetConf, addr: u32, seq: u16) -> Seq<u8> {
    let p = request_frame(c, addr, seq).subrange(14, 42);
    let q = put32(put32(p, 12, addr), 16, c.address).update(20, ICMP_ECHO_REPLY);
    let h = put16(q, 10, internet_checksum(q.subrange(0, 20), 5));
    put16(h, 22, internet_checksum(h.subrange(20, 28), 1))
}

/// Round trip: the reply to a request built for `(addr, seq)` is accepted and
/// yields `(addr, seq)`.
pub proof fn lemma_round_trip(c: EthernetConf, addr: u32, seq: u16)
    ensures
        reply_key(echo_reply_to(c, addr, seq)) == Some(TargetParams { addr, seq }),
{
    let p = request_frame(c, addr, seq).subrange(14, 42);
    let q = put32(put32(p, 12, addr), 16, c.address).update(20, ICMP_ECHO_REPLY);
    let ck = internet_checksum(q.subrange(0, 20), 5);
    let h = put16(q, 10, ck);
    let ck2 = internet_checksum(h.subrange(20, 28), 1);
    let r = put16(h, 22, ck2);
    assert(r == echo_reply_to(c, addr, seq));
    assert(r.len() == 28);
    assert(r[0] == 0x45 && r[2] == 0 && r[3] == 28 && r[9] == 1 && r[20] == 0 && r[21] == 0);
    assert(get16(r, 2) == 28);
    assert(reply_header(r) =~= r.subrange(0, 20));
    assert(reply_message(r) =~= r.subrange(20, 28));
    lemma_checksum_ignores_field(q.subrange(0, 20), r.subrange(0, 20), 5);
    lemma_bytes16(r, 10, ck);
    lemma_stored_checksum_verifies(r.subrange(0, 20), 5);
    lemma_checksum_ignores_field(h.subrange(20, 28), r.subrange(20, 28), 1);
    lemma_bytes16(r.subrange(20, 28), 2, ck2);
    lemma_stored_checksum_verifies(r.subrange(20, 28), 1);
    lemma_bytes32(r, 12, addr);
    lemma_bytes16(r, 26, seq);
}

/// Every request frame carries an IPv4 header and an ICMP message whose
/// checksums verify as a receiver checks them.
pub proof fn lemma_request_checksums(c: EthernetConf, addr: u32, seq: u16)
    ensures
        checksum_verifies(request_frame(c, addr, seq).subrange(14, 34)),
        checksum_verifies(request_frame(c, addr, seq).subrange(34, 42)),
{
    let t = template(c);
    let a = put16(put32(t, 30, addr), 24, 0);
    let ha = a.subrange(14, 34);
    let ck = internet_checksum(ha, 5);
    let b = put16(a, 24, ck);
    let cc = put16(put16(b, 40, seq), 36, 0);
    let ma = cc.subrange(34, 42);
    let ck2 = internet_checksum(ma, 1);
    let f = put16(cc, 36, ck2);
    assert(f == request_frame(c, addr, seq));
    lemma_checksum_verifies(ha, 5);
    assert(f.subrange(14, 34) =~= ha.update(10, (ck / 256) as u8).update(11, (ck % 256) as u8));
    lemma_checksum_verifies(ma, 1);
    assert(f.subrange(34, 42) =~= ma.update(2, (ck2 / 256) as u8).update(3, (ck2 % 256) as u8));
}

/// Whether byte `i` of a frame is one the template fixes for good.
pub open spec fn is_fixed_byte(i: int) -> bool {
    &&& 0 <= i < FRAME_LEN
    &&& !(24 <= i < 26)
    &&& !(30 <= i < 34)
    &&& !(36 <= i < 38)
    &&& !(40 <= i < 42)
}

/// Two full frames that agree at every byte the template fixes.
pub open spec fn fixed_fields_agree(a: Seq<u8>, b: Seq<u8>) -> bool {
    &&& a.len() == FRAME_LEN
    &&& b.len() == FRAME_LEN
    &&& forall|i: int| is_fixed_byte(i) ==> a[i] == b[i]
}

/// Frames that agree at the fixed bytes are readied into the same frame: a
/// reused slot sends what a fresh one would.
pub proof fn lemma_with_target_fixed(s: Seq<u8>, t: Seq<u8>, addr: u32, seq: u16)
    requires
        fixed_fields_agree(s, t),
    ensures
        with_target(s, addr, seq) == with_target(t, addr, seq),
        fixed_fields_agree(with_target(s, addr, seq), s),
{
    let a_s = put16(put32(s, 30, addr), 24, 0);
    let a_t = put16(put32(t, 30, addr), 24, 0);
    assert(is_fixed_byte(22) && is_fixed_byte(14) && is_fixed_byte(34));
    assert(a_s.subrange(14, 34) =~= a_t.subrange(14, 34)) by {
        assert forall|i: int| 14 <= i < 34 implies a_s[i] == a_t[i] by {
            if !(24 <= i < 26) && !(30 <= i < 34) {
                assert(is_fixed_byte(i));
            }
        }
    }
    let b_s = put16(a_s, 24, internet_checksum(a_s.subrange(14, 34), 5));
    let b_t = put16(a_t, 24, internet_checksum(a_t.subrange(14, 34), 5));
    let c_s = put16(put16(b_s, 40, seq), 36, 0);
    let c_t = put16(put16(b_t, 40, seq), 36, 0);
    assert(c_s.subrange(34, 42) =~= c_t.subrange(34, 42)) by {
        assert forall|i: int| 34 <= i < 42 implies c_s[i] == c_t[i] by {
            if !(36 <= i < 38) && !(40 <= i < 42) {
                assert(is_fixed_byte(i));
            }
        }
    }
    assert(with_target(s, addr, seq) =~= with_target(t, addr, seq)) by {
        assert forall|i: int| 0 <= i < 42 implies with_target(s, addr, seq)[i] == with_target(
            t,
            addr,
            seq,
        )[i] by {
            if is_fixed_byte(i) {
            }
        }
    }
}

/// Whether two frames agree at every byte the template fixes.
pub fn fixed_fields_match(a: &[u8], b: &[u8]) -> (r: bool)
    ensures
        r == fixed_fields_agree(a@, b@),
{
    if a.len() != FRAME_LEN || b.len() != FRAME_LEN {
        return false;
    }
    let mut i: usize = 0;
    while i < FRAME_LEN
        invariant
            i <= FRAME_LEN,
            a@.len() == FRAME_LEN,
            b@.len() == FRAME_LEN,
            forall|j: int| 0 <= j < i && is_fixed_byte(j) ==> a@[j] == b@[j],
        decreases FRAME_LEN - i,
    {
        let fixed = !(24 <= i && i < 26) && !(30 <= i && i < 34) && !(36 <= i && i < 38) && !(40
            <= i && i < 42);
        if fixed && a[i] != b[i] {
            assert(is_fixed_byte(i as int));
            return false;
        }
        i = i + 1;
    }
    true
}

fn set16(buf: &mut Vec<u8>, i: usize, v: u16)
    requires
        i + 1 < old(buf)@.len(),
        old(buf)@.len() == FRAME_LEN,
    ensures
        final(buf)@ == put16(old(buf)@, i as int, v),
{
    buf.set(i, (v / 256) as u8);
    buf.set(i + 1, (v % 256) as u8);
}

fn set32(buf: &mut Vec<u8>, i: usize, v: u32)
    requires
        i + 3 < old(buf)@.len(),
        old(buf)@.len() == FRAME_LEN,
    ensures
        final(buf)@ == put32(old(buf)@, i as int, v),
{
    buf.set(i, (v / 0x1000000) as u8);
    buf.set(i + 1, ((v / 0x10000) % 256) as u8);
    buf.set(i + 2, ((v / 256) % 256) as u8);
    buf.set(i + 3, (v % 256) as u8);
}

fn set6(buf: &mut Vec<u8>, i: usize, m: &[u8; 6])
    requires
        i + 5 < old(buf)@.len(),
        old(buf)@.len() == FRAME_LEN,
    ensures
        final(buf)@ == put6(old(buf)@, i as int, m@),
{
    buf.set(i, m[0]);
    buf.set(i + 1, m[1]);
    buf.set(i + 2, m[2]);
    buf.set(i + 3, m[3]);
    buf.set(i + 4, m[4]);
    buf.set(i + 5, m[5]);
}

fn read16(b: &[u8], i: usize) -> (r: u16)
    requires
        i + 1 < b@.len(),
    ensures
        r as nat == get16(b@, i as int),
{
    (b[i] as u16) * 256 + (b[i + 1] as u16)
}

fn read32(b: &[u8], i: usize) -> (r: u32)
    requires
        i + 3 < b@.len(),
    ensures
        r as nat == get32(b@, i as int),
{
    (b[i] as u32) * 0x1000000 + (b[i + 1] as u32) * 0x10000 + (b[i + 2] as u32) * 256 + (b[i
        + 3] as u32)
}

impl IcmpProbe {
    /// Builds `count` slots, each holding the template for `ethernet_conf`.
    pub fn many(count: usize, ethernet_conf: &EthernetConf) -> (r: Result<Vec<Self>, Error>)
        ensures
            r matches Ok(v) && v@.len() == count && forall|i: int|
                0 <= i < count ==> #[trigger] v@[i]@ == template(*ethernet_conf),
    {
        let mut v: Vec<Self> = Vec::new();
        let mut k: usize = 0;
        while k < count
            invariant
                k <= count,
                v@.len() == k,
                forall|i: int| 0 <= i < k ==> #[trigger] v@[i]@ == template(*ethernet_conf),
            decreases count - k,
        {
            let p = match Self::new(ethernet_conf) {
                Ok(p) => p,
                Err(e) => {
                    return Err(e);
                },
            };
            v.push(p);
            k = k + 1;
        }
        Ok(v)
    }

    /// Builds one slot: the frame with every fixed field and its IPv4 checksum.
    pub fn new(ethernet_conf: &EthernetConf) -> (r: Result<Self, Error>)
        ensures
            r matches Ok(p) && p@ == template(*ethernet_conf),
    {
        let c = ethernet_conf;
        let mut buf: Vec<u8> = Vec::new();
        let mut k: usize = 0;
        while k < FRAME_LEN
            invariant
                k <= FRAME_LEN,
                buf@ == zeros(k as nat),
            decreases FRAME_LEN - k,
        {
            buf.push(0u8);
            k = k + 1;
            assert(buf@ =~= zeros(k as nat));
        }
        set6(&mut buf, 0, &c.destination);
        set6(&mut buf, 6, &c.source);
        set16(&mut buf, 12, c.ethertype);
        buf.set(14, 0x45);
        set16(&mut buf, 16, 28);
        buf.set(22, REQUEST_TTL);
        buf.set(23, PROTOCOL_ICMP);
        set32(&mut buf, 26, c.address);
        buf.set(34, ICMP_ECHO_REQUEST);
        set16(&mut buf, 38, REQUEST_IDENTIFIER);
        assert(buf@ == template_fields(*c));
        let header = slice_subrange(buf.as_slice(), 14, 34);
        assert(header@.subrange(0, ipv4_header_span(header@)) =~= header@);
        let ck = ipv4_header_checksum(header);
        set16(&mut buf, 24, ck);
        Ok(IcmpProbe { buf })
    }

    /// The frame as it stands, ready to be sent.
    pub fn packet(&self) -> (r: &[u8])
        ensures
            r@ == self@,
    {
        self.buf.as_slice()
    }

    /// Readies the frame for one attempt: writes the destination address and the
    /// sequence number and recomputes both checksums. A buffer that is not a
    /// full request frame is left alone and reported as a protocol error.
    pub fn update_icmp_request_packet(&mut self, addr: u32, seq: u16) -> (r: Result<(), Error>)
        ensures
            old(self)@.len() == FRAME_LEN ==> (r is Ok && final(self)@ == with_target(
                old(self)@,
                addr,
                seq,
            )),
            old(self)@.len() != FRAME_LEN ==> (r matches Err(Error::ProtocolError) && *final(self)
                == *old(self)),
    {
        if self.buf.len() != FRAME_LEN {
            return Err(Error::ProtocolError);
        }
        set32(&mut self.buf, 30, addr);
        set16(&mut self.buf, 24, 0);
        let header = slice_subrange(self.buf.as_slice(), 14, 34);
        assert(header@.subrange(0, ipv4_header_span(header@)) =~= header@);
        let ck = ipv4_header_checksum(header);
        set16(&mut self.buf, 24, ck);
        set16(&mut self.buf, 40, seq);
        set16(&mut self.buf, 36, 0);
        let ck = icmp_message_checksum(slice_subrange(self.buf.as_slice(), 34, 42));
        set16(&mut self.buf, 36, ck);
        Ok(())
    }

    /// Checks that `buf` is an IPv4 packet carrying an ICMP Echo Reply, and if so
    /// returns its key (source address, sequence number) and the probe's output.
    pub fn validate_response(buf: &[u8]) -> (r: Option<(TargetParams, IcmpOutput)>)
        ensures
            r is Some <==> reply_key(buf@) is Some,
            r matches Some((t, o)) ==> (Some(t) == reply_key(buf@) && o.addr == t.addr && o.seq
                == t.seq),
            r is Some ==> (checksum_verifies(reply_header(buf@)) && checksum_verifies(
                reply_message(buf@),
            )),
    {
        let b = buf;
        let n = b.len();
        if n < IPV4_HEADER_LEN || b[9] != PROTOCOL_ICMP || b[0] % 16 < 5 {
            return None;
        }
        let hl: usize = (b[0] % 16) as usize * 4;
        let total: usize = read16(b, 2) as usize;
        if total > n {
            return None;
        }
        let start: usize = if hl < 20 { 20 } else { hl };
        let want: usize = if total > hl { total - hl } else { 0 };
        let plen: usize = if n <= start {
            0
        } else if start + want < n {
            want
        } else {
            n - start
        };
        if plen < 4 || b[start] != ICMP_ECHO_REPLY || b[start + 1] != 0 {
            return None;
        }
        let message = slice_subrange(b, start, start + plen);
        assert(message@ == reply_message(b@));
        assert(b@.subrange(0, ipv4_header_span(b@)) == reply_header(b@));
        let stored = read16(b, 10);
        let computed = ipv4_header_checksum(b);
        proof {
            lemma_verifies_iff(reply_header(b@), 5);
        }
        if stored != computed && !(computed == 0 && stored == 0xffff) {
            return None;
        }
        let stored = read16(message, 2);
        let computed = icmp_message_checksum(message);
        proof {
            lemma_verifies_iff(reply_message(b@), 1);
        }
        if stored != computed && !(computed == 0 && stored == 0xffff) {
            return None;
        }
        if total < plen || total - plen + 8 > n {
            return None;
        }
        let off = total - plen;
        let source = read32(b, 12);
        let seq = read16(b, off + 6);
        Some((TargetParams { addr: source, seq }, IcmpOutput { addr: source, seq }))
    }
}

} // verus!
