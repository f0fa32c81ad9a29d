//! One probe attempt end to end, as the decisions around its awaits: lease a
//! slot and register the attempt before the send, then settle the attempt
//! when its reply, its deadline or a send failure comes.
use vstd::prelude::*;
use crate::codec::{
    fixed_fields_agree, fixed_fields_match, lemma_with_target_fixed, reply_key, request_frame,
    template, EthernetConf, IcmpOutput, IcmpProbe,
};
use crate::error::{Error, TargetParams};
use crate::pool::{lemma_lease_release, SlotPool};
use crate::table::{key_of, lemma_key_of_injective, CorrelationTable};

verus! {

/// How the wait of one attempt ended.
pub enum Outcome {
    /// The receiver delivered this output.
    Delivered(IcmpOutput),
    /// The deadline passed first.
    TimedOut,
    /// The socket refused the request.
    SendFailed(String),
}

/// The shared state of all attempts: the slot pool and the correlation table,
/// with the interface configuration the slots were built for and a slot that
/// keeps its template. `H` is the handle through which the receiver completes
/// a waiting attempt.
pub struct Prober<H> {
    pool: SlotPool<IcmpProbe>,
    table: CorrelationTable<H>,
    timeout_ms: u64,
    conf: EthernetConf,
    template: IcmpProbe,
}

impl<H> Prober<H> {
    pub closed spec fn spec_pool(&self) -> SlotPool<IcmpProbe> {
        self.pool
    }

    pub closed spec fn spec_table(&self) -> CorrelationTable<H> {
        self.table
    }

    pub closed spec fn spec_timeout_ms(&self) -> u64 {
        self.timeout_ms
    }

    pub closed spec fn spec_conf(&self) -> EthernetConf {
        self.conf
    }

    pub closed spec fn spec_template(&self) -> IcmpProbe {
        self.template
    }

    /// The pool is within its capacity, and every slot waiting in it holds a
    /// full frame that agrees with the template at every fixed byte.
    pub open spec fn wf(&self) -> bool {
        &&& self.spec_pool().wf()
        &&& self.spec_template()@ == template(self.spec_conf())
        &&& forall|i: int|
            0 <= i < self.spec_pool().free_slots().len() ==> fixed_fields_agree(
                #[trigger] self.spec_pool().free_slots()[i]@,
                template(self.spec_conf()),
            )
    }

    /// A prober with `slot_count` slots, each holding the request template.
    pub fn new(slot_count: usize, ethernet_conf: &EthernetConf, timeout_ms: u64) -> (r: Result<Self, Error>)
        ensures
            r matches Ok(p) && p.wf() && p.spec_pool().spec_capacity() == slot_count
                && p.spec_pool().spec_in_use() == 0 && p.spec_table().pending()
                == Map::<u64, H>::empty() && p.spec_timeout_ms() == timeout_ms
                && p.spec_conf() == *ethernet_conf && forall|i: int|
                0 <= i < slot_count ==> #[trigger] p.spec_pool().free_slots()[i]@ == template(
                *ethernet_conf,
            ),
    {
        let slots = match IcmpProbe::many(slot_count, ethernet_conf) {
            Ok(v) => v,
            Err(e) => {
                return Err(e);
            },
        };
        let kept = match IcmpProbe::new(ethernet_conf) {
            Ok(p) => p,
            Err(e) => {
                return Err(e);
            },
        };
        let r = Prober {
            pool: SlotPool::new(slots),
            table: CorrelationTable::new(),
            timeout_ms,
            conf: *ethernet_conf,
            template: kept,
        };
        assert forall|i: int| 0 <= i < r.pool.free_slots().len() implies fixed_fields_agree(
            #[trigger] r.pool.free_slots()[i]@,
            template(r.conf),
        ) by {
            assert(r.pool.free_slots()[i]@ == template(r.conf));
        }
        Ok(r)
    }

    pub fn timeout_ms(&self) -> (r: u64)
        ensures
            r == self.spec_timeout_ms(),
    {
        self.timeout_ms
    }

    /// The number of attempts holding a slot.
    pub fn in_use(&self) -> (r: usize)
        requires
            self.wf(),
        ensures
            r == self.spec_pool().spec_in_use(),
    {
        self.pool.in_use()
    }

    /// The number of attempts waiting for a reply.
    pub fn pending(&self) -> (r: usize)
        ensures
            r == self.spec_table().pending().len(),
    {
        self.table.len()
    }

    /// Starts the attempt `t`: leases a slot, registers `handle` under the key
    /// of `t`, and readies the slot's frame for `t`. The returned slot holds
    /// the request frame for `t`, to be sent and then handed back to `finish`.
    /// `Ok(None)` when every slot is lent out: nothing changes and the caller
    /// waits. A key that already waits fails the attempt with the pool and the
    /// table left as they were.
    pub fn begin(&mut self, t: TargetParams, handle: H) -> (r: Result<Option<IcmpProbe>, Error>)
        requires
            old(self).wf(),
        ensures
            final(self).wf(),
            final(self).spec_timeout_ms() == old(self).spec_timeout_ms(),
            final(self).spec_conf() == old(self).spec_conf(),
            final(self).spec_pool().spec_capacity() == old(self).spec_pool().spec_capacity(),
            ({
                let free = old(self).spec_pool().free_slots();
                let pending = old(self).spec_table().pending();
                if free.len() == 0 {
                    r matches Ok(None) && final(self).spec_pool().free_slots() == free
                        && final(self).spec_table().pending() == pending
                } else if old(self).spec_table().waits(t) {
                    r matches Err(Error::DuplicateKey(d)) && d == t
                        && final(self).spec_pool().free_slots() == free
                        && final(self).spec_table().pending() == pending
                } else {
                    r matches Ok(Some(p)) && p@ == request_frame(old(self).spec_conf(), t.addr, t.seq)
                        && final(self).spec_pool().free_slots() == free.drop_last()
                        && final(self).spec_table().pending() == pending.insert(key_of(t), handle)
                }
            }),
    {
        let ghost free = self.pool.free_slots();
        let ghost pending = self.table.pending();
        let mut slot = match self.pool.lease() {
            None => {
                return Ok(None);
            },
            Some(s) => s,
        };
        proof {
            lemma_lease_release(free);
            assert(fixed_fields_agree(free[free.len() - 1]@, template(self.conf)));
        }
        if let Err(e) = self.table.register(t, handle) {
            let _ = self.pool.release(slot);
            return Err(e);
        }
        proof {
            lemma_with_target_fixed(slot@, template(self.conf), t.addr, t.seq);
        }
        match slot.update_icmp_request_packet(t.addr, t.seq) {
            Ok(()) => Ok(Some(slot)),
            Err(e) => {
                let _ = self.table.take(t);
                let _ = self.pool.release(slot);
                Err(e)
            },
        }
    }

    /// Settles the attempt `t` whose wait ended with `outcome`: removes its
    /// entry if the receiver has not, returns a slot to the pool, and returns
    /// the output or the error that the outcome calls for. The slot goes back
    /// as it is when it agrees with the template at every fixed byte; one that
    /// does not is replaced by a fresh template slot, so the pool never holds a
    /// frame built for another interface.
    pub fn finish(&mut self, t: TargetParams, slot: IcmpProbe, outcome: Outcome) -> (r: Result<IcmpOutput, Error>)
        requires
            old(self).wf(),
            old(self).spec_pool().spec_in_use() > 0,
        ensures
            final(self).wf(),
            final(self).spec_timeout_ms() == old(self).spec_timeout_ms(),
            final(self).spec_conf() == old(self).spec_conf(),
            final(self).spec_pool().spec_capacity() == old(self).spec_pool().spec_capacity(),
            fixed_fields_agree(slot@, template(old(self).spec_conf()))
                ==> final(self).spec_pool().free_slots() == old(self).spec_pool().free_slots().push(slot),
            !fixed_fields_agree(slot@, template(old(self).spec_conf())) ==> (
                final(self).spec_pool().free_slots().len() == old(self).spec_pool().free_slots().len() + 1
                && final(self).spec_pool().free_slots().drop_last() == old(self).spec_pool().free_slots()
                && final(self).spec_pool().free_slots().last()@ == template(old(self).spec_conf())),
            final(self).spec_table().pending() == old(self).spec_table().pending().remove(key_of(t)),
            match outcome {
                Outcome::Delivered(o) => r == Ok::<IcmpOutput, Error>(o),
                Outcome::TimedOut => r matches Err(Error::Timeout(d)) && d == t,
                Outcome::SendFailed(m) => r matches Err(Error::IoError(e)) && e == m,
            },
    {
        let _ = self.table.take(t);
        let ghost free = self.pool.free_slots();
        if fixed_fields_match(slot.packet(), self.template.packet()) {
            let _ = self.pool.release(slot);
        } else {
            match IcmpProbe::new(&self.conf) {
                Ok(fresh) => {
                    let _ = self.pool.release(fresh);
                },
                Err(_) => {},
            }
        }
        assert(self.pool.free_slots().drop_last() =~= free);
        assert forall|i: int| 0 <= i < self.pool.free_slots().len() implies fixed_fields_agree(
            #[trigger] self.pool.free_slots()[i]@,
            template(self.conf),
        ) by {
            if i < free.len() {
                assert(self.pool.free_slots()[i] == free[i]);
            }
        }
        match outcome {
            Outcome::Delivered(o) => Ok(o),
            Outcome::TimedOut => Err(Error::Timeout(t)),
            Outcome::SendFailed(m) => Err(Error::IoError(m)),
        }
    }

    /// Handles one received packet on behalf of the waiting attempts; see
    /// `CorrelationTable::route`.
    pub fn on_reply(&mut self, buf: &[u8]) -> (r: Option<(H, IcmpOutput)>)
        ensures
            final(self).spec_pool() == old(self).spec_pool(),
            final(self).spec_timeout_ms() == old(self).spec_timeout_ms(),
            final(self).spec_conf() == old(self).spec_conf(),
            final(self).spec_template() == old(self).spec_template(),
            (match reply_key(buf@) {
                Some(k) => if old(self).spec_table().waits(k) {
                    r == Some((old(self).spec_table().pending()[key_of(k)], IcmpOutput { addr: k.addr, seq: k.seq }))
                        && final(self).spec_table().pending() == old(self).spec_table().pending().remove(key_of(k))
                } else {
                    r is None && final(self).spec_table().pending() == old(self).spec_table().pending()
                },
                None => r is None && final(self).spec_table().pending() == old(self).spec_table().pending(),
            }),
    {
        self.table.route(buf)
    }
}

/// A reply that resolves the entry of attempt `t` yields an output whose
/// address and sequence number are those of `t`.
pub proof fn lemma_output_matches_request(t: TargetParams, buf: Seq<u8>)
    requires
        reply_key(buf) is Some,
        key_of(reply_key(buf)->Some_0) == key_of(t),
    ensures
        reply_key(buf)->Some_0.addr == t.addr,
        reply_key(buf)->Some_0.seq == t.seq,
{
    lemma_key_of_injective(reply_key(buf)->Some_0, t);
}

/// Admission control: the attempts holding a slot, which are those between
/// their send and their settling, never outnumber the slots.
pub proof fn lemma_admission_bound<H>(p: Prober<H>)
    requires
        p.wf(),
    ensures
        p.spec_pool().spec_in_use() <= p.spec_pool().spec_capacity(),
        p.spec_pool().spec_in_use() == p.spec_pool().spec_capacity() ==> p.spec_pool().free_slots().len() == 0,
{
}

} // verus!
