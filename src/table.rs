//! The correlation table: which requests wait for a reply, and the handle
//! through which each one is told of it.
use vstd::prelude::*;
use std::collections::HashMap;
use crate::codec::{reply_key, IcmpOutput, IcmpProbe};
use crate::error::{Error, TargetParams};

verus! {

broadcast use vstd::std_specs::hash::group_hash_axioms;

/// The single integer that stands for a correlation key.
pub open spec fn key_of(t: TargetParams) -> u64 {
    (t.addr as u64 * 0x10000 + t.seq as u64) as u64
}

/// Two attempts share a table key only if they share address and sequence number.
pub proof fn lemma_key_of_injective(a: TargetParams, b: TargetParams)
    requires
        key_of(a) == key_of(b),
    ensures
        a == b,
{
    assert(a.addr as int * 0x10000 + a.seq as int == b.addr as int * 0x10000 + b.seq as int);
    assert(a.addr == b.addr && a.seq == b.seq) by (nonlinear_arith)
        requires
            a.addr as int * 0x10000 + a.seq as int == b.addr as int * 0x10000 + b.seq as int,
            a.seq < 0x10000,
            b.seq < 0x10000,
    ;
}

fn key(t: TargetParams) -> (r: u64)
    ensures
        r == key_of(t),
{
    t.addr as u64 * 0x10000 + t.seq as u64
}

/// Pending attempts by key, each with the handle that completes it. At most
/// one entry lives per key.
pub struct CorrelationTable<H> {
    entries: HashMap<u64, H>,
}

impl<H> CorrelationTable<H> {
    pub closed spec fn pending(&self) -> Map<u64, H> {
        self.entries@
    }

    /// Whether an attempt with key `t` waits for its reply.
    pub open spec fn waits(&self, t: TargetParams) -> bool {
        self.pending().contains_key(key_of(t))
    }

    pub fn new() -> (r: Self)
        ensures
            r.pending() == Map::<u64, H>::empty(),
    {
        CorrelationTable { entries: HashMap::new() }
    }

    pub fn len(&self) -> (r: usize)
        ensures
            r == self.pending().len(),
    {
        self.entries.len()
    }

    pub fn contains(&self, t: TargetParams) -> (r: bool)
        ensures
            r == self.waits(t),
    {
        self.entries.contains_key(&key(t))
    }

    /// Records that `t` waits for a reply, to be delivered through `handle`.
    /// A key already waiting is refused and the table is left alone.
    pub fn register(&mut self, t: TargetParams, handle: H) -> (r: Result<(), Error>)
        ensures
            old(self).waits(t) ==> (r matches Err(Error::DuplicateKey(d)) && d == t
                && final(self).pending() == old(self).pending()),
            !old(self).waits(t) ==> (r is Ok && final(self).pending() == old(
                self,
            ).pending().insert(key_of(t), handle)),
    {
        let k = key(t);
        if self.entries.contains_key(&k) {
            return Err(Error::DuplicateKey(t));
        }
        self.entries.insert(k, handle);
        Ok(())
    }

    /// Removes the entry of `t`, if there is one, and hands back its handle.
    /// Removing a key that is gone already is a no-op.
    pub fn take(&mut self, t: TargetParams) -> (r: Option<H>)
        ensures
            final(self).pending() == old(self).pending().remove(key_of(t)),
            old(self).waits(t) ==> r == Some(old(self).pending()[key_of(t)]),
            !old(self).waits(t) ==> r is None,
    {
        let k = key(t);
        self.entries.remove(&k)
    }

    /// Handles one received packet: a valid Echo Reply whose key waits is
    /// removed from the table and returned with its handle and output; any
    /// other packet leaves every pending entry as it was.
    pub fn route(&mut self, buf: &[u8]) -> (r: Option<(H, IcmpOutput)>)
        ensures
            (match reply_key(buf@) {
                Some(t) => if old(self).waits(t) {
                    r == Some((old(self).pending()[key_of(t)], IcmpOutput { addr: t.addr, seq: t.seq }))
                        && final(self).pending() == old(self).pending().remove(key_of(t))
                } else {
                    r is None && final(self).pending() == old(self).pending()
                },
                None => r is None && final(self).pending() == old(self).pending(),
            }),
    {
        match IcmpProbe::validate_response(buf) {
            None => None,
            Some((t, out)) => {
                match self.take(t) {
                    Some(h) => Some((h, out)),
                    None => {
                        assert(old(self).pending().remove(key_of(t)) =~= old(self).pending());
                        None
                    },
                }
            },
        }
    }
}

/// A reply resolves only the attempt registered under exactly its address and
/// sequence number: the entry it takes belongs to that attempt, and an entry
/// under any other key stays pending.
pub proof fn lemma_reply_resolves_only_its_key<H>(
    pending: Map<u64, H>,
    buf: Seq<u8>,
    other: TargetParams,
)
    requires
        reply_key(buf) is Some,
        pending.contains_key(key_of(other)),
        other != reply_key(buf)->Some_0,
    ensures
        pending.remove(key_of(reply_key(buf)->Some_0)).contains_key(key_of(other)),
        pending.remove(key_of(reply_key(buf)->Some_0))[key_of(other)] == pending[key_of(other)],
{
    let t = reply_key(buf)->Some_0;
    if key_of(t) == key_of(other) {
        lemma_key_of_injective(t, other);
    }
}

/// A valid reply from a waiting address with a sequence number other than
/// the waiting one's does not resolve that attempt: whether or not the reply's
/// own key waits, the attempt stays pending with its handle.
pub proof fn lemma_other_sequence_not_resolved<H>(
    pending: Map<u64, H>,
    buf: Seq<u8>,
    waiting: TargetParams,
)
    requires
        reply_key(buf) is Some,
        reply_key(buf)->Some_0.addr == waiting.addr,
        reply_key(buf)->Some_0.seq != waiting.seq,
        pending.contains_key(key_of(waiting)),
    ensures
        pending.remove(key_of(reply_key(buf)->Some_0)).contains_key(key_of(waiting)),
        pending.remove(key_of(reply_key(buf)->Some_0))[key_of(waiting)] == pending[key_of(waiting)],
{
    lemma_reply_resolves_only_its_key(pending, buf, waiting);
}

} // verus!
