//! The record of the messages that an in-memory signer network has sent.
//!
//! Every signer network of the in-memory WAN receives every message that is
//! broadcast on the WAN, its own included. It remembers the ids of the last
//! messages it sent, and does not forward a message with one of those ids
//! to its instances.

use vstd::prelude::*;

use crate::util::bytes_equal;

verus! {

/// The identifier of a message.
pub type MsgId = [u8; 32];

/// How many of its most recent sent messages a signer network remembers.
pub const SENT_BUFFER_CAPACITY: usize = 500;

/// The ids of the messages that a signer network sent most recently, oldest
/// first.
pub struct SentMessages {
    ids: std::collections::VecDeque<MsgId>,
}

/// The ids remembered after recording `id`: it is appended, and the oldest
/// id is forgotten when there would be more than the capacity.
pub open spec fn spec_record(ids: Seq<MsgId>, id: MsgId) -> Seq<MsgId> {
    if ids.len() + 1 > SENT_BUFFER_CAPACITY {
        ids.push(id).drop_first()
    } else {
        ids.push(id)
    }
}

/// The ids remembered after recording each of `later` in turn.
pub open spec fn spec_record_all(ids: Seq<MsgId>, later: Seq<MsgId>) -> Seq<MsgId>
    decreases later.len(),
{
    if later.len() == 0 {
        ids
    } else {
        spec_record(spec_record_all(ids, later.drop_last()), later.last())
    }
}

impl View for SentMessages {
    type V = Seq<MsgId>;

    closed spec fn view(&self) -> Seq<MsgId> {
        self.ids@
    }
}

impl SentMessages {
    /// A network never remembers more ids than its capacity.
    #[verifier::type_invariant]
    closed spec fn wf(self) -> bool {
        self.ids@.len() <= SENT_BUFFER_CAPACITY
    }

    /// A record of no messages.
    pub fn new() -> (r: Self)
        ensures
            r@ == Seq::<MsgId>::empty(),
    {
        SentMessages { ids: std::collections::VecDeque::new() }
    }

    /// The number of ids remembered.
    pub fn len(&self) -> (r: usize)
        ensures
            r == self@.len(),
            r <= SENT_BUFFER_CAPACITY,
    {
        proof {
            use_type_invariant(self);
        }
        self.ids.len()
    }

    /// Remembers that the message with this id was sent, forgetting the
    /// oldest remembered id when more than the capacity would be
    /// remembered.
    pub fn dedup_buffer(&mut self, id: MsgId)
        ensures
            final(self)@ == spec_record(old(self)@, id),
    {
        proof {
            use_type_invariant(&*self);
        }
        let mut ids = std::collections::VecDeque::new();
        std::mem::swap(&mut ids, &mut self.ids);
        ids.push_back(id);
        if ids.len() > SENT_BUFFER_CAPACITY {
            ids.pop_front();
        }
        self.ids = ids;
    }

    /// Whether the message with this id is among those remembered as sent.
    pub fn contains(&self, id: &MsgId) -> (r: bool)
        ensures
            r == self@.contains(*id),
    {
        let mut i: usize = 0;
        while i < self.ids.len()
            invariant
                i <= self.ids@.len(),
                forall|j: int| 0 <= j < i ==> self.ids@[j] != *id,
            decreases self.ids@.len() - i,
        {
            let remembered = &self.ids[i];
            if bytes_equal(remembered.as_slice(), id.as_slice()) {
                assert(*remembered =~= *id);
                assert(self@[i as int] == *id);
                return true;
            }
            i = i + 1;
        }
        false
    }

    /// Whether a message with this id that arrives from the WAN is to be
    /// forwarded to the network's instances: only when this network did not
    /// send it.
    pub fn should_forward(&self, id: &MsgId) -> (r: bool)
        ensures
            r == !self@.contains(*id),
    {
        !self.contains(id)
    }
}

/// One step of the law below: a remembered id that is at most `distance`
/// ids from the end is still remembered, one further from the end, after
/// one more id is recorded.
proof fn lemma_record_keeps(ids: Seq<MsgId>, id: MsgId, x: MsgId, distance: int)
    requires
        ids.len() <= SENT_BUFFER_CAPACITY,
        1 <= distance < SENT_BUFFER_CAPACITY,
        distance <= ids.len(),
        ids[ids.len() - distance] == id,
    ensures
        spec_record(ids, x).len() <= SENT_BUFFER_CAPACITY,
        distance + 1 <= spec_record(ids, x).len(),
        spec_record(ids, x)[spec_record(ids, x).len() - (distance + 1)] == id,
{
}

/// Recording more ids keeps the remembered ids within the capacity, and
/// keeps an id that is `distance` ids from the end as long as it stays
/// within the capacity.
proof fn lemma_record_all_keeps(ids: Seq<MsgId>, id: MsgId, later: Seq<MsgId>, distance: int)
    requires
        ids.len() <= SENT_BUFFER_CAPACITY,
        1 <= distance <= ids.len(),
        ids[ids.len() - distance] == id,
        distance + later.len() <= SENT_BUFFER_CAPACITY,
    ensures
        spec_record_all(ids, later).len() <= SENT_BUFFER_CAPACITY,
        distance + later.len() <= spec_record_all(ids, later).len(),
        spec_record_all(ids, later)[spec_record_all(ids, later).len() - (distance + later.len())] == id,
    decreases later.len(),
{
    if later.len() > 0 {
        lemma_record_all_keeps(ids, id, later.drop_last(), distance);
        lemma_record_keeps(
            spec_record_all(ids, later.drop_last()),
            id,
            later.last(),
            distance + later.len() - 1,
        );
    }
}

/// A signer network does not forward back a message that it sent itself,
/// as long as it sent fewer than `SENT_BUFFER_CAPACITY` messages after it.
pub proof fn lemma_own_message_is_not_forwarded(ids: Seq<MsgId>, id: MsgId, later: Seq<MsgId>)
    requires
        ids.len() <= SENT_BUFFER_CAPACITY,
        later.len() < SENT_BUFFER_CAPACITY,
    ensures
        spec_record_all(spec_record(ids, id), later).contains(id),
{
    let recorded = spec_record(ids, id);
    lemma_record_all_keeps(recorded, id, later, 1);
    let after = spec_record_all(recorded, later);
    assert(after[after.len() - (1 + later.len())] == id);
}

} // verus!
