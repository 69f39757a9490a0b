//! Bounded, unordered set of outgoing messages produced during a slice.
//!
//! A fixed array of slots, each with a busy flag (the slot is taken) and a
//! valid flag (the slot holds a finished message). Application code
//! inserts into the first free slot; the deadline handler drains the valid
//! slots in index order. Insertion order across slots is not preserved;
//! the send times carried inside the messages drive downstream ordering.
use vstd::prelude::*;

use crate::wire::SendPacketBuilder;

verus! {

/// A message waiting in the set: an outgoing packet under construction.
pub type OutputMsg = SendPacketBuilder;

/// Why an insertion was refused; the message comes back to the caller so
/// that its buffer lease can be released.
#[derive(Debug)]
pub enum Error {
    NoSlotAvailable { msg: OutputMsg },
}

/// Slot array with per-slot busy and valid flags.
#[derive(Debug)]
pub struct OutputMsgSet {
    pub slots: Vec<Option<OutputMsg>>,
    pub slot_busy: Vec<bool>,
    pub slot_valid: Vec<bool>,
}

/// The messages held in the valid slots of `slots`, in slot order.
pub open spec fn spec_slot_msgs(slots: Seq<Option<OutputMsg>>) -> Seq<OutputMsg>
    decreases slots.len(),
{
    if slots.len() == 0 {
        Seq::empty()
    } else {
        spec_slot_msgs(slots.drop_last()) + (match slots.last() {
            Some(m) => seq![m],
            None => Seq::empty(),
        })
    }
}

impl OutputMsgSet {
    /// The three arrays line up, and a slot holds a message exactly when
    /// its valid flag is set. Between calls a busy slot is always valid
    /// too: the window in which a slot is taken but not yet filled opens
    /// and closes inside `insert`.
    pub open spec fn wf(self) -> bool {
        &&& self.slots@.len() == self.slot_busy@.len()
        &&& self.slots@.len() == self.slot_valid@.len()
        &&& forall|i: int|
            0 <= i < self.slots@.len() ==> (self.slot_valid@[i] <==> self.slots@[i] is Some)
        &&& forall|i: int|
            0 <= i < self.slots@.len() ==> (self.slot_busy@[i] <==> self.slot_valid@[i])
    }

    pub open spec fn spec_num_slots(self) -> nat {
        self.slots@.len()
    }

    /// The messages currently visible to the drainer, in slot order.
    pub open spec fn spec_msgs(self) -> Seq<OutputMsg> {
        spec_slot_msgs(self.slots@)
    }

    pub fn new(num_slots: usize) -> (r: OutputMsgSet)
        ensures
            r.wf(),
            r.spec_num_slots() == num_slots,
            r.spec_msgs() == Seq::<OutputMsg>::empty(),
            forall|i: int| 0 <= i < num_slots ==> !r.slot_busy@[i],
    {
        let mut slots: Vec<Option<OutputMsg>> = Vec::new();
        let mut slot_busy: Vec<bool> = Vec::new();
        let mut slot_valid: Vec<bool> = Vec::new();
        let mut i: usize = 0;
        while i < num_slots
            invariant
                i <= num_slots,
                slots@.len() == i,
                slot_busy@.len() == i,
                slot_valid@.len() == i,
                forall|j: int| 0 <= j < i ==> slots@[j] is None,
                forall|j: int| 0 <= j < i ==> !slot_busy@[j],
                forall|j: int| 0 <= j < i ==> !slot_valid@[j],
            decreases num_slots - i,
        {
            slots.push(None);
            slot_busy.push(false);
            slot_valid.push(false);
            i = i + 1;
        }
        let r = OutputMsgSet { slots, slot_busy, slot_valid };
        proof {
            lemma_all_none_no_msgs(r.slots@);
        }
        r
    }

    /// Puts a message into the first free slot and makes it visible to
    /// the drainer. Fails, handing the message back, exactly when every
    /// slot is busy; the set is then unchanged.
    pub fn insert(&mut self, output_msg: OutputMsg) -> (r: Result<(), Error>)
        requires
            old(self).wf(),
        ensures
            final(self).wf(),
            final(self).spec_num_slots() == old(self).spec_num_slots(),
            match r {
                Ok(()) => exists|i: int|
                    0 <= i < old(self).spec_num_slots() && !old(self).slot_busy@[i] && final(self).slots@ == old(self).slots@.update(i, Some(output_msg)) && final(self).slot_busy@ == old(self).slot_busy@.update(i, true),
                Err(Error::NoSlotAvailable { msg }) => msg == output_msg && final(self).slots@
                    == old(self).slots@ && final(self).slot_busy@ == old(self).slot_busy@ && (
                forall|i: int| 0 <= i < old(self).spec_num_slots() ==> old(self).slot_busy@[i]),
            },
    {
        let num: usize = self.slot_busy.len();
        let mut idx: usize = 0;
        while idx < num
            invariant
                self.wf(),
                num == self.spec_num_slots(),
                idx <= num,
                self.slots@ == old(self).slots@,
                self.slot_busy@ == old(self).slot_busy@,
                self.slot_valid@ == old(self).slot_valid@,
                forall|i: int| 0 <= i < idx ==> self.slot_busy@[i],
            decreases num - idx,
        {
            if !self.slot_busy[idx] {
                self.slot_busy[idx] = true;
                let taken = self.slots.remove(idx);
                assert(taken is None);
                self.slots.insert(idx, Some(output_msg));
                self.slot_valid[idx] = true;
                proof {
                    assert(self.slots@ =~= old(self).slots@.update(
                        idx as int,
                        Some(output_msg),
                    ));
                    assert(self.slot_busy@ =~= old(self).slot_busy@.update(idx as int, true));
                }
                return Ok(());
            }
            idx = idx + 1;
        }
        Err(Error::NoSlotAvailable { msg: output_msg })
    }

    /// Takes the message out of one slot if it is valid, releasing the
    /// slot.
    pub fn take_slot(&mut self, index: usize) -> (r: Option<OutputMsg>)
        requires
            old(self).wf(),
        ensures
            final(self).wf(),
            final(self).spec_num_slots() == old(self).spec_num_slots(),
            index >= old(self).spec_num_slots() ==> r is None && final(self).slots@ == old(self).slots@ && final(self).slot_busy@ == old(self).slot_busy@,
            index < old(self).spec_num_slots() ==> match r {
                Some(m) => old(self).slots@[index as int] == Some(m) && final(self).slots@ == old(self).slots@.update(index as int, None::<OutputMsg>) && final(self).slot_busy@ == old(self).slot_busy@.update(index as int, false),
                None => old(self).slots@[index as int] is None && final(self).slots@ == old(self).slots@ && final(self).slot_busy@ == old(self).slot_busy@,
            },
    {
        let num: usize = self.slot_valid.len();
        if index < num {
            if self.slot_valid[index] {
                let msg: Option<OutputMsg> = self.slots.remove(index);
                self.slots.insert(index, None);
                self.slot_valid[index] = false;
                self.slot_busy[index] = false;
                proof {
                    assert(self.slots@ =~= old(self).slots@.update(
                        index as int,
                        None::<OutputMsg>,
                    ));
                    assert(self.slot_busy@ =~= old(self).slot_busy@.update(index as int, false));
                }
                msg
            } else {
                None
            }
        } else {
            None
        }
    }

    /// Empties the set, returning the messages of the valid slots in slot
    /// order; every slot is free afterwards.
    pub fn drain(&mut self) -> (r: Vec<OutputMsg>)
        requires
            old(self).wf(),
        ensures
            final(self).wf(),
            final(self).spec_num_slots() == old(self).spec_num_slots(),
            r@ == old(self).spec_msgs(),
            final(self).spec_msgs() == Seq::<OutputMsg>::empty(),
            forall|i: int| 0 <= i < final(self).spec_num_slots() ==> !final(self).slot_busy@[i],
    {
        let num: usize = self.slots.len();
        let mut out: Vec<OutputMsg> = Vec::new();
        let mut idx: usize = 0;
        while idx < num
            invariant
                self.wf(),
                num == self.spec_num_slots(),
                num == old(self).spec_num_slots(),
                idx <= num,
                out@ == spec_slot_msgs(old(self).slots@.take(idx as int)),
                forall|i: int| idx <= i < num ==> self.slots@[i] == old(self).slots@[i],
                forall|i: int| 0 <= i < idx ==> self.slots@[i] is None,
                forall|i: int| 0 <= i < idx ==> !self.slot_busy@[i],
                forall|i: int| idx <= i < num ==> self.slot_busy@[i] == old(self).slot_busy@[i],
            decreases num - idx,
        {
            let taken: Option<OutputMsg> = self.take_slot(idx);
            proof {
                assert(old(self).slots@.take(idx + 1).drop_last() =~= old(self).slots@.take(
                    idx as int,
                ));
                assert(old(self).slots@.take(idx + 1).last() == old(self).slots@[idx as int]);
            }
            match taken {
                Some(m) => {
                    out.push(m);
                },
                None => {
                },
            }
            idx = idx + 1;
        }
        proof {
            assert(old(self).slots@.take(num as int) =~= old(self).slots@);
            lemma_all_none_no_msgs(self.slots@);
        }
        out
    }
}

/// The drainer's view splits at any point of the slot array.
pub proof fn lemma_slot_msgs_split(slots: Seq<Option<OutputMsg>>, i: int)
    requires
        0 <= i <= slots.len(),
    ensures
        spec_slot_msgs(slots) == spec_slot_msgs(slots.take(i)) + spec_slot_msgs(slots.skip(i)),
    decreases slots.len(),
{
    if i == slots.len() {
        assert(slots.take(i) =~= slots);
        assert(slots.skip(i) =~= Seq::<Option<OutputMsg>>::empty());
        assert(spec_slot_msgs(slots) =~= spec_slot_msgs(slots.take(i)) + spec_slot_msgs(
            slots.skip(i),
        ));
    } else {
        let dl = slots.drop_last();
        lemma_slot_msgs_split(dl, i);
        assert(slots.take(i) =~= dl.take(i));
        assert(slots.skip(i).drop_last() =~= dl.skip(i));
        assert(slots.skip(i).last() == slots.last());
        assert(spec_slot_msgs(slots) =~= spec_slot_msgs(slots.take(i)) + spec_slot_msgs(
            slots.skip(i),
        ));
    }
}

/// Filling a free slot makes exactly one message visible, at the
/// position given by the valid slots before it; everything else the
/// drainer sees is unchanged.
pub proof fn lemma_slot_msgs_update_some(slots: Seq<Option<OutputMsg>>, i: int, m: OutputMsg)
    requires
        0 <= i < slots.len(),
        slots[i] is None,
    ensures
        ({
            let k = spec_slot_msgs(slots.take(i)).len() as int;
            &&& 0 <= k <= spec_slot_msgs(slots).len()
            &&& spec_slot_msgs(slots.update(i, Some(m))) == spec_slot_msgs(slots.take(i))
                + seq![m] + spec_slot_msgs(slots.skip(i + 1))
            &&& spec_slot_msgs(slots) == spec_slot_msgs(slots.take(i)) + spec_slot_msgs(
                slots.skip(i + 1),
            )
        }),
{
    let updated = slots.update(i, Some(m));
    lemma_slot_msgs_split(slots, i);
    lemma_slot_msgs_split(slots.skip(i), 1);
    assert(slots.skip(i).take(1) =~= seq![slots[i]]);
    assert(slots.skip(i).skip(1) =~= slots.skip(i + 1));
    assert(spec_slot_msgs(seq![slots[i]]) =~= Seq::<OutputMsg>::empty()) by {
        reveal_with_fuel(spec_slot_msgs, 3);
        assert(seq![slots[i]].last() == slots[i]);
        assert(seq![slots[i]].drop_last() =~= Seq::<Option<OutputMsg>>::empty());
    }
    lemma_slot_msgs_split(updated, i);
    lemma_slot_msgs_split(updated.skip(i), 1);
    assert(updated.take(i) =~= slots.take(i));
    assert(updated.skip(i).take(1) =~= seq![Some(m)]);
    assert(updated.skip(i).skip(1) =~= slots.skip(i + 1));
    assert(spec_slot_msgs(seq![Some(m)]) =~= seq![m]) by {
        reveal_with_fuel(spec_slot_msgs, 3);
        assert(seq![Some(m)].last() == Some(m));
        assert(seq![Some(m)].drop_last() =~= Seq::<Option<OutputMsg>>::empty());
    }
    assert(spec_slot_msgs(updated) =~= spec_slot_msgs(slots.take(i)) + seq![m] + spec_slot_msgs(
        slots.skip(i + 1),
    ));
    assert(spec_slot_msgs(slots) =~= spec_slot_msgs(slots.take(i)) + spec_slot_msgs(
        slots.skip(i + 1),
    ));
}

/// A slot array with no message in it yields nothing to the drainer.
proof fn lemma_all_none_no_msgs(slots: Seq<Option<OutputMsg>>)
    requires
        forall|i: int| 0 <= i < slots.len() ==> slots[i] is None,
    ensures
        spec_slot_msgs(slots) == Seq::<OutputMsg>::empty(),
    decreases slots.len(),
{
    if slots.len() > 0 {
        lemma_all_none_no_msgs(slots.drop_last());
    }
}

} // verus!
