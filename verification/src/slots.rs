//! A stream of numbered time slots that never yields the same slot twice.

use std::time::Instant;
use vstd::prelude::*;

verus! {

/// Information about a slot.
pub struct SlotInfo {
    /// The slot number.
    pub number: u64,
    /// Current timestamp.
    pub timestamp: u64,
    /// The instant at which the slot ends.
    pub ends_at: Instant,
    /// Slot duration.
    pub duration: u64,
}

/// Why the slot stream failed.
#[derive(Debug, Clone, Copy, PartialEq, Eq, Structural)]
pub enum Error {
    ReadFail,
}

/// One offer to a slot stream whose last slot is `last`: the last slot
/// afterwards, and the number yielded, if any.
pub open spec fn offer_step(last: u64, slot_num: u64) -> (u64, Option<u64>) {
    if slot_num > last {
        (slot_num, Some(slot_num))
    } else {
        (last, None)
    }
}

/// The last slot after offering `nums` in order to a stream whose last slot
/// was `last`.
pub open spec fn last_after(last: u64, nums: Seq<u64>) -> u64
    decreases nums.len(),
{
    if nums.len() == 0 {
        last
    } else {
        offer_step(last_after(last, nums.drop_last()), nums.last()).0
    }
}

/// The slot numbers yielded, in order, while offering `nums` to a stream
/// whose last slot was `last`.
pub open spec fn yielded(last: u64, nums: Seq<u64>) -> Seq<u64>
    decreases nums.len(),
{
    if nums.len() == 0 {
        Seq::empty()
    } else {
        match offer_step(last_after(last, nums.drop_last()), nums.last()).1 {
            Some(n) => yielded(last, nums.drop_last()).push(n),
            None => yielded(last, nums.drop_last()),
        }
    }
}

/// No slot is yielded twice: over any offers, the numbers yielded go up
/// strictly, all lie above the last slot before the first offer, and the
/// stream's last slot afterwards is the last number yielded (or the one it
/// had, if none was).
pub proof fn lemma_slots_strictly_increase(last: u64, nums: Seq<u64>)
    ensures
        forall|i: int, j: int|
            0 <= i < j < yielded(last, nums).len() ==> yielded(last, nums)[i] < yielded(
                last,
                nums,
            )[j],
        forall|i: int| 0 <= i < yielded(last, nums).len() ==> last < #[trigger] yielded(last, nums)[i],
        yielded(last, nums).len() == 0 ==> last_after(last, nums) == last,
        yielded(last, nums).len() > 0 ==> last_after(last, nums) == yielded(last, nums).last(),
        forall|i: int|
            0 <= i < yielded(last, nums).len() ==> #[trigger] yielded(last, nums)[i] <= last_after(
                last,
                nums,
            ),
    decreases nums.len(),
{
    if nums.len() > 0 {
        lemma_slots_strictly_increase(last, nums.drop_last());
    }
}

/// The state of a slot stream: the last slot it yielded and how long a
/// slot lasts.
pub struct Slots {
    last_slot: u64,
    slot_duration: u64,
}

impl Slots {
    /// The number of the last slot yielded, 0 before the first.
    pub closed spec fn last(&self) -> u64 {
        self.last_slot
    }

    pub closed spec fn slot_length(&self) -> u64 {
        self.slot_duration
    }

    /// A stream that has yielded no slot, with slots of `slot_duration`.
    pub fn new(slot_duration: u64) -> (s: Slots)
        ensures
            s.last() == 0,
            s.slot_length() == slot_duration,
    {
        Slots { last_slot: 0, slot_duration }
    }

    /// The slot that the time `timestamp` falls in: the number of whole
    /// slot lengths since time 0, or `None` for a slot length of 0.
    pub fn slot_number(&self, timestamp: u64) -> (n: Option<u64>)
        ensures
            self.slot_length() == 0 ==> n is None,
            self.slot_length() > 0 ==> n == Some((timestamp / self.slot_length()) as u64),
    {
        if self.slot_duration == 0 {
            None
        } else {
            Some(timestamp / self.slot_duration)
        }
    }

    /// The number of the last slot yielded.
    pub fn last_slot(&self) -> (n: u64)
        ensures
            n == self.last(),
    {
        self.last_slot
    }

    /// Offers slot `slot_num`, which ends at `ends_at`, when the timer fires
    /// at `timestamp`.  The slot is yielded only when its number is above
    /// every number yielded before; the stream then remembers it.  Any other
    /// slot is passed over, and the stream waits for the next timer.
    pub fn offer(&mut self, slot_num: u64, timestamp: u64, ends_at: Instant) -> (r: Option<
        SlotInfo,
    >)
        ensures
            final(self).slot_length() == old(self).slot_length(),
            slot_num > old(self).last() ==> {
                &&& r matches Some(info) && info.number == slot_num && info.timestamp == timestamp
                    && info.duration == old(self).slot_length() && info.ends_at == ends_at
                &&& final(self).last() == slot_num
            },
            slot_num <= old(self).last() ==> r is None && final(self).last() == old(self).last(),
            old(self).last() <= final(self).last(),
            r matches Some(info) ==> old(self).last() < info.number && info.number
                == final(self).last(),
            final(self).last() == offer_step(old(self).last(), slot_num).0,
            r is Some <==> offer_step(old(self).last(), slot_num).1 is Some,
            r matches Some(info) ==> offer_step(old(self).last(), slot_num).1 == Some(info.number),
    {
        if slot_num > self.last_slot {
            self.last_slot = slot_num;
            Some(SlotInfo { number: slot_num, duration: self.slot_duration, timestamp, ends_at })
        } else {
            None
        }
    }
}

} // verus!
