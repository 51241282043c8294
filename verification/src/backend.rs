//! The bookkeeping of the background tasks: summing the bytes that
//! connections report between ticks, and a pong that arrives after a random
//! wait.

use crate::clock::duration_as_secs;
use rand::rngs::{OsRng, StdRng};
use rand::{Rng, SeedableRng};
use std::time::{Duration, Instant};
use vstd::prelude::*;

verus! {

/// What the byte-counting task receives: a count of bytes read from a
/// socket, a tick of its interval, or the end of its channel.
#[derive(Debug, Clone, Copy, PartialEq, Eq, Structural)]
pub enum Item {
    Value(usize),
    Tick,
    Done,
}

/// Whether the byte-counting task goes on with `item`: it stops at `Done`,
/// which ends the stream that the interval would otherwise keep alive.
pub fn keeps_going(item: &Item) -> (b: bool)
    ensures
        b == (*item != Item::Done),
{
    !matches!(item, Item::Done)
}

/// One step of the byte-counting fold over unbounded integers: the new
/// running total, and the total reported, if any.
pub open spec fn fold_step(total: int, item: Item) -> (int, Option<int>) {
    match item {
        Item::Value(v) => (total + v, None),
        _ => (0, Some(total)),
    }
}

/// The running total after folding `items` from 0.
pub open spec fn fold_total(items: Seq<Item>) -> int
    decreases items.len(),
{
    if items.len() == 0 {
        0
    } else {
        fold_step(fold_total(items.drop_last()), items.last()).0
    }
}

/// The totals reported, in order, while folding `items` from 0.
pub open spec fn fold_reports(items: Seq<Item>) -> Seq<int>
    decreases items.len(),
{
    if items.len() == 0 {
        Seq::empty()
    } else {
        match fold_step(fold_total(items.drop_last()), items.last()).1 {
            Some(n) => fold_reports(items.drop_last()).push(n),
            None => fold_reports(items.drop_last()),
        }
    }
}

/// Whether every item is a count of bytes.
pub open spec fn all_values(items: Seq<Item>) -> bool {
    forall|j: int| 0 <= j < items.len() ==> (#[trigger] items[j]) is Value
}

/// The sum of the counts of bytes among `items`.
pub open spec fn value_sum(items: Seq<Item>) -> int
    decreases items.len(),
{
    if items.len() == 0 {
        0
    } else {
        value_sum(items.drop_last()) + match items.last() {
            Item::Value(v) => v as int,
            _ => 0,
        }
    }
}

/// Counts of bytes add to the running total and report nothing.
proof fn lemma_fold_values(before: Seq<Item>, between: Seq<Item>)
    requires
        all_values(between),
    ensures
        fold_total(before + between) == fold_total(before) + value_sum(between),
        fold_reports(before + between) == fold_reports(before),
    decreases between.len(),
{
    if between.len() == 0 {
        assert(before + between =~= before);
    } else {
        let init = between.drop_last();
        assert(all_values(init)) by {
            assert forall|j: int| 0 <= j < init.len() implies (#[trigger] init[j]) is Value by {
                assert(init[j] == between[j]);
            }
        }
        lemma_fold_values(before, init);
        assert((before + between).drop_last() =~= before + init);
        assert((before + between).last() == between.last());
        assert(between[between.len() - 1] is Value);
    }
}

/// Each tick reports exactly the bytes counted since the previous tick, or
/// since the start, and the count then starts again from zero.  With
/// `between` holding only counts of bytes: after the values that follow a
/// tick the running total is their sum, and the next tick reports that sum
/// after all earlier reports; the same holds from the start, before any
/// tick.
pub proof fn lemma_tick_reports_bytes_since_last_tick(before: Seq<Item>, between: Seq<Item>)
    requires
        all_values(between),
    ensures
        fold_total(between) == value_sum(between),
        fold_reports(between.push(Item::Tick)) == seq![value_sum(between)],
        fold_total(before.push(Item::Tick) + between) == value_sum(between),
        fold_reports((before.push(Item::Tick) + between).push(Item::Tick)) == fold_reports(
            before,
        ).push(fold_total(before)).push(value_sum(between)),
{
    let empty = Seq::<Item>::empty();
    lemma_fold_values(empty, between);
    assert(empty + between =~= between);
    assert(between.push(Item::Tick).drop_last() =~= between);
    let ticked = before.push(Item::Tick);
    assert(ticked.drop_last() =~= before);
    lemma_fold_values(ticked, between);
    assert((ticked + between).push(Item::Tick).drop_last() =~= ticked + between);
}

/// One step of the byte-counting fold.  A count of bytes is added to the
/// running total; a tick reports the total and starts again from zero.  The
/// sum must fit in a `usize`, and `Done` never reaches the fold.
pub fn fold_item(total: usize, item: &Item) -> (r: (usize, Option<usize>))
    requires
        *item != Item::Done,
        *item matches Item::Value(v) ==> total + v <= usize::MAX,
    ensures
        match *item {
            Item::Value(v) => r == ((total + v) as usize, None::<usize>),
            _ => r == (0usize, Some(total)),
        },
        r.0 == fold_step(total as int, *item).0,
        r.1 is Some <==> fold_step(total as int, *item).1 is Some,
        r.1 matches Some(n) ==> fold_step(total as int, *item).1 == Some(n as int),
{
    match item {
        Item::Value(v) => (total + *v, None),
        _ => (0, Some(total)),
    }
}

#[verifier::external_type_specification]
#[verifier::external_body]
pub struct ExStdRng(StdRng);

#[verifier::external_type_specification]
#[verifier::external_body]
pub struct ExInstant(Instant);

/// `SeedableRng::from_rng` on `StdRng`, seeded from `OsRng`: a random
/// number generator seeded by the operating system, or nothing when the
/// operating system's random source fails (the error is dropped).  Whether
/// it fails is the machine's, and is not stated.
#[verifier::external_body]
fn seeded_rng() -> Option<StdRng> {
    match StdRng::from_rng(OsRng) {
        Ok(rng) => Some(rng),
        Err(_) => None,
    }
}

/// `Rng::gen_range` on `u64`: a random value in `[low, high)`.  It panics
/// when the range is empty, which `requires` rules out.  Which value comes
/// back is left to chance.
#[verifier::external_body]
fn gen_range(rng: &mut StdRng, low: u64, high: u64) -> (r: u64)
    requires
        low < high,
    ensures
        low <= r < high,
{
    rng.gen_range(low, high)
}

/// `Instant::now`: the current instant of the monotonic clock.  Nothing is
/// stated of it.
#[verifier::external_body]
fn instant_now() -> Instant {
    Instant::now()
}

/// `Instant::elapsed`: the time since `start` by the monotonic clock.  It
/// depends on the clock, and nothing is stated of it.
#[verifier::external_body]
fn instant_elapsed(start: &Instant) -> Duration {
    start.elapsed()
}

/// A pong that arrives a random number of whole seconds after it was sent.
pub struct Pong {
    start: Instant,
    wait_secs: u64,
}

impl Pong {
    pub closed spec fn wait(&self) -> u64 {
        self.wait_secs
    }

    /// A pong sent now that arrives after a random wait below
    /// `wait_max_secs` seconds.  The bound must be positive.  `None` when
    /// the operating system's random source cannot seed the generator.
    pub fn new(wait_max_secs: u64) -> (r: Option<Pong>)
        requires
            wait_max_secs > 0,
        ensures
            r matches Some(p) ==> p.wait() < wait_max_secs,
    {
        let mut rng = match seeded_rng() {
            Some(rng) => rng,
            None => return None,
        };
        let wait_secs = gen_range(&mut rng, 0, wait_max_secs);
        Some(Pong { start: instant_now(), wait_secs })
    }

    /// The drawn wait, in seconds.
    pub fn wait_secs(&self) -> (s: u64)
        ensures
            s == self.wait(),
    {
        self.wait_secs
    }

    /// Whether the pong has arrived once `elapsed_secs` whole seconds have
    /// passed: only once strictly more than the wait have.
    pub fn is_due(&self, elapsed_secs: u64) -> (b: bool)
        ensures
            b == (elapsed_secs > self.wait()),
    {
        elapsed_secs > self.wait_secs
    }

    /// Whether the pong has arrived by now, by the monotonic clock: whether
    /// more whole seconds than the wait have passed since it was sent.  How
    /// many have passed is the clock's, and is not stated; whatever it is,
    /// a pong whose wait is `u64::MAX` seconds is never due.
    pub fn poll(&self) -> (b: bool)
        ensures
            b ==> self.wait() < u64::MAX,
    {
        let elapsed = duration_as_secs(&instant_elapsed(&self.start));
        self.is_due(elapsed)
    }
}

/// The link over which pings are sent and pongs come back.
pub struct Transport;

impl Transport {
    /// Sends a ping; the link has nothing to do for it.
    pub fn send_ping(&self) {
    }

    /// The pong to a ping: it arrives within the first second.  `None`
    /// when the operating system's random source fails.
    pub fn recv_pong(&self) -> (r: Option<Pong>)
        ensures
            r matches Some(p) ==> p.wait() == 0,
    {
        Pong::new(1)
    }
}

} // verus!
