//! Streams that count: the Fibonacci numbers, a bounded counter that hands
//! out `1..=max`, and a consumer that takes at most ten values.

use crate::text::{decimal, join, u64_to_string};
use tokio_core::reactor::Handle;
use vstd::prelude::*;

verus! {

/// The Fibonacci numbers, starting `fib(0) = 0, fib(1) = 1`.
pub open spec fn fib(n: nat) -> nat
    decreases n,
{
    if n == 0 {
        0
    } else if n == 1 {
        1
    } else {
        fib((n - 2) as nat) + fib((n - 1) as nat)
    }
}

/// An endless stream of the Fibonacci numbers 1, 1, 2, 3, 5, ...
pub struct Fibonacci {
    curr: u64,
    next: u64,
}

impl Fibonacci {
    /// The value the next poll yields.
    pub closed spec fn current(&self) -> nat {
        self.curr as nat
    }

    /// The value after that.
    pub closed spec fn following(&self) -> nat {
        self.next as nat
    }

    /// Whether the stream has yielded exactly `k` values since it was made:
    /// its next values are then `fib(k + 1)` and `fib(k + 2)`.
    pub open spec fn at_step(&self, k: nat) -> bool {
        self.current() == fib(k + 1) && self.following() == fib(k + 2)
    }

    /// A stream that has yielded nothing yet.
    pub fn new() -> (f: Fibonacci)
        ensures
            f.current() == 1,
            f.following() == 1,
            f.at_step(0),
    {
        proof {
            assert(fib(2) == 1) by {
                reveal_with_fuel(fib, 3);
            }
        }
        Fibonacci { curr: 1, next: 1 }
    }

    /// Whether the next poll can add the two values held within a `u64`.
    pub fn can_advance(&self) -> (b: bool)
        ensures
            b == (self.current() + self.following() <= u64::MAX),
    {
        self.curr <= u64::MAX - self.next
    }

    /// Yields the current value and moves on by one.  The sum of the two
    /// values held must fit in a `u64`.
    pub fn poll_next(&mut self) -> (v: u64)
        requires
            old(self).current() + old(self).following() <= u64::MAX,
        ensures
            v == old(self).current(),
            final(self).current() == old(self).following(),
            final(self).following() == old(self).current() + old(self).following(),
            forall|k: nat|
                #[trigger] old(self).at_step(k) ==> v == fib(k + 1) && final(self).at_step(k + 1),
    {
        proof {
            assert forall|k: nat| #[trigger] old(self).at_step(k) implies fib(k + 3) == fib(k + 1)
                + fib(k + 2) by {}
        }
        let curr = self.curr;
        let next = curr + self.next;
        self.curr = self.next;
        self.next = next;
        curr
    }
}

/// The pair `(fib(n), fib(n + 1))`, computed forwards.
spec fn fib_pair(n: nat) -> (nat, nat)
    decreases n,
{
    if n == 0 {
        (0, 1)
    } else {
        let p = fib_pair((n - 1) as nat);
        (p.1, p.0 + p.1)
    }
}

proof fn lemma_fib_pair(n: nat)
    ensures
        fib_pair(n) == (fib(n), fib(n + 1)),
    decreases n,
{
    if n > 0 {
        lemma_fib_pair((n - 1) as nat);
        assert(fib(n + 1) == fib((n - 1) as nat) + fib(n));
    }
}

/// The Fibonacci numbers never go down.
proof fn lemma_fib_monotone(i: nat, j: nat)
    requires
        i <= j,
    ensures
        fib(i) <= fib(j),
    decreases j - i,
{
    if i < j {
        lemma_fib_monotone(i, (j - 1) as nat);
        if j >= 2 {
            assert(fib(j) == fib((j - 2) as nat) + fib((j - 1) as nat));
        } else {
            assert(j == 1 && i == 0);
        }
    }
}

/// The largest Fibonacci number that fits in a `u64` is `fib(93)`.
proof fn lemma_fib_93_94()
    ensures
        fib(93) == 12200160415121876738,
        fib(94) == 19740274219868223167,
{
    lemma_fib_pair(93);
    assert(fib_pair(10) == (55nat, 89nat)) by {
        reveal_with_fuel(fib_pair, 11);
    }
    assert(fib_pair(20) == (6765nat, 10946nat)) by {
        reveal_with_fuel(fib_pair, 11);
    }
    assert(fib_pair(30) == (832040nat, 1346269nat)) by {
        reveal_with_fuel(fib_pair, 11);
    }
    assert(fib_pair(40) == (102334155nat, 165580141nat)) by {
        reveal_with_fuel(fib_pair, 11);
    }
    assert(fib_pair(50) == (12586269025nat, 20365011074nat)) by {
        reveal_with_fuel(fib_pair, 11);
    }
    assert(fib_pair(60) == (1548008755920nat, 2504730781961nat)) by {
        reveal_with_fuel(fib_pair, 11);
    }
    assert(fib_pair(70) == (190392490709135nat, 308061521170129nat)) by {
        reveal_with_fuel(fib_pair, 11);
    }
    assert(fib_pair(80) == (23416728348467685nat, 37889062373143906nat)) by {
        reveal_with_fuel(fib_pair, 11);
    }
    assert(fib_pair(90) == (2880067194370816120nat, 4660046610375530309nat)) by {
        reveal_with_fuel(fib_pair, 11);
    }
    assert(fib_pair(93) == (12200160415121876738nat, 19740274219868223167nat)) by {
        reveal_with_fuel(fib_pair, 11);
    }
}

/// A stream that has yielded `k` values can be polled once more without
/// overflow exactly when `k <= 90`.  So from a fresh stream, the first 91
/// polls return `fib(1), ..., fib(91)`, and the 92nd would need
/// `fib(94)`, which does not fit in a `u64`.
pub proof fn lemma_fibonacci_polls(f: Fibonacci, k: nat)
    requires
        f.at_step(k),
    ensures
        f.current() + f.following() <= u64::MAX <==> k <= 90,
        f.current() == fib(k + 1),
{
    lemma_fib_93_94();
    assert(fib(k + 3) == fib(k + 1) + fib(k + 2));
    if k <= 90 {
        lemma_fib_monotone(k + 3, 93);
    } else {
        lemma_fib_monotone(94, k + 3);
    }
}

/// A stream at step `k` moves to step `k + 1` on each poll: so the values it
/// yields, from a fresh stream on, are `fib(1), fib(2), fib(3), ...`.
pub proof fn lemma_fibonacci_step(before: Fibonacci, after: Fibonacci, k: nat)
    requires
        before.at_step(k),
        after.current() == before.following(),
        after.following() == before.current() + before.following(),
    ensures
        after.at_step(k + 1),
{
    assert(fib(k + 3) == fib(k + 1) + fib(k + 2));
}

/// How many values a `Display10` shows at most.
pub const DISPLAY_LIMIT: usize = 10;

/// One value offered to a `Display10` that has shown `shown`: the count
/// afterwards, and the position the value is shown at, if it is shown.
pub open spec fn display_step(shown: nat) -> (nat, Option<nat>) {
    if shown < DISPLAY_LIMIT {
        (shown + 1, Some(shown))
    } else {
        (shown, None)
    }
}

/// How many values a fresh `Display10` has shown after `n` were offered.
pub open spec fn shown_after(n: nat) -> nat
    decreases n,
{
    if n == 0 {
        0
    } else {
        display_step(shown_after((n - 1) as nat)).0
    }
}

/// A `Display10` shows at most ten values, each once and in order: of the
/// values a stream offers, the one at position `k` (from 0) is shown at
/// position `k` when `k < 10` and not at all otherwise, and after `n`
/// offers `min(n, 10)` have been shown.
pub proof fn lemma_display_at_most_ten(n: nat)
    ensures
        shown_after(n) == if n < DISPLAY_LIMIT {
            n
        } else {
            DISPLAY_LIMIT as nat
        },
        display_step(shown_after(n)).1 == if n < DISPLAY_LIMIT {
            Some(n)
        } else {
            None::<nat>
        },
    decreases n,
{
    if n > 0 {
        lemma_display_at_most_ten((n - 1) as nat);
    }
}

/// A future that shows the first ten values of a stream, or all of them if
/// the stream ends sooner.
pub struct Display10<T> {
    stream: T,
    curr: usize,
}

impl<T> Display10<T> {
    /// How many values have been shown.
    pub closed spec fn shown(&self) -> nat {
        self.curr as nat
    }

    pub closed spec fn inner(&self) -> T {
        self.stream
    }

    /// A consumer of `stream` that has shown nothing.
    pub fn new(stream: T) -> (d: Display10<T>)
        ensures
            d.shown() == 0,
            d.inner() == stream,
    {
        Display10 { stream, curr: 0 }
    }

    /// How many values have been shown, as a value.
    pub fn count(&self) -> (n: usize)
        ensures
            n == self.shown(),
    {
        self.curr
    }

    /// Whether another value should be taken from the stream.
    pub fn wants_more(&self) -> (b: bool)
        ensures
            b == (self.shown() < DISPLAY_LIMIT),
    {
        self.curr < DISPLAY_LIMIT
    }

    /// Counts one shown value and returns its position, starting at 0.
    pub fn record_shown(&mut self) -> (index: usize)
        requires
            old(self).shown() < DISPLAY_LIMIT,
        ensures
            index == old(self).shown(),
            final(self).shown() == old(self).shown() + 1,
            final(self).shown() <= DISPLAY_LIMIT,
            final(self).inner() == old(self).inner(),
            display_step(old(self).shown()) == (final(self).shown(), Some(index as nat)),
    {
        let index = self.curr;
        self.curr = self.curr + 1;
        index
    }

    /// The stream being shown, to poll.
    pub fn stream_mut(&mut self) -> (s: &mut T)
        ensures
            *s == old(self).inner(),
            final(self).inner() == *final(s),
            final(self).shown() == old(self).shown(),
    {
        &mut self.stream
    }
}

#[verifier::external_type_specification]
#[verifier::external_body]
pub struct ExHandle(Handle);

/// A stream that yields `1, 2, ..., max` and then ends, and that starts a
/// waiting task on the reactor behind `core_handle` for each value.
pub struct MyStream {
    current: u32,
    max: u32,
    core_handle: Handle,
}

/// One poll of a `MyStream` whose last value is `last` and whose limit is
/// `max`: the last value afterwards, and what the poll yields.
pub open spec fn my_stream_step(last: u32, max: u32) -> (u32, Option<u32>) {
    if last < max {
        ((last + 1) as u32, Some((last + 1) as u32))
    } else {
        (last, None)
    }
}

/// The last value of a fresh `MyStream` with limit `max` after `k` polls.
pub open spec fn my_stream_last_after(max: u32, k: nat) -> u32
    decreases k,
{
    if k == 0 {
        0
    } else {
        my_stream_step(my_stream_last_after(max, (k - 1) as nat), max).0
    }
}

/// A fresh `MyStream` with limit `max` yields `1, 2, ..., max` on its
/// first `max` polls and `None` on every later one: poll number `k` (from
/// 0) yields `Some(k + 1)` when `k < max` and `None` otherwise.
pub proof fn lemma_my_stream_sequence(max: u32, k: nat)
    ensures
        my_stream_last_after(max, k) == if k < max {
            k
        } else {
            max as nat
        },
        my_stream_step(my_stream_last_after(max, k), max).1 == if k < max {
            Some((k + 1) as u32)
        } else {
            None::<u32>
        },
    decreases k,
{
    if k > 0 {
        lemma_my_stream_sequence(max, (k - 1) as nat);
    }
}

/// The label of the waiting task that `MyStream` starts for value `x`.
pub open spec fn wait_label(x: u32) -> Seq<char> {
    "WAIT "@ + decimal(x as nat)
}

impl MyStream {
    /// The last value yielded never passes the limit.
    #[verifier::type_invariant]
    spec fn within_limit(self) -> bool {
        self.current <= self.max
    }

    /// The last value yielded, 0 before the first.
    pub closed spec fn last(&self) -> u32 {
        self.current
    }

    pub closed spec fn limit(&self) -> u32 {
        self.max
    }

    /// The reactor handle the stream was made with.
    pub closed spec fn reactor(&self) -> Handle {
        self.core_handle
    }

    /// A stream that has yielded nothing.
    pub fn new(max: u32, handle: Handle) -> (s: MyStream)
        ensures
            s.last() == 0,
            s.limit() == max,
            s.last() <= s.limit(),
            s.reactor() == handle,
    {
        MyStream { current: 0, max, core_handle: handle }
    }

    /// The next value, one more than the last, while the last is below the
    /// limit; then `None`, for good.
    pub fn poll_next(&mut self) -> (v: Option<u32>)
        ensures
            final(self).limit() == old(self).limit(),
            final(self).reactor() == old(self).reactor(),
            old(self).last() < old(self).limit() ==> {
                &&& v == Some((old(self).last() + 1) as u32)
                &&& final(self).last() == old(self).last() + 1
            },
            old(self).last() >= old(self).limit() ==> {
                &&& v is None
                &&& final(self).last() == old(self).last()
            },
            final(self).last() <= final(self).limit(),
            v matches Some(x) ==> 1 <= x <= final(self).limit(),
            (final(self).last(), v) == my_stream_step(old(self).last(), old(self).limit()),
    {
        proof {
            use_type_invariant(&*self);
        }
        if self.current < self.max {
            self.current = self.current + 1;
            Some(self.current)
        } else {
            None
        }
    }

    /// The reactor on which the waiting tasks run.
    pub fn handle(&self) -> (h: &Handle)
        ensures
            *h == self.reactor(),
    {
        &self.core_handle
    }

    /// The label of the waiting task for value `x`: "WAIT <x>".
    pub fn wait_label(x: u32) -> (s: String)
        ensures
            s@ == wait_label(x),
    {
        let digits = u64_to_string(x as u64);
        join("WAIT ", digits.as_str())
    }
}

} // verus!
