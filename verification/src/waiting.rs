//! Futures that complete once a deadline on the UTC clock has passed.

use crate::clock::{
    checked_deadline, chrono_utc_in_range, clock_reading, utc_now, ClockError, TimeSpan, UtcTime,
};
use crate::text::{decimal, join3, u64_to_string};
use vstd::prelude::*;
use vstd::string::StringExecFns;

verus! {

/// The message that `WaitForIt` completes with.
pub open spec fn completion_message(message: Seq<char>, polls: u64) -> Seq<char> {
    message + " after "@ + decimal(polls as nat) + " polls!"@
}

/// The message on which a pending `WaitForIt` asks to be polled again at
/// once.
pub open spec fn wake_message() -> Seq<char> {
    "I'm done:"@
}

/// What one poll of a `WaitForIt` gives.
#[derive(Debug)]
pub enum WaitForItPoll {
    /// The deadline has passed; the completion message.
    Ready(String),
    /// Not yet; whether the task should be woken again right away.
    NotReady { wake_now: bool },
}

/// Why a poll of a `WaitForIt` failed.
#[derive(Debug, Clone, Copy, PartialEq, Eq, Structural)]
pub enum PollFailure {
    /// The clock could not be read.
    Clock(ClockError),
    /// The future is not ready and has been polled `u64::MAX` times, so the
    /// count of polls cannot go up.
    CountOverflow,
}

/// What `WaitForIt::new_at` gives for `message`, `delay` and `now`: a fresh
/// future whose deadline is `now` plus `delay` where `chrono` can represent
/// that deadline, and `DeadlineOutOfRange` otherwise.
pub open spec fn wait_for_it_made(
    message: Seq<char>,
    delay: TimeSpan,
    now: UtcTime,
    r: Result<WaitForIt, ClockError>,
) -> bool {
    let d = now.plus_spec(delay);
    if chrono_utc_in_range(d.secs, d.nanos) {
        r matches Ok(w) && w.message_view() == message && w.poll_count() == 0 && w.deadline()
            == d
    } else {
        r == Err::<WaitForIt, ClockError>(ClockError::DeadlineOutOfRange)
    }
}

/// What a poll at time `now` gives a `WaitForIt` with the given message,
/// deadline and count of polls: the completion message, with the count
/// kept, once the deadline lies before `now`; otherwise `NotReady`, with
/// the count one up.
pub open spec fn wait_for_it_polled(
    message: Seq<char>,
    deadline: UtcTime,
    polls: u64,
    now: UtcTime,
    p: WaitForItPoll,
    polls_after: u64,
) -> bool {
    if deadline.total_nanos() < now.total_nanos() {
        p matches WaitForItPoll::Ready(s) && s@ == completion_message(message, polls)
            && polls_after == polls
    } else {
        p == WaitForItPoll::NotReady { wake_now: message == wake_message() } && polls_after
            == polls + 1
    }
}

/// A future that completes with a message once its deadline has passed,
/// counting how often it was polled before.
#[derive(Debug)]
pub struct WaitForIt {
    message: String,
    until: UtcTime,
    polls: u64,
}

impl WaitForIt {
    /// The deadline is a well-formed time.
    #[verifier::type_invariant]
    spec fn deadline_wf(self) -> bool {
        self.until.wf()
    }

    pub closed spec fn message_view(&self) -> Seq<char> {
        self.message@
    }

    pub closed spec fn deadline(&self) -> UtcTime {
        self.until
    }

    pub closed spec fn poll_count(&self) -> u64 {
        self.polls
    }

    /// How often the future was polled without being ready.
    pub fn polls(&self) -> (n: u64)
        ensures
            n == self.poll_count(),
    {
        self.polls
    }

    /// The deadline, as a value.
    pub fn until(&self) -> (t: UtcTime)
        ensures
            t == self.deadline(),
            t.wf(),
    {
        proof {
            use_type_invariant(self);
        }
        self.until
    }

    /// A future with the given message whose deadline lies `delay` after
    /// `now`: `DeadlineOutOfRange` when `chrono` cannot represent the
    /// deadline (where `now + delay` panics in `chrono`), else a future with
    /// that deadline that has not been polled.
    pub fn new_at(message: String, delay: TimeSpan, now: UtcTime) -> (r: Result<
        WaitForIt,
        ClockError,
    >)
        requires
            now.wf(),
            delay.wf(),
            i64::MIN <= now.secs + delay.secs,
            now.secs + delay.secs < i64::MAX,
        ensures
            wait_for_it_made(message@, delay, now, r),
    {
        let until = now.plus(delay);
        match checked_deadline(until) {
            Ok(until) => Ok(WaitForIt { polls: 0, message, until }),
            Err(e) => Err(e),
        }
    }

    /// A future with the given message whose deadline lies `delay` after
    /// now: `new_at` for the time the clock gives.  It fails where reading
    /// the clock fails; otherwise it is what `new_at` gives for some clock
    /// reading.
    pub fn new(message: String, delay: TimeSpan) -> (r: Result<WaitForIt, ClockError>)
        requires
            delay.wf(),
            -9_000_000_000_000_000_000 <= delay.secs <= 9_000_000_000_000_000_000,
        ensures
            !(r matches Err(ClockError::BeforeEpoch)) && !(r matches Err(ClockError::OutOfRange))
                ==> exists|now: UtcTime|
                #![trigger clock_reading(now)]
                clock_reading(now) && wait_for_it_made(message@, delay, now, r),
    {
        let now = match utc_now() {
            Ok(t) => t,
            Err(e) => return Err(e),
        };
        let r = WaitForIt::new_at(message, delay, now);
        assert(clock_reading(now));
        r
    }

    /// A future with the given message and deadline.
    pub fn with_deadline(message: String, until: UtcTime) -> (w: WaitForIt)
        requires
            until.wf(),
        ensures
            w.message_view() == message@,
            w.poll_count() == 0,
            w.deadline() == until,
    {
        WaitForIt { polls: 0, message, until }
    }

    /// One poll at time `now`.  Once the deadline lies before `now`, the
    /// future is ready with "<message> after <polls> polls!".  Otherwise
    /// the poll is counted, and the task asks to be woken at once when the
    /// message is "I'm done:".
    pub fn poll_at(&mut self, now: UtcTime) -> (r: WaitForItPoll)
        requires
            now.wf(),
            old(self).deadline().total_nanos() < now.total_nanos() || old(self).poll_count()
                < u64::MAX,
        ensures
            final(self).message_view() == old(self).message_view(),
            final(self).deadline() == old(self).deadline(),
            old(self).deadline().total_nanos() < now.total_nanos() ==> {
                &&& final(self).poll_count() == old(self).poll_count()
                &&& r matches WaitForItPoll::Ready(s) && s@ == completion_message(
                    old(self).message_view(),
                    old(self).poll_count(),
                )
            },
            !(old(self).deadline().total_nanos() < now.total_nanos()) ==> {
                &&& final(self).poll_count() == old(self).poll_count() + 1
                &&& r == WaitForItPoll::NotReady {
                    wake_now: old(self).message_view() == wake_message(),
                }
            },
    {
        proof {
            use_type_invariant(&*self);
        }
        if self.until.is_before(&now) {
            let counted = u64_to_string(self.polls);
            WaitForItPoll::Ready(join3(self.message.as_str(), " after ", counted.as_str()).concat(" polls!"))
        } else {
            self.polls = self.polls + 1;
            let wake = String::from_str("I'm done:");
            WaitForItPoll::NotReady { wake_now: self.message.eq(&wake) }
        }
    }

    /// One poll at the current time, which is read from the clock: what
    /// `poll_at` gives for some clock reading.  So the future is ready
    /// exactly when the deadline lies before that time, and always when the
    /// deadline lies before the epoch.  Where reading the clock fails, or
    /// the count of polls would pass `u64::MAX` (where the count overflows
    /// in `poll_at`), the future is left as it was and the failure is
    /// returned.
    pub fn poll(&mut self) -> (r: Result<WaitForItPoll, PollFailure>)
        ensures
            final(self).message_view() == old(self).message_view(),
            final(self).deadline() == old(self).deadline(),
            r is Err ==> final(self).poll_count() == old(self).poll_count(),
            r matches Err(PollFailure::Clock(e)) ==> e != ClockError::DeadlineOutOfRange,
            r matches Err(PollFailure::CountOverflow) ==> {
                &&& old(self).poll_count() == u64::MAX
                &&& exists|now: UtcTime|
                    #![trigger clock_reading(now)]
                    clock_reading(now) && !(old(self).deadline().total_nanos()
                        < now.total_nanos())
            },
            r matches Ok(p) ==> exists|now: UtcTime|
                #![trigger clock_reading(now)]
                clock_reading(now) && wait_for_it_polled(
                    old(self).message_view(),
                    old(self).deadline(),
                    old(self).poll_count(),
                    now,
                    p,
                    final(self).poll_count(),
                ),
            old(self).deadline().total_nanos() < 0 ==> (r matches Ok(p) ==> p is Ready),
    {
        let now = match utc_now() {
            Ok(t) => t,
            Err(e) => return Err(PollFailure::Clock(e)),
        };
        proof {
            use_type_invariant(&*self);
        }
        assert(clock_reading(now));
        if self.polls == u64::MAX && !self.until.is_before(&now) {
            return Err(PollFailure::CountOverflow);
        }
        let p = self.poll_at(now);
        assert(now.total_nanos() >= 0);
        Ok(p)
    }
}

/// What one poll of a `WaitInAnotherThread` asks of its caller.
#[derive(Debug, PartialEq, Eq, Structural)]
pub enum WaitStep {
    /// Not yet; start the thread that wakes the task, then park.
    StartWaiter,
    /// Not yet; the waiting thread is running already, so just park.
    Park,
    /// The deadline has been reached.
    Complete,
}

/// What a poll of a `WaitInAnotherThread` gives at time `now`, given
/// whether its waking thread runs and its deadline.
pub open spec fn wait_step(running: bool, deadline: UtcTime, now: UtcTime) -> WaitStep {
    if now.total_nanos() < deadline.total_nanos() {
        if running {
            WaitStep::Park
        } else {
            WaitStep::StartWaiter
        }
    } else {
        WaitStep::Complete
    }
}

/// What `WaitInAnotherThread::new_at` gives for `msg`, `how_long` and
/// `now`: a future whose deadline is `now` plus `how_long` and whose waking
/// thread has not been started, where `chrono` can represent that
/// deadline, and `DeadlineOutOfRange` otherwise.
pub open spec fn waiter_made(
    msg: Seq<char>,
    how_long: TimeSpan,
    now: UtcTime,
    r: Result<WaitInAnotherThread, ClockError>,
) -> bool {
    let d = now.plus_spec(how_long);
    if chrono_utc_in_range(d.secs, d.nanos) {
        r matches Ok(w) && w.msg_view() == msg && !w.is_running() && w.deadline() == d
    } else {
        r == Err::<WaitInAnotherThread, ClockError>(ClockError::DeadlineOutOfRange)
    }
}

/// A future that parks its task until a deadline and has a side thread
/// wake it.
pub struct WaitInAnotherThread {
    end_time: UtcTime,
    msg: String,
    running: bool,
}

impl WaitInAnotherThread {
    /// The deadline is a well-formed time.
    #[verifier::type_invariant]
    spec fn deadline_wf(self) -> bool {
        self.end_time.wf()
    }

    pub closed spec fn deadline(&self) -> UtcTime {
        self.end_time
    }

    pub closed spec fn msg_view(&self) -> Seq<char> {
        self.msg@
    }

    /// Whether the waking thread has been started.
    pub closed spec fn is_running(&self) -> bool {
        self.running
    }

    /// A future whose deadline lies `how_long` after `now`:
    /// `DeadlineOutOfRange` when `chrono` cannot represent the deadline
    /// (where `now + how_long` panics in `chrono`), else a future with that
    /// deadline whose waking thread has not been started.
    pub fn new_at(how_long: TimeSpan, msg: String, now: UtcTime) -> (r: Result<
        WaitInAnotherThread,
        ClockError,
    >)
        requires
            now.wf(),
            how_long.wf(),
            i64::MIN <= now.secs + how_long.secs,
            now.secs + how_long.secs < i64::MAX,
        ensures
            waiter_made(msg@, how_long, now, r),
    {
        let end_time = now.plus(how_long);
        match checked_deadline(end_time) {
            Ok(end_time) => Ok(WaitInAnotherThread { end_time, msg, running: false }),
            Err(e) => Err(e),
        }
    }

    /// A future whose deadline lies `how_long` after now: `new_at` for the
    /// time the clock gives.  It fails where reading the clock fails;
    /// otherwise it is what `new_at` gives for some clock reading.
    pub fn new(how_long: TimeSpan, msg: String) -> (r: Result<WaitInAnotherThread, ClockError>)
        requires
            how_long.wf(),
            -9_000_000_000_000_000_000 <= how_long.secs <= 9_000_000_000_000_000_000,
        ensures
            !(r matches Err(ClockError::BeforeEpoch)) && !(r matches Err(ClockError::OutOfRange))
                ==> exists|now: UtcTime|
                #![trigger clock_reading(now)]
                clock_reading(now) && waiter_made(msg@, how_long, now, r),
    {
        let now = match utc_now() {
            Ok(t) => t,
            Err(e) => return Err(e),
        };
        let r = WaitInAnotherThread::new_at(how_long, msg, now);
        assert(clock_reading(now));
        r
    }

    /// A future with the given deadline.
    pub fn with_deadline(end_time: UtcTime, msg: String) -> (w: WaitInAnotherThread)
        requires
            end_time.wf(),
        ensures
            w.msg_view() == msg@,
            !w.is_running(),
            w.deadline() == end_time,
    {
        WaitInAnotherThread { end_time, msg, running: false }
    }

    /// The deadline, as a value.
    pub fn end_time(&self) -> (t: UtcTime)
        ensures
            t == self.deadline(),
            t.wf(),
    {
        proof {
            use_type_invariant(self);
        }
        self.end_time
    }

    /// The message that the waking thread reports.
    pub fn msg(&self) -> (m: &str)
        ensures
            m@ == self.msg_view(),
    {
        self.msg.as_str()
    }

    /// One poll at time `now`: complete once `now` is no longer before the
    /// deadline; otherwise park, and start the waking thread on the first
    /// such poll only.
    pub fn poll_at(&mut self, now: UtcTime) -> (r: WaitStep)
        requires
            now.wf(),
        ensures
            final(self).deadline() == old(self).deadline(),
            final(self).msg_view() == old(self).msg_view(),
            r == (if now.total_nanos() < old(self).deadline().total_nanos() {
                if old(self).is_running() {
                    WaitStep::Park
                } else {
                    WaitStep::StartWaiter
                }
            } else {
                WaitStep::Complete
            }),
            final(self).is_running() == (old(self).is_running() || r == WaitStep::StartWaiter),
    {
        proof {
            use_type_invariant(&*self);
        }
        if now.is_before(&self.end_time) {
            if !self.running {
                self.running = true;
                WaitStep::StartWaiter
            } else {
                WaitStep::Park
            }
        } else {
            WaitStep::Complete
        }
    }

    /// One poll at the current time, read from the clock: what `poll_at`
    /// gives for some time the clock can return (a well-formed time at or
    /// after the Unix epoch).  So a first poll starts the waking thread or
    /// completes, a later one parks or completes, the thread is started at
    /// most once, and a deadline at or before the epoch always completes.
    /// Where reading the clock fails, the future is left as it was and the
    /// failure is returned.
    pub fn poll(&mut self) -> (r: Result<WaitStep, ClockError>)
        ensures
            final(self).deadline() == old(self).deadline(),
            final(self).msg_view() == old(self).msg_view(),
            r matches Err(e) ==> {
                &&& e != ClockError::DeadlineOutOfRange
                &&& final(self).is_running() == old(self).is_running()
            },
            r matches Ok(step) ==> {
                &&& exists|now: UtcTime|
                    #![trigger clock_reading(now)]
                    clock_reading(now) && step == wait_step(
                        old(self).is_running(),
                        old(self).deadline(),
                        now,
                    )
                &&& old(self).is_running() ==> step != WaitStep::StartWaiter
                &&& !old(self).is_running() ==> step != WaitStep::Park
                &&& old(self).deadline().total_nanos() <= 0 ==> step == WaitStep::Complete
                &&& final(self).is_running() == (old(self).is_running() || step
                    == WaitStep::StartWaiter)
            },
    {
        let now = match utc_now() {
            Ok(t) => t,
            Err(e) => return Err(e),
        };
        let step = self.poll_at(now);
        assert(now.total_nanos() >= 0);
        assert(clock_reading(now));
        assert(step == wait_step(old(self).is_running(), old(self).deadline(), now));
        Ok(step)
    }
}

/// One turn of the waking thread's loop at time `now`: `None` once the
/// deadline is no longer ahead (the thread ends), else the whole seconds
/// to sleep before waking the task, which is the deadline's second minus
/// the current second when that is positive, and 0 otherwise.
pub fn sleep_before_wake(end: UtcTime, now: UtcTime) -> (r: Option<u64>)
    requires
        end.wf(),
        now.wf(),
    ensures
        r is None <==> !(now.total_nanos() < end.total_nanos()),
        r matches Some(d) ==> d == (if end.secs - now.secs > 0 {
            end.secs - now.secs
        } else {
            0
        }),
{
    if now.is_before(&end) {
        let delta: i128 = end.secs as i128 - now.secs as i128;
        if delta > 0 {
            Some(delta as u64)
        } else {
            Some(0)
        }
    } else {
        None
    }
}

} // verus!
