//! A fixed-window rate limiter shared by all requests.
//!
//! Time is counted in nanoseconds on a monotonic clock that starts when the
//! limiter is made. A window admits `limit` requests; the first request at
//! or after the window's end opens a new window.
use std::time::{Duration, Instant};
use vstd::prelude::*;

verus! {

/// Nanoseconds in a second.
pub const NANOS_PER_SEC: u64 = 1_000_000_000;

/// `a + b`, or `u64::MAX` where that sum does not fit.
pub open spec fn sat_add(a: u64, b: u64) -> u64 {
    if a + b > u64::MAX {
        u64::MAX
    } else {
        (a + b) as u64
    }
}

/// `a * b`, or `u64::MAX` where that product does not fit.
pub open spec fn sat_mul(a: u64, b: u64) -> u64 {
    if a * b > u64::MAX {
        u64::MAX
    } else {
        (a * b) as u64
    }
}

/// The counting state of a fixed-window limiter: requests counted in the
/// current window, the window's end, the requests a window admits, and the
/// window's length (times in nanoseconds).
#[derive(Clone, Copy, Debug, PartialEq, Eq, Structural)]
pub struct WindowState {
    pub count: u64,
    pub window_end: u64,
    pub limit: u64,
    pub window: u64,
}

/// One request at time `now`: the state after it, and `Ok` if it is
/// granted, else `Err` with the whole seconds left in the window (at
/// least one).
pub open spec fn window_step(s: WindowState, now: u64) -> (WindowState, Result<(), u64>) {
    let fresh = now >= s.window_end;
    let end = if fresh {
        sat_add(now, s.window)
    } else {
        s.window_end
    };
    let count = sat_add(
        if fresh {
            0
        } else {
            s.count
        },
        1,
    );
    let next = WindowState { count, window_end: end, limit: s.limit, window: s.window };
    let wait = ((end - now) / (NANOS_PER_SEC as int)) as u64;
    (
        next,
        if count <= s.limit {
            Ok(())
        } else {
            Err(
                if wait < 1 {
                    1
                } else {
                    wait
                },
            )
        },
    )
}

impl WindowState {
    /// Counts one request at time `now` and says whether it is granted.
    pub fn record(&mut self, now: u64) -> (r: Result<(), u64>)
        ensures
            (*final(self), r) == window_step(*old(self), now),
    {
        if now >= self.window_end {
            self.window_end = now.saturating_add(self.window);
            self.count = 0;
        }
        self.count = self.count.saturating_add(1);
        if self.count <= self.limit {
            Ok(())
        } else {
            let wait = (self.window_end - now) / NANOS_PER_SEC;
            Err(
                if wait < 1 {
                    1
                } else {
                    wait
                },
            )
        }
    }
}

/// A fixed-window rate limiter: its counting state, the instant its clock
/// starts from, and the latest time it has counted a request at.
pub struct RateLimiter {
    state: WindowState,
    origin: Instant,
    last_now: u64,
}

impl View for RateLimiter {
    type V = WindowState;

    closed spec fn view(&self) -> WindowState {
        self.state
    }
}

impl RateLimiter {
    /// The current window never reaches more than one window length past
    /// the latest time a request was counted at.
    #[verifier::type_invariant]
    spec fn window_in_reach(self) -> bool {
        self.state.window_end <= self.last_now + self.state.window
    }

    /// The latest time (nanoseconds since the limiter was made) at which a
    /// request was counted; zero before the first request.
    pub closed spec fn last_now(&self) -> u64 {
        self.last_now
    }

    /// A limiter that admits `limit` requests per window of `window_secs`
    /// seconds; its first window starts now.
    pub fn new(limit: u64, window_secs: u64) -> (r: RateLimiter)
        ensures
            r@ == (WindowState {
                count: 0,
                window_end: sat_mul(window_secs, NANOS_PER_SEC),
                limit,
                window: sat_mul(window_secs, NANOS_PER_SEC),
            }),
            r.last_now() == 0,
            r@.window_end <= r.last_now() + r@.window,
    {
        let window = match window_secs.checked_mul(NANOS_PER_SEC) {
            Some(w) => w,
            None => u64::MAX,
        };
        RateLimiter::with_window_nanos(limit, window)
    }

    /// A limiter that admits `limit` requests per window of `window_nanos`
    /// nanoseconds; its first window starts now.
    pub fn with_window_nanos(limit: u64, window_nanos: u64) -> (r: RateLimiter)
        ensures
            r@ == (WindowState {
                count: 0,
                window_end: window_nanos,
                limit,
                window: window_nanos,
            }),
            r.last_now() == 0,
            r@.window_end <= r.last_now() + r@.window,
    {
        RateLimiter {
            state: WindowState { count: 0, window_end: window_nanos, limit, window: window_nanos },
            origin: instant_now(),
            last_now: 0,
        }
    }

    /// Counts one request now and says whether it is granted; when it is
    /// not, the error holds the whole seconds until the window ends (at
    /// least one, and never more than the window's length in whole
    /// seconds). Times never go back: each request is counted at or after
    /// the time of the one before.
    pub fn check(&mut self) -> (r: Result<(), u64>)
        ensures
            exists|now: u64|
                now >= old(self).last_now() && final(self).last_now() == now && (final(self)@, r)
                    == window_step(old(self)@, now),
            r matches Err(w) ==> w <= (if old(self)@.window / NANOS_PER_SEC < 1 {
                1
            } else {
                old(self)@.window / NANOS_PER_SEC
            }),
    {
        let reading = self.now_nanos();
        self.check_at(reading)
    }

    /// Counts one request whose clock reading is `reading` (nanoseconds
    /// since the limiter was made). The request is counted at the later of
    /// the reading and the time of the request before, so times never go
    /// back; it is granted or refused as `window_step` says at that time.
    pub fn check_at(&mut self, reading: u64) -> (r: Result<(), u64>)
        ensures
            final(self).last_now() == (if reading < old(self).last_now() {
                old(self).last_now()
            } else {
                reading
            }),
            (final(self)@, r) == window_step(old(self)@, final(self).last_now()),
            final(self)@.window_end <= final(self).last_now() + final(self)@.window,
            r matches Err(w) ==> w <= (if old(self)@.window / NANOS_PER_SEC < 1 {
                1
            } else {
                old(self)@.window / NANOS_PER_SEC
            }),
    {
        proof {
            use_type_invariant(&*self);
        }
        let now = if reading < self.last_now {
            self.last_now
        } else {
            reading
        };
        let mut st = self.state;
        let r = st.record(now);
        proof {
            if r is Err {
                let d = st.window_end - now;
                let w = st.window as int;
                let n = NANOS_PER_SEC as int;
                assert(0 <= d <= w);
                assert(d / n <= w / n) by (nonlinear_arith)
                    requires
                        0 <= d <= w,
                        n > 0,
                ;
            }
        }
        self.last_now = now;
        self.state = st;
        proof {
            use_type_invariant(&*self);
        }
        r
    }

    /// The counting state.
    pub fn state(&self) -> (s: WindowState)
        ensures
            s == self@,
    {
        self.state
    }

    /// Nanoseconds since the limiter was made, capped at `u64::MAX`.
    fn now_nanos(&self) -> u64 {
        let d = elapsed_since(&self.origin);
        let n = duration_as_nanos(&d);
        if n > u64::MAX as u128 {
            u64::MAX
        } else {
            n as u64
        }
    }
}

#[verifier::external_type_specification]
#[verifier::external_body]
pub struct ExInstant(Instant);

/// `Instant::now`. Nothing is stated of the result: it is the clock's
/// reading.
#[verifier::external_body]
fn instant_now() -> Instant {
    Instant::now()
}

/// `Instant::elapsed`. Nothing is stated of the result: it depends on the
/// clock.
#[verifier::external_body]
fn elapsed_since(origin: &Instant) -> Duration {
    origin.elapsed()
}

/// `Duration::as_nanos`. `Duration` is opaque here, so nothing is stated of
/// the result.
#[verifier::external_body]
fn duration_as_nanos(d: &Duration) -> u128 {
    d.as_nanos()
}

// ── Laws ─────────────────────────────────────────────────────────────────────

/// How many of the requests at `times` (in order) a limiter in state `s`
/// admits.
pub open spec fn granted(s: WindowState, times: Seq<u64>) -> nat
    decreases times.len(),
{
    if times.len() == 0 {
        0
    } else {
        let step = window_step(s, times[0]);
        (if step.1 is Ok {
            1nat
        } else {
            0nat
        }) + granted(step.0, times.drop_first())
    }
}

/// Within one window, a limiter admits exactly as many requests as the
/// window has room for and refuses the rest: of `n` requests that all come
/// before the window's end, `min(n, limit - count)` are granted.
pub proof fn law_window_grants_at_most_limit(s: WindowState, times: Seq<u64>)
    requires
        forall|i: int| 0 <= i < times.len() ==> times[i] < s.window_end,
        s.count + times.len() <= u64::MAX,
    ensures
        granted(s, times) == if times.len() as int <= s.limit - s.count {
            times.len() as int
        } else if s.limit >= s.count {
            s.limit - s.count
        } else {
            0
        },
    decreases times.len(),
{
    if times.len() > 0 {
        let step = window_step(s, times[0]);
        assert(step.0.window_end == s.window_end);
        assert(step.0.count == s.count + 1);
        let rest = times.drop_first();
        assert forall|i: int| 0 <= i < rest.len() implies rest[i] < step.0.window_end by {
            assert(rest[i] == times[i + 1]);
        }
        law_window_grants_at_most_limit(step.0, rest);
    }
}

/// What the requests at `times` (in order) are answered, one answer per
/// request, starting from state `s`.
pub open spec fn answers(s: WindowState, times: Seq<u64>) -> Seq<Result<(), u64>>
    decreases times.len(),
{
    if times.len() == 0 {
        seq![]
    } else {
        let step = window_step(s, times[0]);
        seq![step.1] + answers(step.0, times.drop_first())
    }
}

/// The whole seconds from `now` to `end`, at least one.
pub open spec fn wait_secs(end: u64, now: u64) -> u64 {
    let w = ((end - now) / (NANOS_PER_SEC as int)) as u64;
    if w < 1 {
        1
    } else {
        w
    }
}

/// Call by call within one window: the `i`-th request (counting from 0)
/// is granted exactly when the window still has room for it, that is when
/// `count + i + 1 <= limit`; otherwise it is told the whole seconds left in
/// the window (at least one). In a window that began at or after time 0,
/// that wait is never more than the window's length in whole seconds (at
/// least one).
pub proof fn law_calls_in_one_window(s: WindowState, times: Seq<u64>)
    requires
        forall|i: int| 0 <= i < times.len() ==> times[i] < s.window_end,
        s.count + times.len() <= u64::MAX,
    ensures
        answers(s, times).len() == times.len(),
        forall|i: int|
            0 <= i < times.len() ==> #[trigger] answers(s, times)[i] == if s.count + i + 1
                <= s.limit {
                Ok(())
            } else {
                Err(wait_secs(s.window_end, times[i]))
            },
        s.window_end <= s.window ==> forall|i: int|
            0 <= i < times.len() && #[trigger] answers(s, times)[i] is Err ==> wait_secs(
                s.window_end,
                times[i],
            ) <= (if s.window / NANOS_PER_SEC < 1 {
                1
            } else {
                s.window / NANOS_PER_SEC
            }),
    decreases times.len(),
{
    if times.len() > 0 {
        let step = window_step(s, times[0]);
        let rest = times.drop_first();
        assert(step.0.window_end == s.window_end);
        assert(step.0.count == s.count + 1);
        assert(step.0.window == s.window && step.0.limit == s.limit);
        assert forall|i: int| 0 <= i < rest.len() implies rest[i] < step.0.window_end by {
            assert(rest[i] == times[i + 1]);
        }
        law_calls_in_one_window(step.0, rest);
        let a = answers(s, times);
        assert(a == seq![step.1] + answers(step.0, rest));
        assert forall|i: int| 0 <= i < times.len() implies #[trigger] a[i] == if s.count + i + 1
            <= s.limit {
            Ok(())
        } else {
            Err(wait_secs(s.window_end, times[i]))
        } by {
            if i > 0 {
                assert(a[i] == answers(step.0, rest)[i - 1]);
                assert(rest[i - 1] == times[i]);
            }
        }
        if s.window_end <= s.window {
            assert forall|i: int|
                0 <= i < times.len() && #[trigger] a[i] is Err implies wait_secs(
                s.window_end,
                times[i],
            ) <= (if s.window / NANOS_PER_SEC < 1 {
                1
            } else {
                s.window / NANOS_PER_SEC
            }) by {
                let d = s.window_end - times[i];
                assert(0 <= d <= s.window);
                let w = s.window as int;
                let n = NANOS_PER_SEC as int;
                assert(d / n <= w / n) by (nonlinear_arith)
                    requires
                        0 <= d <= w,
                        n > 0,
                ;
            }
        }
    }
}

/// A request whose clock reading has reached the end of the window is
/// never held in the old window: it opens a new window that ends one window
/// length after it, is the first request counted there, and is granted
/// whenever a window admits any request at all, however many requests the
/// old window refused.
pub proof fn law_late_reading_opens_window(s: WindowState, last: u64, reading: u64)
    requires
        reading >= s.window_end,
    ensures
        ({
            let now = if reading < last {
                last
            } else {
                reading
            };
            &&& now >= reading
            &&& window_step(s, now).0.count == 1
            &&& window_step(s, now).0.window_end == sat_add(now, s.window)
            &&& (s.limit >= 1 ==> window_step(s, now).1 is Ok)
        }),
{
}

/// Whatever came before, a request whose clock reading is at least one
/// window length after the latest counted request is granted (when a window
/// admits any request at all) as the first request of a new window.
pub proof fn law_window_later_is_granted(s: WindowState, last: u64, reading: u64)
    requires
        s.window_end <= last + s.window,
        reading >= last + s.window,
        s.limit >= 1,
    ensures
        window_step(s, reading).1 is Ok,
        window_step(s, reading).0.count == 1,
{
}

/// A request at or after the end of the window opens a new window that
/// ends one window length later, and is the first request counted there.
pub proof fn law_late_request_opens_window(s: WindowState, now: u64)
    requires
        now >= s.window_end,
    ensures
        window_step(s, now).0.count == 1,
        window_step(s, now).0.window_end == sat_add(now, s.window),
        s.limit >= 1 ==> window_step(s, now).1 is Ok,
{
}

/// A refused request is told to wait at least one second, and never longer
/// than the time left in the window, rounded up to a whole second.
pub proof fn law_refusal_wait(s: WindowState, now: u64)
    ensures
        window_step(s, now).1 matches Err(w) ==> w >= 1 && (w == 1 || w * NANOS_PER_SEC <= window_step(
            s,
            now,
        ).0.window_end - now),
{
    let st = window_step(s, now).0;
    let d = st.window_end - now;
    assert(d >= 0);
    let q = d / (NANOS_PER_SEC as int);
    assert(q * NANOS_PER_SEC <= d) by (nonlinear_arith)
        requires
            d >= 0,
            q == d / (NANOS_PER_SEC as int),
    ;
}

/// Once a request in a window is refused, every later request in the same
/// window is refused too.
pub proof fn law_refusal_persists(s: WindowState, now: u64, later: u64)
    requires
        window_step(s, now).1 is Err,
        now <= later,
        later < window_step(s, now).0.window_end,
    ensures
        window_step(window_step(s, now).0, later).1 is Err,
{
}

} // verus!
