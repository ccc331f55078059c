//! Frame timing: a log of recent frame durations and the fixed-timestep
//! accumulator behind `check_update_time`.
//!
//! All durations here are whole nanoseconds.

use vstd::prelude::*;
use vstd::arithmetic::div_mod::{
    lemma_add_mod_noop, lemma_mod_add_multiples_vanish, lemma_mod_equivalence, lemma_small_mod,
};

verus! {

/// `((a % n) + 1) % n == (a + 1) % n`.
proof fn lemma_mod_step(a: int, n: int)
    requires
        0 <= a,
        0 < n,
    ensures
        ((a % n) + 1) % n == (a + 1) % n,
{
    lemma_add_mod_noop(a, 1, n);
    if n == 1 {
        assert(1int % 1 == 0);
        assert((a % 1) == 0) by (nonlinear_arith) requires n == 1, 0 <= a {}
    } else {
        lemma_small_mod(1, n as nat);
    }
}

/// Two indices that are less than `n` apart fall into different slots.
proof fn lemma_mod_distinct(i: int, j: int, n: int)
    requires
        0 <= i < j < i + n,
    ensures
        i % n != j % n,
{
    lemma_mod_equivalence(j, i, n);
    lemma_small_mod((j - i) as nat, n as nat);
}

/// A buffer that fills up to a limit and then holds the last N items that have
/// been inserted into it, overwriting old ones in a round-robin fashion.
///
/// The buffer starts out holding one copy of its initial value in every slot;
/// that initial value counts as the first sample.
pub struct LogBuffer<T> {
    head: usize,
    size: usize,
    /// The number of samples inserted, the initial value included.
    samples: usize,
    contents: Vec<T>,
    /// Every sample ever inserted, oldest first.
    log: Ghost<Seq<T>>,
}

impl<T: Copy> LogBuffer<T> {
    /// Every sample ever inserted, the initial value first.
    pub closed spec fn history(&self) -> Seq<T> {
        self.log@
    }

    /// The number of slots.
    pub open spec fn capacity(&self) -> nat {
        self.slots().len()
    }

    /// The slots, in storage order.
    pub closed spec fn slots(&self) -> Seq<T> {
        self.contents@
    }

    pub closed spec fn wf(&self) -> bool {
        let n = self.contents@.len() as int;
        let k = self.log@.len() as int;
        &&& self.size == n
        &&& self.samples == k
        &&& k >= 1
        &&& n > 0 ==> self.head < n && self.head == (k - 1) % n
        &&& forall|i: int| k - n <= i < k && 0 <= i ==> #[trigger] self.log@[i] == self.contents@[i % n]
        &&& forall|j: int| k <= j < n ==> #[trigger] self.contents@[j] == self.log@[0]
    }

    /// Creates a buffer of `size` slots, each holding `init_val`.
    pub fn new(size: usize, init_val: T) -> (buf: Self)
        ensures
            buf.wf(),
            buf.capacity() == size,
            buf.history() == seq![init_val],
            buf.slots() == Seq::new(size as nat, |i: int| init_val),
    {
        let mut contents: Vec<T> = Vec::new();
        let mut i: usize = 0;
        while i < size
            invariant
                i <= size,
                contents@ == Seq::new(i as nat, |j: int| init_val),
            decreases size - i,
        {
            contents.push(init_val);
            i = i + 1;
        }
        let ghost first = seq![init_val];
        let buf = LogBuffer { head: 0, size, samples: 1, contents, log: Ghost(first) };
        proof {
            if size > 0 {
                lemma_small_mod(0, size as nat);
            }
            assert forall|i: int| 1 - size <= i < 1 && 0 <= i implies #[trigger] buf.log@[i]
                == buf.contents@[i % (size as int)] by {
                lemma_small_mod(0, size as nat);
            }
        }
        buf
    }

    /// Pushes a new item into the buffer, overwriting the oldest one once it is full.
    pub fn push(&mut self, item: T)
        requires
            old(self).wf(),
            old(self).capacity() > 0,
            old(self).history().len() < usize::MAX,
        ensures
            final(self).wf(),
            final(self).capacity() == old(self).capacity(),
            final(self).history() == old(self).history().push(item),
            final(self).slots() == old(self).slots().update(
                (old(self).history().len() % old(self).capacity()) as int,
                item,
            ),
    {
        let ghost n = self.contents@.len() as int;
        let ghost k = self.log@.len() as int;
        let ghost old_contents = self.contents@;
        let len = self.contents.len();
        self.head = (self.head + 1) % len;
        self.contents.set(self.head, item);
        self.size = if self.size < len { self.size + 1 } else { len };
        self.samples = self.samples + 1;
        let ghost next = self.log@.push(item);
        self.log = Ghost(next);
        proof {
            lemma_mod_step(k - 1, n);
            assert forall|i: int| k + 1 - n <= i < k + 1 && 0 <= i implies #[trigger] self.log@[i]
                == self.contents@[i % n] by {
                if i < k {
                    lemma_mod_distinct(i, k, n);
                    assert(old_contents[i % n] == self.contents@[i % n]);
                }
            }
            assert forall|j: int| k + 1 <= j < n implies #[trigger] self.contents@[j] == self.log@[0] by {
                lemma_small_mod(k as nat, n as nat);
            }
        }
    }

    /// Returns every slot, in storage order. Slots not written yet hold the
    /// initial value; before the buffer wraps around, slot `i` holds the
    /// `i`-th sample, and afterwards the last `capacity` samples are spread
    /// round-robin over the slots.
    pub fn contents(&self) -> (s: &[T])
        requires
            self.wf(),
        ensures
            s@ == self.slots(),
            s@.len() == self.capacity(),
            self.history().len() <= self.capacity() ==> {
                &&& forall|i: int| 0 <= i < self.history().len() ==> #[trigger] s@[i] == self.history()[i]
                &&& forall|j: int| self.history().len() <= j < s@.len() ==> #[trigger] s@[j] == self.history()[0]
            },
            self.history().len() > self.capacity() ==> forall|i: int|
                self.history().len() - self.capacity() <= i < self.history().len()
                    ==> #[trigger] self.history()[i] == s@[i % (self.capacity() as int)],
    {
        proof {
            let n = self.contents@.len() as int;
            assert forall|i: int| 0 <= i < self.log@.len() && self.log@.len() <= n implies self.contents@[i]
                == #[trigger] self.log@[i] by {
                lemma_small_mod(i as nat, n as nat);
            }
        }
        self.contents.as_slice()
    }

    /// The number of samples inserted, the initial value included.
    pub fn samples(&self) -> (k: usize)
        requires
            self.wf(),
        ensures
            k == self.history().len(),
    {
        self.samples
    }

    /// Returns the most recent value in the buffer.
    pub fn latest(&self) -> (v: T)
        requires
            self.wf(),
            self.capacity() > 0,
        ensures
            v == self.history().last(),
    {
        self.contents[self.head]
    }
}


/// The sum of a sequence of durations.
pub open spec fn total_nanos(s: Seq<u128>) -> nat
    decreases s.len(),
{
    if s.len() == 0 {
        0
    } else {
        total_nanos(s.drop_last()) + (s.last() as nat)
    }
}

/// The last `n` entries of `h`, or all of `h` if it holds fewer.
pub open spec fn recent(h: Seq<u128>, n: nat) -> Seq<u128> {
    if h.len() <= n {
        h
    } else {
        h.subrange(h.len() - n, h.len() as int)
    }
}

proof fn lemma_total_concat(a: Seq<u128>, b: Seq<u128>)
    ensures
        total_nanos(a + b) == total_nanos(a) + total_nanos(b),
    decreases b.len(),
{
    if b.len() == 0 {
        assert(a + b =~= a);
    } else {
        assert((a + b).drop_last() =~= a + b.drop_last());
        lemma_total_concat(a, b.drop_last());
    }
}

/// Slots that hold the window `h[k - n .. k]` at positions `i % n` add up to
/// the same total as the window itself.
proof fn lemma_total_rotation(s: Seq<u128>, h: Seq<u128>)
    requires
        0 < s.len() < h.len(),
        forall|i: int| h.len() - s.len() <= i < h.len() ==> #[trigger] h[i] == s[i % (s.len() as int)],
    ensures
        total_nanos(s) == total_nanos(recent(h, s.len())),
{
    let n = s.len() as int;
    let k = h.len() as int;
    let w = recent(h, s.len());
    let r = (k - n) % n;
    assert(0 <= r < n);
    assert forall|t: int| 0 <= t < n implies #[trigger] w[t] == (s.subrange(r, n) + s.subrange(0, r))[t] by {
        assert(w[t] == h[k - n + t]);
        lemma_add_mod_noop(k - n, t, n);
        lemma_small_mod(t as nat, n as nat);
        if r + t < n {
            lemma_small_mod((r + t) as nat, n as nat);
        } else {
            lemma_mod_add_multiples_vanish(r + t - n, n);
            lemma_small_mod((r + t - n) as nat, n as nat);
        }
    }
    assert(w =~= s.subrange(r, n) + s.subrange(0, r));
    assert(s =~= s.subrange(0, r) + s.subrange(r, n));
    lemma_total_concat(s.subrange(r, n), s.subrange(0, r));
    lemma_total_concat(s.subrange(0, r), s.subrange(r, n));
}

/// How many frames the frame log keeps.
pub const TIME_LOG_FRAMES: usize = 200;

/// The duration that the frame log starts out with: 16 ms.
pub const INITIAL_FRAME_NANOS: u128 = 16_000_000;

/// The longest duration there is (`Duration::MAX`): `u64::MAX` seconds and
/// 999 999 999 nanoseconds.
pub const DURATION_MAX_NANOS: u128 = 18_446_744_073_709_551_615_999_999_999;

/// A structure that contains our time-tracking state.
pub struct TimeContext {
    frame_durations: LogBuffer<u128>,
    residual_update_dt: u128,
    frame_count: usize,
}

impl TimeContext {
    /// Every frame duration recorded, the initial 16 ms first.
    pub closed spec fn frame_log(&self) -> Seq<u128> {
        self.frame_durations.history()
    }

    /// Time that has passed and has not been consumed by `check_update_time` yet.
    pub closed spec fn residual(&self) -> nat {
        self.residual_update_dt as nat
    }

    /// The number of recorded frames.
    pub closed spec fn frame_count(&self) -> nat {
        self.frame_count as nat
    }

    pub closed spec fn wf(&self) -> bool {
        &&& self.frame_durations.wf()
        &&& self.frame_durations.capacity() == TIME_LOG_FRAMES
        &&& self.frame_durations.history().len() == self.frame_count + 1
    }

    /// Creates a new `TimeContext`: no frame recorded, nothing accumulated.
    pub fn new() -> (tc: TimeContext)
        ensures
            tc.wf(),
            tc.frame_log() == seq![INITIAL_FRAME_NANOS],
            tc.residual() == 0,
            tc.frame_count() == 0,
    {
        TimeContext {
            frame_durations: LogBuffer::new(TIME_LOG_FRAMES, INITIAL_FRAME_NANOS),
            residual_update_dt: 0,
            frame_count: 0,
        }
    }

    /// Records that another frame has taken place, `time_since_last`
    /// nanoseconds after the previous one. Durations go up to
    /// `DURATION_MAX_NANOS`, the accumulated time too.
    pub fn tick(&mut self, time_since_last: u128)
        requires
            old(self).wf(),
            old(self).frame_count() + 2 <= usize::MAX,
            old(self).residual() + time_since_last <= DURATION_MAX_NANOS,
        ensures
            final(self).wf(),
            final(self).frame_log() == old(self).frame_log().push(time_since_last),
            final(self).frame_count() == old(self).frame_count() + 1,
            final(self).residual() == old(self).residual() + time_since_last,
    {
        self.frame_durations.push(time_since_last);
        self.frame_count = self.frame_count + 1;
        self.residual_update_dt = self.residual_update_dt + time_since_last;
    }
}

/// The length of the last frame.
pub fn delta(tc: &TimeContext) -> (d: u128)
    requires
        tc.wf(),
    ensures
        d == tc.frame_log().last(),
{
    tc.frame_durations.latest()
}

/// The recorded frames that the average is taken over, in storage order:
/// all slots once the log has wrapped around, the recorded ones before.
fn recorded_frames(tc: &TimeContext) -> (frames: &[u128])
    requires
        tc.wf(),
    ensures
        total_nanos(frames@) == total_nanos(recent(tc.frame_log(), TIME_LOG_FRAMES as nat)),
        frames@.len() == recent(tc.frame_log(), TIME_LOG_FRAMES as nat).len(),
{
    let slots = tc.frame_durations.contents();
    let ghost h = tc.frame_durations.history();
    let samples = tc.frame_durations.samples();
    let frames = if samples < slots.len() {
        slots.split_at(samples).0
    } else {
        slots
    };
    proof {
        if h.len() > TIME_LOG_FRAMES {
            lemma_total_rotation(frames@, h);
        } else {
            assert(frames@ =~= h);
        }
    }
    frames
}

/// The total length of the frames the average is taken over, or `None` if
/// it is longer than the longest duration there is.
pub fn frame_time_total(tc: &TimeContext) -> (t: Option<u128>)
    requires
        tc.wf(),
    ensures
        t == if total_nanos(recent(tc.frame_log(), TIME_LOG_FRAMES as nat)) <= DURATION_MAX_NANOS {
            Some(total_nanos(recent(tc.frame_log(), TIME_LOG_FRAMES as nat)) as u128)
        } else {
            None::<u128>
        },
{
    let frames = recorded_frames(tc);
    let n = frames.len();
    let mut sum: u128 = 0;
    let mut i: usize = 0;
    while i < n
        invariant
            n == frames@.len(),
            i <= n,
            sum == total_nanos(frames@.subrange(0, i as int)),
            sum <= DURATION_MAX_NANOS,
            total_nanos(frames@) == total_nanos(recent(tc.frame_log(), TIME_LOG_FRAMES as nat)),
        decreases n - i,
    {
        proof {
            assert(frames@.subrange(0, i + 1).drop_last() =~= frames@.subrange(0, i as int));
        }
        if frames[i] > DURATION_MAX_NANOS - sum {
            proof {
                let p = frames@.subrange(0, i + 1);
                assert(p.drop_last() =~= frames@.subrange(0, i as int));
                assert(p.last() == frames@[i as int]);
                assert(total_nanos(p) == sum + frames@[i as int]);
                assert(frames@ =~= p + frames@.subrange(i + 1, n as int));
                lemma_total_concat(p, frames@.subrange(i + 1, n as int));
            }
            return None;
        }
        sum = sum + frames[i];
        i = i + 1;
    }
    proof {
        assert(frames@.subrange(0, n as int) =~= frames@);
    }
    Some(sum)
}

/// The average length of a frame over the last 200 frames (over all frames
/// recorded, the initial one included, while there are fewer), rounded down.
/// Their total has to be a duration there is.
pub fn average_delta(tc: &TimeContext) -> (d: u128)
    requires
        tc.wf(),
        total_nanos(recent(tc.frame_log(), TIME_LOG_FRAMES as nat)) <= DURATION_MAX_NANOS,
    ensures
        d == total_nanos(recent(tc.frame_log(), TIME_LOG_FRAMES as nat))
            / recent(tc.frame_log(), TIME_LOG_FRAMES as nat).len(),
{
    let n = recorded_frames(tc).len();
    let sum = frame_time_total(tc).unwrap();
    proof {
        assert((sum as nat) / (n as nat) <= sum) by (nonlinear_arith)
            requires n > 0;
    }
    sum / (n as u128)
}

/// One call of `check_update_time` with step `target_dt`, from `a` to `b`:
/// it is due exactly when at least one step has accumulated, and then
/// consumes one step; the frame log is left alone.
pub open spec fn update_step(a: TimeContext, target_dt: u128, due: bool, b: TimeContext) -> bool {
    &&& b.wf()
    &&& due <==> a.residual() >= target_dt
    &&& b.residual() == if due { (a.residual() - target_dt) as nat } else { a.residual() }
    &&& b.frame_log() == a.frame_log()
    &&& b.frame_count() == a.frame_count()
}

/// How many updates a residual of `r` nanoseconds pays for at `dt` per update.
pub open spec fn updates_due(r: nat, dt: nat) -> nat
    decreases r,
{
    if dt > 0 && r >= dt {
        1 + updates_due((r - dt) as nat, dt)
    } else {
        0
    }
}

/// Returns true, and consumes one update step of `target_dt` nanoseconds, if
/// at least that much time has accumulated since the step before.
///
/// Meant to be called in a loop in `update()`, so that fractional frames
/// carry over into the next frame.
pub fn check_update_time(tc: &mut TimeContext, target_dt: u128) -> (due: bool)
    requires
        old(tc).wf(),
    ensures
        update_step(*old(tc), target_dt, due, *final(tc)),
{
    if tc.residual_update_dt >= target_dt {
        tc.residual_update_dt = tc.residual_update_dt - target_dt;
        true
    } else {
        false
    }
}

/// Calling `check_update_time` in a loop until it returns false runs
/// exactly `updates_due(r, target_dt)` updates for an accumulated time `r`,
/// and carries what is left, less than one step, over to the next frame.
pub proof fn law_update_loop_drains(states: Seq<TimeContext>, results: Seq<bool>, target_dt: u128)
    requires
        target_dt > 0,
        results.len() > 0,
        states.len() == results.len() + 1,
        forall|i: int|
            0 <= i < results.len() ==> update_step(
                #[trigger] states[i],
                target_dt,
                results[i],
                states[i + 1],
            ),
        forall|i: int| 0 <= i < results.len() - 1 ==> #[trigger] results[i],
        !results.last(),
    ensures
        results.len() - 1 == updates_due(states[0].residual(), target_dt as nat),
        states.last().residual() == states[0].residual() - (results.len() - 1) * target_dt,
        states.last().residual() < target_dt,
        states.last().frame_log() == states[0].frame_log(),
    decreases results.len(),
{
    let n = results.len();
    assert(update_step(states[0], target_dt, results[0], states[1]));
    if n > 1 {
        assert(results[0]);
        let s1 = states.drop_first();
        let r1 = results.drop_first();
        assert forall|i: int| 0 <= i < r1.len() implies update_step(
            #[trigger] s1[i],
            target_dt,
            r1[i],
            s1[i + 1],
        ) by {
            assert(update_step(states[i + 1], target_dt, results[i + 1], states[i + 2]));
        }
        assert forall|i: int| 0 <= i < r1.len() - 1 implies #[trigger] r1[i] by {
            assert(results[i + 1]);
        }
        law_update_loop_drains(s1, r1, target_dt);
        assert((n - 2) * target_dt + target_dt == (n - 1) * target_dt) by (nonlinear_arith);
    }
}

/// The fractional amount of a frame not consumed by `check_update_time`.
pub fn remaining_update_time(tc: &TimeContext) -> (r: u128)
    ensures
        r == tc.residual(),
{
    tc.residual_update_dt
}

/// The number of frames recorded by `TimeContext::tick`.
pub fn ticks(tc: &TimeContext) -> (n: usize)
    ensures
        n == tc.frame_count(),
{
    tc.frame_count
}

/// After `n` ticks of a new `TimeContext`, `ticks` is `n` and the frame log
/// holds the initial frame and the `n` recorded ones. `states[0]` is the new
/// context and `states[i + 1]` is `states[i]` after one `tick`.
pub proof fn law_ticks_count_frames(states: Seq<TimeContext>, durations: Seq<u128>)
    requires
        states.len() == durations.len() + 1,
        states[0].frame_count() == 0,
        states[0].frame_log() == seq![INITIAL_FRAME_NANOS],
        forall|i: int|
            0 <= i < durations.len() ==> {
                &&& (#[trigger] states[i + 1]).frame_count() == states[i].frame_count() + 1
                &&& states[i + 1].frame_log() == states[i].frame_log().push(durations[i])
            },
    ensures
        states.last().frame_count() == durations.len(),
        states.last().frame_log() == seq![INITIAL_FRAME_NANOS] + durations,
    decreases durations.len(),
{
    let n = durations.len();
    if n > 0 {
        law_ticks_count_frames(states.drop_last(), durations.drop_last());
        assert(states.drop_last().last() == states[n - 1]);
        assert(states[n as int] == states.last());
        assert(seq![INITIAL_FRAME_NANOS] + durations =~= (seq![INITIAL_FRAME_NANOS]
            + durations.drop_last()).push(durations[n - 1]));
    } else {
        assert(seq![INITIAL_FRAME_NANOS] + durations =~= seq![INITIAL_FRAME_NANOS]);
    }
}

} // verus!
