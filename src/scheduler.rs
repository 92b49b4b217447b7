use vstd::prelude::*;

verus! {

/// The longest tick handed to the physics step, in microseconds.
pub const TICK_CAP_MICROS: u64 = 66_666;

/// The tick lengths that cover `elapsed` microseconds: full ticks of `cap`,
/// then one shorter tick for the remainder, if any.
pub open spec fn tick_plan(elapsed: int, cap: int) -> Seq<u64>
    decreases elapsed,
{
    if elapsed <= 0 || cap <= 0 {
        Seq::empty()
    } else if elapsed <= cap {
        seq![elapsed as u64]
    } else {
        seq![cap as u64] + tick_plan(elapsed - cap, cap)
    }
}

/// Sum of a sequence of tick lengths.
pub open spec fn total(s: Seq<u64>) -> int
    decreases s.len(),
{
    if s.len() == 0 {
        0
    } else {
        s[0] + total(s.drop_first())
    }
}

/// Time is conserved: the ticks planned for `elapsed` microseconds under a
/// positive `cap` add up to exactly `elapsed`; every tick is positive and at
/// most `cap`, and every tick but the last is exactly `cap`.
pub proof fn lemma_time_conservation(elapsed: u64, cap: u64)
    requires
        cap > 0,
    ensures
        total(tick_plan(elapsed as int, cap as int)) == elapsed as int,
        forall|i: int|
            0 <= i < tick_plan(elapsed as int, cap as int).len() ==> 0 < #[trigger] tick_plan(
                elapsed as int,
                cap as int,
            )[i] <= cap,
        forall|i: int|
            0 <= i < tick_plan(elapsed as int, cap as int).len() - 1 ==> #[trigger] tick_plan(
                elapsed as int,
                cap as int,
            )[i] == cap,
    decreases elapsed,
{
    let s = tick_plan(elapsed as int, cap as int);
    if elapsed == 0 {
    } else if elapsed <= cap {
        assert(s.drop_first() =~= Seq::<u64>::empty());
        assert(total(s) == s[0] + total(s.drop_first()));
    } else {
        let rest = tick_plan(elapsed - cap, cap as int);
        lemma_time_conservation((elapsed - cap) as u64, cap);
        assert(s.drop_first() =~= rest);
        assert(total(s) == s[0] + total(rest));
        assert forall|i: int| 0 <= i < s.len() implies 0 < #[trigger] s[i] <= cap by {
            if i > 0 {
                assert(s[i] == rest[i - 1]);
            }
        }
        assert forall|i: int| 0 <= i < s.len() - 1 implies #[trigger] s[i] == cap by {
            if i > 0 {
                assert(s[i] == rest[i - 1]);
            }
        }
    }
}

/// Splits `elapsed` microseconds into ticks of at most `cap` microseconds.
pub fn tick_lengths(elapsed: u64, cap: u64) -> (r: Vec<u64>)
    requires
        cap > 0,
    ensures
        r@ == tick_plan(elapsed as int, cap as int),
{
    let mut r: Vec<u64> = Vec::new();
    let mut acc: u64 = elapsed;
    while acc > 0
        invariant
            cap > 0,
            r@ + tick_plan(acc as int, cap as int) == tick_plan(elapsed as int, cap as int),
        decreases acc,
    {
        let step: u64 = if acc < cap {
            acc
        } else {
            cap
        };
        proof {
            let old_r = r@;
            let rest = tick_plan(acc - step, cap as int);
            assert(tick_plan(acc as int, cap as int) =~= seq![step] + rest);
            assert(old_r.push(step) + rest =~= old_r + (seq![step] + rest));
        }
        r.push(step);
        acc = acc - step;
    }
    assert(r@ + tick_plan(0, cap as int) =~= r@);
    r
}

/// Turns wall-clock progress into simulation ticks: each call covers the
/// time since the previous one and never loses or invents time.
pub struct FixedStepScheduler {
    pub last_update: u64,
    pub cap: u64,
}

impl FixedStepScheduler {
    pub open spec fn wf(&self) -> bool {
        self.cap > 0
    }

    /// A scheduler whose clock reading starts at `now`.
    pub fn new(now: u64, cap: u64) -> (r: FixedStepScheduler)
        requires
            cap > 0,
        ensures
            r.wf(),
            r.last_update == now,
            r.cap == cap,
    {
        FixedStepScheduler { last_update: now, cap }
    }

    /// The ticks that cover the time from the last update to `now`; the
    /// last update then becomes `now`.
    pub fn advance(&mut self, now: u64) -> (r: Vec<u64>)
        requires
            old(self).wf(),
            old(self).last_update <= now,
        ensures
            final(self).wf(),
            final(self).cap == old(self).cap,
            final(self).last_update == now,
            r@ == tick_plan(now - old(self).last_update, old(self).cap as int),
    {
        let r = tick_lengths(now - self.last_update, self.cap);
        self.last_update = now;
        r
    }
}

} // verus!
