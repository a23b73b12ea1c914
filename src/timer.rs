use vstd::prelude::*;

verus! {

/// Nanoseconds in one second.
pub const NANOS_PER_SEC: u64 = 1000000000;

/// Length of one round, in seconds.
pub const ROUND_SECS: u64 = 120;

/// Length of one round, in nanoseconds.
pub const ROUND_NANOS: u64 = 120000000000;

/// Time left after a frame of `delta` when `remaining` was left before it; never below zero.
pub open spec fn after_tick(remaining: nat, delta: nat) -> nat {
    if delta >= remaining {
        0
    } else {
        (remaining - delta) as nat
    }
}

/// The countdown of one round, in nanoseconds.
#[derive(Clone, Copy, Debug, PartialEq, Eq, Structural)]
pub struct RoundTimer {
    pub remaining: u64,
}

impl RoundTimer {
    /// A countdown of a full round.
    pub fn new() -> (t: RoundTimer)
        ensures
            t.remaining == ROUND_NANOS,
    {
        RoundTimer { remaining: ROUND_NANOS }
    }

    /// Advances the countdown by one frame that lasted `delta` nanoseconds, stopping at zero.
    /// Returns whether the countdown has run out.
    pub fn tick(&mut self, delta: u64) -> (finished: bool)
        ensures
            final(self).remaining == after_tick(old(self).remaining as nat, delta as nat),
            finished == (final(self).remaining == 0),
    {
        if delta >= self.remaining {
            self.remaining = 0;
        } else {
            self.remaining = self.remaining - delta;
        }
        self.remaining == 0
    }

    /// Whether the countdown has run out.
    pub fn finished(&self) -> (r: bool)
        ensures
            r == (self.remaining == 0),
    {
        self.remaining == 0
    }
}

/// A frame that lasts any time at all takes time off a countdown that has not run out.
pub proof fn lemma_tick_decreases(remaining: nat, delta: nat)
    requires
        remaining > 0,
        delta > 0,
    ensures
        after_tick(remaining, delta) < remaining,
{
}

/// Total length of a run of frames.
pub open spec fn total(deltas: Seq<nat>) -> nat
    decreases deltas.len(),
{
    if deltas.len() == 0 {
        0
    } else {
        deltas[0] + total(deltas.drop_first())
    }
}

/// Number of frames in the run at which the countdown goes from time left to none.
pub open spec fn expiries(remaining: nat, deltas: Seq<nat>) -> nat
    decreases deltas.len(),
{
    if deltas.len() == 0 {
        0
    } else {
        let next = after_tick(remaining, deltas[0]);
        (if remaining > 0 && next == 0 {
            1nat
        } else {
            0nat
        }) + expiries(next, deltas.drop_first())
    }
}

/// Over any run of frames, a countdown that has time left runs out exactly once when the frames
/// last at least that long, and never otherwise.
pub proof fn lemma_expires_once(remaining: nat, deltas: Seq<nat>)
    ensures
        expiries(remaining, deltas) == (if remaining > 0 && total(deltas) >= remaining {
            1nat
        } else {
            0nat
        }),
    decreases deltas.len(),
{
    if deltas.len() > 0 {
        lemma_expires_once(after_tick(remaining, deltas[0]), deltas.drop_first());
    }
}

/// The digits, in order of their values.
pub open spec fn digits() -> Seq<char> {
    seq!['0', '1', '2', '3', '4', '5', '6', '7', '8', '9']
}

/// Decimal notation of `n`, without leading zeros.
pub open spec fn decimal(n: nat) -> Seq<char>
    decreases n,
{
    if n < 10 {
        seq![digits()[n as int]]
    } else {
        decimal(n / 10) + seq![digits()[(n % 10) as int]]
    }
}

/// A number of seconds as `M:SS`: whole minutes, then the seconds left over on two digits.
pub open spec fn clock_text(secs: nat) -> Seq<char> {
    decimal(secs / 60) + seq![':', digits()[((secs % 60) / 10) as int], digits()[(secs % 10) as int]]
}

fn push_digit(s: &mut String, d: u64)
    requires
        d < 10,
    ensures
        final(s)@ == old(s)@ + seq![digits()[d as int]],
{
    let all = "0123456789";
    proof {
        reveal_strlit("0123456789");
    }
    let one = all.substring_char(d as usize, d as usize + 1);
    assert(one@ =~= seq![digits()[d as int]]);
    s.append(one);
}

fn push_decimal(s: &mut String, n: u64)
    ensures
        final(s)@ == old(s)@ + decimal(n as nat),
    decreases n,
{
    if n >= 10 {
        push_decimal(s, n / 10);
    }
    push_digit(s, n % 10);
    assert(final(s)@ =~= old(s)@ + decimal(n as nat));
}

/// Time left, `nanos` nanoseconds rounded down to whole seconds, written as `M:SS`.
pub fn format_duration(nanos: u64) -> (r: String)
    ensures
        r@ == clock_text((nanos / NANOS_PER_SEC) as nat),
{
    let secs = nanos / NANOS_PER_SEC;
    let mut s = String::new();
    push_decimal(&mut s, secs / 60);
    s.append(":");
    proof {
        reveal_strlit(":");
    }
    push_digit(&mut s, (secs % 60) / 10);
    push_digit(&mut s, secs % 10);
    assert(s@ =~= clock_text(secs as nat));
    s
}

} // verus!
