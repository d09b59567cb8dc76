//! Ducking: the music is turned down while somebody speaks.
//!
//! The arithmetic on gains and times is the caller's: what is here says when which of it applies.
use vstd::prelude::*;
use crate::samples::FloatBits;

verus! {

/// Ducking configuration (from user preferences).
#[derive(Clone, Copy, PartialEq, Eq, Structural, Debug)]
pub struct DuckConfig {
    pub threshold: FloatBits,
    pub duck_level: FloatBits,
    pub attack_ms: u32,
    pub release_ms: u32,
    pub hold_ms: u32,
}

/// How fast a gain changes: at once where no time is given for it, otherwise as `over` says.
pub fn change_rate<T, F: Fn(u32) -> T>(ms: u32, at_once: T, over: F) -> (r: T)
    requires
        forall|m: u32| m > 0 ==> call_requires(over, (m,)),
    ensures
        ms == 0 ==> r == at_once,
        ms > 0 ==> call_ensures(over, (ms,), r),
{
    if ms > 0 {
        over(ms)
    } else {
        at_once
    }
}

/// The gain of the music, and the time for which it still stays ducked.
#[derive(Debug)]
pub struct DuckState<T> {
    pub gain: T,
    pub hold_remaining: T,
}

/// Whether `after` is what one update makes of `before`. While somebody speaks the hold is set to
/// `hold_time` and `fall` makes the gain; then `elapse` makes the hold as long as `lasts` says so;
/// then `rise` makes the gain.
pub open spec fn ducks<T, P: Fn(T) -> bool, E: Fn(T) -> T, F: Fn(T) -> T, G: Fn(T) -> T>(
    before: DuckState<T>,
    after: DuckState<T>,
    speech: bool,
    hold_time: T,
    lasts: P,
    elapse: E,
    fall: F,
    rise: G,
) -> bool {
    if speech {
        &&& after.hold_remaining == hold_time
        &&& call_ensures(fall, (before.gain,), after.gain)
    } else {
        ||| {
            &&& call_ensures(lasts, (before.hold_remaining,), true)
            &&& call_ensures(elapse, (before.hold_remaining,), after.hold_remaining)
            &&& after.gain == before.gain
        }
        ||| {
            &&& call_ensures(lasts, (before.hold_remaining,), false)
            &&& after.hold_remaining == before.hold_remaining
            &&& call_ensures(rise, (before.gain,), after.gain)
        }
    }
}

impl<T: Copy> DuckState<T> {
    /// Full gain, no hold.
    pub fn new(full: T, none: T) -> (r: Self)
        ensures
            r.gain == full,
            r.hold_remaining == none,
    {
        DuckState { gain: full, hold_remaining: none }
    }

    /// Update ducking state and return the current music gain.
    ///
    /// Speech is an active microphone whose level is `above` the threshold.
    pub fn update<P: Fn(T) -> bool, E: Fn(T) -> T, F: Fn(T) -> T, G: Fn(T) -> T>(
        &mut self,
        mic_active: bool,
        above: bool,
        hold_time: T,
        lasts: P,
        elapse: E,
        fall: F,
        rise: G,
    ) -> (r: T)
        requires
            forall|t: T| call_requires(lasts, (t,)),
            forall|t: T| call_requires(elapse, (t,)),
            forall|t: T| call_requires(fall, (t,)),
            forall|t: T| call_requires(rise, (t,)),
        ensures
            r == final(self).gain,
            ducks(
                *old(self),
                *final(self),
                mic_active && above,
                hold_time,
                lasts,
                elapse,
                fall,
                rise,
            ),
            mic_active && above ==> final(self).hold_remaining == hold_time && call_ensures(
                fall,
                (old(self).gain,),
                final(self).gain,
            ),
            !mic_active || !above ==> final(self).gain == old(self).gain || call_ensures(
                rise,
                (old(self).gain,),
                final(self).gain,
            ),
    {
        if mic_active && above {
            self.hold_remaining = hold_time;
            self.gain = fall(self.gain);
        } else if lasts(self.hold_remaining) {
            self.hold_remaining = elapse(self.hold_remaining);
        } else {
            self.gain = rise(self.gain);
        }
        self.gain
    }
}

/// The gain stays in a range that `fall` and `rise` do not lead out of: where these keep it between
/// the level of the ducked music and the full gain, it stays between them.
pub proof fn gain_keeps_range<T, P: Fn(T) -> bool, E: Fn(T) -> T, F: Fn(T) -> T, G: Fn(T) -> T>(
    before: DuckState<T>,
    after: DuckState<T>,
    speech: bool,
    hold_time: T,
    lasts: P,
    elapse: E,
    fall: F,
    rise: G,
    in_range: spec_fn(T) -> bool,
)
    requires
        ducks(before, after, speech, hold_time, lasts, elapse, fall, rise),
        in_range(before.gain),
        forall|g: T, h: T|
            in_range(g) && #[trigger] call_ensures(fall, (g,), h) ==> in_range(h),
        forall|g: T, h: T|
            in_range(g) && #[trigger] call_ensures(rise, (g,), h) ==> in_range(h),
    ensures
        in_range(after.gain),
{
}

/// The same of all states that updates reach one after the other: the gain never leaves its range.
pub proof fn gain_always_in_range<T, P: Fn(T) -> bool, E: Fn(T) -> T, F: Fn(T) -> T, G: Fn(T) -> T>(
    states: Seq<DuckState<T>>,
    speech: Seq<bool>,
    n: int,
    hold_time: T,
    lasts: P,
    elapse: E,
    fall: F,
    rise: G,
    in_range: spec_fn(T) -> bool,
)
    requires
        0 <= n,
        in_range(states[0].gain),
        forall|i: int|
            0 <= i < n ==> ducks(
                states[i],
                states[i + 1],
                #[trigger] speech[i],
                hold_time,
                lasts,
                elapse,
                fall,
                rise,
            ),
        forall|g: T, h: T|
            in_range(g) && #[trigger] call_ensures(fall, (g,), h) ==> in_range(h),
        forall|g: T, h: T|
            in_range(g) && #[trigger] call_ensures(rise, (g,), h) ==> in_range(h),
    ensures
        in_range(states[n].gain),
    decreases n,
{
    if n > 0 {
        gain_always_in_range(
            states,
            speech,
            n - 1,
            hold_time,
            lasts,
            elapse,
            fall,
            rise,
            in_range,
        );
        assert(ducks(
            states[n - 1],
            states[n],
            speech[n - 1],
            hold_time,
            lasts,
            elapse,
            fall,
            rise,
        ));
        gain_keeps_range(
            states[n - 1],
            states[n],
            speech[n - 1],
            hold_time,
            lasts,
            elapse,
            fall,
            rise,
            in_range,
        );
    }
}

/// The music is lowered only while somebody speaks, and raised only when nobody does and the hold
/// is over, where within the range of the gain `fall` does not raise it and `rise` does not lower it
/// in the order `le`.
pub proof fn gain_moves_with_speech<T, P: Fn(T) -> bool, E: Fn(T) -> T, F: Fn(T) -> T, G: Fn(T) -> T>(
    before: DuckState<T>,
    after: DuckState<T>,
    speech: bool,
    hold_time: T,
    lasts: P,
    elapse: E,
    fall: F,
    rise: G,
    in_range: spec_fn(T) -> bool,
    le: spec_fn(T, T) -> bool,
)
    requires
        ducks(before, after, speech, hold_time, lasts, elapse, fall, rise),
        in_range(before.gain),
        forall|g: T| #[trigger] le(g, g),
        forall|g: T, h: T| in_range(g) && #[trigger] call_ensures(fall, (g,), h) ==> le(h, g),
        forall|g: T, h: T| in_range(g) && #[trigger] call_ensures(rise, (g,), h) ==> le(g, h),
    ensures
        speech ==> le(after.gain, before.gain),
        !speech ==> le(before.gain, after.gain),
        !speech && !call_ensures(lasts, (before.hold_remaining,), false) ==> after.gain
            == before.gain,
{
    assert(le(before.gain, before.gain));
}

/// Speech sets the hold and lowers the gain by `fall`. Without it a hold that lasts gets shorter and
/// keeps the gain, and behind the hold `rise` makes the gain.
pub proof fn ducking_follows_speech<T, P: Fn(T) -> bool, E: Fn(T) -> T, F: Fn(T) -> T, G: Fn(T) -> T>(
    before: DuckState<T>,
    after: DuckState<T>,
    speech: bool,
    hold_time: T,
    lasts: P,
    elapse: E,
    fall: F,
    rise: G,
)
    requires
        ducks(before, after, speech, hold_time, lasts, elapse, fall, rise),
        !(call_ensures(lasts, (before.hold_remaining,), true) && call_ensures(
            lasts,
            (before.hold_remaining,),
            false,
        )),
    ensures
        speech ==> after.hold_remaining == hold_time && call_ensures(
            fall,
            (before.gain,),
            after.gain,
        ),
        !speech && call_ensures(lasts, (before.hold_remaining,), true) ==> after.gain == before.gain
            && call_ensures(elapse, (before.hold_remaining,), after.hold_remaining),
        !speech && call_ensures(lasts, (before.hold_remaining,), false) ==> after.hold_remaining
            == before.hold_remaining && call_ensures(rise, (before.gain,), after.gain),
{
}

/// The music stays as low as the last word left it for as long as the hold lasts.
pub proof fn the_hold_keeps_the_gain<T, P: Fn(T) -> bool, E: Fn(T) -> T, F: Fn(T) -> T, G: Fn(T) -> T>(
    states: Seq<DuckState<T>>,
    n: int,
    hold_time: T,
    lasts: P,
    elapse: E,
    fall: F,
    rise: G,
)
    requires
        0 <= n,
        forall|i: int|
            0 <= i < n ==> ducks(
                #[trigger] states[i],
                states[i + 1],
                false,
                hold_time,
                lasts,
                elapse,
                fall,
                rise,
            ),
        forall|i: int|
            0 <= i < n ==> !call_ensures(lasts, ((#[trigger] states[i]).hold_remaining,), false),
    ensures
        states[n].gain == states[0].gain,
    decreases n,
{
    if n > 0 {
        the_hold_keeps_the_gain(states, n - 1, hold_time, lasts, elapse, fall, rise);
        assert(ducks(
            states[n - 1],
            states[n - 1 + 1],
            false,
            hold_time,
            lasts,
            elapse,
            fall,
            rise,
        ));
        assert(!call_ensures(lasts, (states[n - 1].hold_remaining,), false));
    }
}

} // verus!
