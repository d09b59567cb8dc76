//! The block of music that goes to the encoder: ducked, and with the microphone mixed in.
//!
//! The arithmetic on samples and gains is the caller's: what is here says when which of it applies.
use vstd::prelude::*;
use vstd::arithmetic::div_mod::lemma_fundamental_div_mod_converse;
use crate::duck::DuckState;
use crate::duck::ducks;
use crate::samples::{mix, scale_all};
use crate::samples::{frames_meet_the_microphone, frames_mixed};

verus! {

/// Whether `after` is `before` with `mic` mixed in at a gain: `blend` makes the new sample where a
/// frame of music meets a sample of the microphone, `scale` makes it behind that. A microphone that
/// is not active gives `silence`.
pub open spec fn is_blended<T, B: Fn(T, T, T) -> T, S: Fn(T, T) -> T>(
    before: Seq<T>,
    after: Seq<T>,
    mic: Seq<T>,
    ch: int,
    active: bool,
    silence: T,
    gain: T,
    blend: B,
    scale: S,
) -> bool {
    &&& after.len() == before.len()
    &&& forall|i: int|
        0 <= i < before.len() ==> ({
            let frame = i / ch;
            if frame < frames_mixed(before.len() as int, mic.len() as int, ch) {
                call_ensures(
                    blend,
                    (
                        gain,
                        before[i],
                        if active {
                            mic[frame]
                        } else {
                            silence
                        },
                    ),
                    #[trigger] after[i],
                )
            } else {
                call_ensures(scale, (gain, before[i]), after[i])
            }
        })
}

/// Whether `after` is `before` at a gain.
pub open spec fn is_scaled<T, S: Fn(T, T) -> T>(
    before: Seq<T>,
    after: Seq<T>,
    gain: T,
    scale: S,
) -> bool {
    &&& after.len() == before.len()
    &&& forall|i: int|
        0 <= i < before.len() ==> call_ensures(scale, (gain, before[i]), #[trigger] after[i])
}

/// What has come from the microphone since the last block of music.
#[derive(Debug)]
pub enum MicBlock<'a, T> {
    /// There is no microphone.
    Missing,
    /// Nothing has come.
    Nothing,
    /// Samples have come.
    Samples(&'a [T]),
}

/// Whether one block of music `before` and the ducking `duck` can become `after` and `ducked`.
///
/// Without a microphone nothing changes. Where samples have come from it, speech is an active
/// microphone whose samples are `loud`, and they are mixed in at the new gain. Where nothing has
/// come there is no speech, and the music is made as low as the new gain while that is `reduced`.
pub open spec fn makes_block<
    T,
    L: Fn(&[T]) -> bool,
    P: Fn(T) -> bool,
    E: Fn(T) -> T,
    F: Fn(T) -> T,
    G: Fn(T) -> T,
    Q: Fn(T) -> bool,
    B: Fn(T, T, T) -> T,
    S: Fn(T, T) -> T,
>(
    duck: DuckState<T>,
    ducked: DuckState<T>,
    before: Seq<T>,
    after: Seq<T>,
    mic: MicBlock<'_, T>,
    mic_active: bool,
    ch: int,
    silence: T,
    hold_time: T,
    loud: L,
    lasts: P,
    elapse: E,
    fall: F,
    rise: G,
    reduced: Q,
    blend: B,
    scale: S,
) -> bool {
    match mic {
        MicBlock::Missing => ducked == duck && after == before,
        MicBlock::Nothing => {
            &&& ducks(duck, ducked, false, hold_time, lasts, elapse, fall, rise)
            &&& {
                ||| call_ensures(reduced, (ducked.gain,), true) && is_scaled(
                    before,
                    after,
                    ducked.gain,
                    scale,
                )
                ||| call_ensures(reduced, (ducked.gain,), false) && after == before
            }
        },
        MicBlock::Samples(samples) => exists|is_loud: bool|
            {
                &&& #[trigger] call_ensures(loud, (samples,), is_loud)
                &&& ducks(
                    duck,
                    ducked,
                    mic_active && is_loud,
                    hold_time,
                    lasts,
                    elapse,
                    fall,
                    rise,
                )
                &&& is_blended(
                    before,
                    after,
                    samples@,
                    ch,
                    mic_active,
                    silence,
                    ducked.gain,
                    blend,
                    scale,
                )
            },
    }
}

/// Makes a block of music ready for the encoder and moves the ducking on.
pub fn mix_block<
    T: Copy,
    L: Fn(&[T]) -> bool,
    P: Fn(T) -> bool,
    E: Fn(T) -> T,
    F: Fn(T) -> T,
    G: Fn(T) -> T,
    Q: Fn(T) -> bool,
    B: Fn(T, T, T) -> T + Copy,
    S: Fn(T, T) -> T + Copy,
>(
    duck: &mut DuckState<T>,
    music: &mut Vec<T>,
    mic: MicBlock<'_, T>,
    mic_active: bool,
    channels: u16,
    silence: T,
    hold_time: T,
    loud: L,
    lasts: P,
    elapse: E,
    fall: F,
    rise: G,
    reduced: Q,
    blend: B,
    scale: S,
)
    requires
        mic is Samples ==> channels > 0,
        forall|s: &[T]| call_requires(loud, (s,)),
        forall|t: T| call_requires(lasts, (t,)),
        forall|t: T| call_requires(elapse, (t,)),
        forall|t: T| call_requires(fall, (t,)),
        forall|t: T| call_requires(rise, (t,)),
        forall|t: T| call_requires(reduced, (t,)),
        forall|g: T, m: T, v: T| call_requires(blend, (g, m, v)),
        forall|g: T, m: T| call_requires(scale, (g, m)),
    ensures
        makes_block(
            *old(duck),
            *final(duck),
            old(music)@,
            final(music)@,
            mic,
            mic_active,
            channels as int,
            silence,
            hold_time,
            loud,
            lasts,
            elapse,
            fall,
            rise,
            reduced,
            blend,
            scale,
        ),
        final(music)@.len() == old(music)@.len(),
        mic matches MicBlock::Samples(samples) ==> forall|i: int|
            0 <= i < old(music)@.len() && (i / channels as int) < samples@.len() && (i
                / channels as int) < (old(music)@.len() as int / channels as int) ==> call_ensures(
                blend,
                (
                    final(duck).gain,
                    old(music)@[i],
                    (if mic_active {
                        samples@[i / channels as int]
                    } else {
                        silence
                    }),
                ),
                #[trigger] final(music)@[i],
            ),
{
    match mic {
        MicBlock::Missing => {},
        MicBlock::Nothing => {
            let gain = duck.update(false, false, hold_time, lasts, elapse, fall, rise);
            if reduced(gain) {
                let soften = |m: T| -> (r: T)
                    ensures
                        call_ensures(scale, (gain, m), r),
                {
                    scale(gain, m)
                };
                scale_all(music, soften);
            }
        },
        MicBlock::Samples(samples) => {
            let is_loud = loud(samples);
            let gain = duck.update(mic_active, is_loud, hold_time, lasts, elapse, fall, rise);
            let meet = |m: T, v: T| -> (r: T)
                ensures
                    call_ensures(blend, (gain, m, v), r),
            {
                blend(gain, m, v)
            };
            let soften = |m: T| -> (r: T)
                ensures
                    call_ensures(scale, (gain, m), r),
            {
                scale(gain, m)
            };
            mix(music, samples, channels, mic_active, silence, meet, soften);
        },
    }
}

// A microphone that is closed.

/// Whether a function has one result at most for each argument.
pub open spec fn one_result<T, R, F: Fn(T) -> R>(f: F) -> bool {
    forall|t: T, a: R, b: R| call_ensures(f, (t,), a) && call_ensures(f, (t,), b) ==> a == b
}

/// Whether two blocks of the microphone differ at most in the values of their samples.
pub open spec fn same_shape<T>(a: MicBlock<'_, T>, b: MicBlock<'_, T>) -> bool {
    match (a, b) {
        (MicBlock::Missing, MicBlock::Missing) => true,
        (MicBlock::Nothing, MicBlock::Nothing) => true,
        (MicBlock::Samples(s), MicBlock::Samples(t)) => s@.len() == t@.len(),
        _ => false,
    }
}

/// A closed microphone is not heard and does not duck: for arithmetic with one result, the music
/// and the ducking that come out do not depend on the values of its samples.
pub proof fn closed_mic_is_not_heard<
    T,
    L: Fn(&[T]) -> bool,
    P: Fn(T) -> bool,
    E: Fn(T) -> T,
    F: Fn(T) -> T,
    G: Fn(T) -> T,
    Q: Fn(T) -> bool,
    B: Fn(T, T, T) -> T,
    S: Fn(T, T) -> T,
>(
    duck: DuckState<T>,
    first_duck: DuckState<T>,
    second_duck: DuckState<T>,
    music: Seq<T>,
    first: Seq<T>,
    second: Seq<T>,
    first_mic: MicBlock<'_, T>,
    second_mic: MicBlock<'_, T>,
    ch: int,
    silence: T,
    hold_time: T,
    loud: L,
    lasts: P,
    elapse: E,
    fall: F,
    rise: G,
    reduced: Q,
    blend: B,
    scale: S,
)
    requires
        makes_block(
            duck, first_duck, music, first, first_mic, false, ch, silence,
            hold_time, loud, lasts, elapse, fall, rise, reduced, blend, scale,
        ),
        makes_block(
            duck, second_duck, music, second, second_mic, false, ch, silence,
            hold_time, loud, lasts, elapse, fall, rise, reduced, blend, scale,
        ),
        same_shape(first_mic, second_mic),
        one_result(lasts),
        one_result(elapse),
        one_result(rise),
        one_result(reduced),
        forall|g: T, m: T, v: T, a: T, b: T|
            call_ensures(blend, (g, m, v), a) && call_ensures(blend, (g, m, v), b) ==> a == b,
        forall|g: T, m: T, a: T, b: T|
            call_ensures(scale, (g, m), a) && call_ensures(scale, (g, m), b) ==> a == b,
    ensures
        first_duck == second_duck,
        first == second,
{
    assert(first_duck == second_duck);
    match (first_mic, second_mic) {
        (MicBlock::Samples(s), MicBlock::Samples(t)) => {
            assert forall|i: int| 0 <= i < music.len() implies #[trigger] first[i]
                == second[i] by {}
            assert(first =~= second);
        },
        (MicBlock::Nothing, MicBlock::Nothing) => {
            assert(first =~= second);
        },
        _ => {},
    }
}

/// A stream whose microphone stays closed sounds the same whatever the microphone hears: two runs
/// over the same music with microphone blocks of the same shape put out the same blocks.
pub proof fn closed_mic_is_never_heard<
    T,
    L: Fn(&[T]) -> bool,
    P: Fn(T) -> bool,
    E: Fn(T) -> T,
    F: Fn(T) -> T,
    G: Fn(T) -> T,
    Q: Fn(T) -> bool,
    B: Fn(T, T, T) -> T,
    S: Fn(T, T) -> T,
>(
    first_ducks: Seq<DuckState<T>>,
    second_ducks: Seq<DuckState<T>>,
    music: Seq<Seq<T>>,
    first: Seq<Seq<T>>,
    second: Seq<Seq<T>>,
    first_mics: Seq<MicBlock<'_, T>>,
    second_mics: Seq<MicBlock<'_, T>>,
    n: int,
    ch: int,
    silence: T,
    hold_time: T,
    loud: L,
    lasts: P,
    elapse: E,
    fall: F,
    rise: G,
    reduced: Q,
    blend: B,
    scale: S,
)
    requires
        0 <= n,
        first_ducks[0] == second_ducks[0],
        forall|i: int|
            0 <= i < n ==> makes_block(
                first_ducks[i], first_ducks[i + 1], #[trigger] music[i], first[i], first_mics[i],
                false, ch, silence, hold_time, loud, lasts, elapse, fall, rise, reduced, blend, scale,
            ),
        forall|i: int|
            0 <= i < n ==> makes_block(
                second_ducks[i], second_ducks[i + 1], #[trigger] music[i], second[i],
                second_mics[i], false, ch, silence, hold_time, loud, lasts, elapse, fall, rise, reduced, blend, scale,
            ),
        forall|i: int| 0 <= i < n ==> same_shape(#[trigger] first_mics[i], second_mics[i]),
        one_result(lasts),
        one_result(elapse),
        one_result(rise),
        one_result(reduced),
        forall|g: T, m: T, v: T, a: T, b: T|
            call_ensures(blend, (g, m, v), a) && call_ensures(blend, (g, m, v), b) ==> a == b,
        forall|g: T, m: T, a: T, b: T|
            call_ensures(scale, (g, m), a) && call_ensures(scale, (g, m), b) ==> a == b,
    ensures
        first_ducks[n] == second_ducks[n],
        forall|i: int| 0 <= i < n ==> #[trigger] first[i] == second[i],
    decreases n,
{
    if n > 0 {
        closed_mic_is_never_heard(
            first_ducks, second_ducks, music, first, second, first_mics, second_mics, n - 1, ch,
            silence, hold_time, loud, lasts, elapse, fall, rise, reduced, blend, scale,
        );
        let k = n - 1;
        assert(music[k] == music[k]);
        assert(same_shape(first_mics[k], second_mics[k]));
        closed_mic_is_not_heard(
            first_ducks[k], first_ducks[k + 1], second_ducks[k + 1], music[k], first[k], second[k],
            first_mics[k], second_mics[k], ch, silence, hold_time, loud, lasts, elapse, fall, rise, reduced, blend, scale,
        );
    }
}

/// With a closed microphone music at full gain goes on as it came, as without a microphone: where
/// `rise` keeps the full gain, which is not `reduced`, and a sample at full gain with silence added
/// is the sample.
pub proof fn closed_mic_keeps_music<
    T,
    L: Fn(&[T]) -> bool,
    P: Fn(T) -> bool,
    E: Fn(T) -> T,
    F: Fn(T) -> T,
    G: Fn(T) -> T,
    Q: Fn(T) -> bool,
    B: Fn(T, T, T) -> T,
    S: Fn(T, T) -> T,
>(
    duck: DuckState<T>,
    ducked: DuckState<T>,
    before: Seq<T>,
    after: Seq<T>,
    mic: MicBlock<'_, T>,
    ch: int,
    silence: T,
    full: T,
    hold_time: T,
    loud: L,
    lasts: P,
    elapse: E,
    fall: F,
    rise: G,
    reduced: Q,
    blend: B,
    scale: S,
)
    requires
        makes_block(
            duck, ducked, before, after, mic, false, ch, silence,
            hold_time, loud, lasts, elapse, fall, rise, reduced, blend, scale,
        ),
        duck.gain == full,
        forall|h: T| #[trigger] call_ensures(rise, (full,), h) ==> h == full,
        !call_ensures(reduced, (full,), true),
        forall|m: T, r: T| #[trigger] call_ensures(blend, (full, m, silence), r) ==> r == m,
        forall|m: T, r: T| #[trigger] call_ensures(scale, (full, m), r) ==> r == m,
    ensures
        ducked.gain == full,
        after == before,
{
    assert(ducked.gain == full);
    if let MicBlock::Samples(s) = mic {
        assert forall|i: int| 0 <= i < before.len() implies #[trigger] after[i] == before[i] by {}
        assert(after =~= before);
    }
}

/// The same of a whole run: while the microphone stays closed, a stream that begins at full gain puts
/// every block out as it came.
pub proof fn closed_mic_always_keeps_music<
    T,
    L: Fn(&[T]) -> bool,
    P: Fn(T) -> bool,
    E: Fn(T) -> T,
    F: Fn(T) -> T,
    G: Fn(T) -> T,
    Q: Fn(T) -> bool,
    B: Fn(T, T, T) -> T,
    S: Fn(T, T) -> T,
>(
    ducks: Seq<DuckState<T>>,
    music: Seq<Seq<T>>,
    out: Seq<Seq<T>>,
    mics: Seq<MicBlock<'_, T>>,
    n: int,
    ch: int,
    silence: T,
    full: T,
    hold_time: T,
    loud: L,
    lasts: P,
    elapse: E,
    fall: F,
    rise: G,
    reduced: Q,
    blend: B,
    scale: S,
)
    requires
        0 <= n,
        ducks[0].gain == full,
        forall|i: int|
            0 <= i < n ==> makes_block(
                ducks[i], ducks[i + 1], #[trigger] music[i], out[i], mics[i], false, ch, silence,
                hold_time, loud, lasts, elapse, fall, rise, reduced, blend, scale,
            ),
        forall|h: T| #[trigger] call_ensures(rise, (full,), h) ==> h == full,
        !call_ensures(reduced, (full,), true),
        forall|m: T, r: T| #[trigger] call_ensures(blend, (full, m, silence), r) ==> r == m,
        forall|m: T, r: T| #[trigger] call_ensures(scale, (full, m), r) ==> r == m,
    ensures
        ducks[n].gain == full,
        forall|i: int| 0 <= i < n ==> #[trigger] out[i] == music[i],
    decreases n,
{
    if n > 0 {
        let k = n - 1;
        closed_mic_always_keeps_music(
            ducks, music, out, mics, k, ch, silence, full, hold_time, loud, lasts, elapse, fall, rise, reduced, blend, scale,
        );
        assert(music[k] == music[k]);
        closed_mic_keeps_music(
            ducks[k], ducks[k + 1], music[k], out[k], mics[k], ch, silence, full,
            hold_time, loud, lasts, elapse, fall, rise, reduced, blend, scale,
        );
    }
}

// A microphone that is open.

/// An open microphone is heard however quiet it is: each sample of a frame of music that meets a
/// sample of the microphone is blended with it at the gain of the block. A closed one gives silence.
pub proof fn open_mic_is_heard<
    T,
    L: Fn(&[T]) -> bool,
    P: Fn(T) -> bool,
    E: Fn(T) -> T,
    F: Fn(T) -> T,
    G: Fn(T) -> T,
    Q: Fn(T) -> bool,
    B: Fn(T, T, T) -> T,
    S: Fn(T, T) -> T,
>(
    duck: DuckState<T>,
    ducked: DuckState<T>,
    before: Seq<T>,
    after: Seq<T>,
    samples: &[T],
    mic_active: bool,
    ch: int,
    frame: int,
    c: int,
    silence: T,
    hold_time: T,
    loud: L,
    lasts: P,
    elapse: E,
    fall: F,
    rise: G,
    reduced: Q,
    blend: B,
    scale: S,
)
    requires
        makes_block(
            duck, ducked, before, after, MicBlock::Samples(samples), mic_active, ch, silence,
            hold_time, loud, lasts, elapse, fall, rise, reduced, blend, scale,
        ),
        0 <= c < ch,
        0 <= frame < samples@.len(),
        (frame + 1) * ch <= before.len(),
    ensures
        0 <= frame * ch + c < before.len(),
        mic_active ==> call_ensures(
            blend,
            (ducked.gain, before[frame * ch + c], samples@[frame]),
            after[frame * ch + c],
        ),
        !mic_active ==> call_ensures(
            blend,
            (ducked.gain, before[frame * ch + c], silence),
            after[frame * ch + c],
        ),
{
    let i = frame * ch + c;
    assert((frame + 1) * ch == frame * ch + ch) by (nonlinear_arith);
    assert(0 <= frame * ch) by (nonlinear_arith)
        requires
            0 <= frame,
            0 < ch,
    ;
    lemma_fundamental_div_mod_converse(i, ch, frame, c);
    frames_meet_the_microphone(before.len() as int, samples@.len() as int, ch, frame);
    assert(after[i] == after[i]);
}

/// Music that meets no sample of the microphone, behind its samples or in a frame that is not whole,
/// is brought to the gain of the block. No sample is added or dropped.
pub proof fn music_beside_the_mic_is_scaled<
    T,
    L: Fn(&[T]) -> bool,
    P: Fn(T) -> bool,
    E: Fn(T) -> T,
    F: Fn(T) -> T,
    G: Fn(T) -> T,
    Q: Fn(T) -> bool,
    B: Fn(T, T, T) -> T,
    S: Fn(T, T) -> T,
>(
    duck: DuckState<T>,
    ducked: DuckState<T>,
    before: Seq<T>,
    after: Seq<T>,
    samples: &[T],
    mic_active: bool,
    ch: int,
    frame: int,
    c: int,
    silence: T,
    hold_time: T,
    loud: L,
    lasts: P,
    elapse: E,
    fall: F,
    rise: G,
    reduced: Q,
    blend: B,
    scale: S,
)
    requires
        makes_block(
            duck, ducked, before, after, MicBlock::Samples(samples), mic_active, ch, silence,
            hold_time, loud, lasts, elapse, fall, rise, reduced, blend, scale,
        ),
        0 <= c < ch,
        0 <= frame,
        frame * ch + c < before.len(),
        frame >= samples@.len() || (frame + 1) * ch > before.len(),
    ensures
        after.len() == before.len(),
        call_ensures(scale, (ducked.gain, before[frame * ch + c]), after[frame * ch + c]),
{
    let i = frame * ch + c;
    assert(0 <= frame * ch) by (nonlinear_arith)
        requires
            0 <= frame,
            0 < ch,
    ;
    lemma_fundamental_div_mod_converse(i, ch, frame, c);
    frames_meet_the_microphone(before.len() as int, samples@.len() as int, ch, frame);
    assert(after[i] == after[i]);
}

/// How loud the microphone is decides about the ducking alone: two notions of loudness that leave
/// the same gain put out the same block, for arithmetic with one result.
pub proof fn loudness_only_ducks<
    T,
    L: Fn(&[T]) -> bool,
    M: Fn(&[T]) -> bool,
    P: Fn(T) -> bool,
    E: Fn(T) -> T,
    F: Fn(T) -> T,
    G: Fn(T) -> T,
    Q: Fn(T) -> bool,
    B: Fn(T, T, T) -> T,
    S: Fn(T, T) -> T,
>(
    duck: DuckState<T>,
    first_duck: DuckState<T>,
    second_duck: DuckState<T>,
    music: Seq<T>,
    first: Seq<T>,
    second: Seq<T>,
    samples: &[T],
    mic_active: bool,
    ch: int,
    silence: T,
    hold_time: T,
    loud: L,
    other_loud: M,
    lasts: P,
    elapse: E,
    fall: F,
    rise: G,
    reduced: Q,
    blend: B,
    scale: S,
)
    requires
        makes_block(
            duck, first_duck, music, first, MicBlock::Samples(samples), mic_active, ch, silence,
            hold_time, loud, lasts, elapse, fall, rise, reduced, blend, scale,
        ),
        makes_block(
            duck, second_duck, music, second, MicBlock::Samples(samples), mic_active, ch, silence,
            hold_time, other_loud, lasts, elapse, fall, rise, reduced, blend, scale,
        ),
        first_duck.gain == second_duck.gain,
        forall|g: T, m: T, v: T, a: T, b: T|
            call_ensures(blend, (g, m, v), a) && call_ensures(blend, (g, m, v), b) ==> a == b,
        forall|g: T, m: T, a: T, b: T|
            call_ensures(scale, (g, m), a) && call_ensures(scale, (g, m), b) ==> a == b,
    ensures
        first == second,
{
    assert forall|i: int| 0 <= i < music.len() implies #[trigger] first[i] == second[i] by {}
    assert(first =~= second);
}

/// The music is ducked exactly by speech: an open microphone whose samples are loud. Then the hold
/// begins anew and `fall` makes the gain. A closed or a quiet microphone never lowers it so: the gain
/// stays, or `rise` makes it.
pub proof fn only_speech_ducks<
    T,
    L: Fn(&[T]) -> bool,
    P: Fn(T) -> bool,
    E: Fn(T) -> T,
    F: Fn(T) -> T,
    G: Fn(T) -> T,
    Q: Fn(T) -> bool,
    B: Fn(T, T, T) -> T,
    S: Fn(T, T) -> T,
>(
    duck: DuckState<T>,
    ducked: DuckState<T>,
    before: Seq<T>,
    after: Seq<T>,
    samples: &[T],
    mic_active: bool,
    ch: int,
    silence: T,
    hold_time: T,
    loud: L,
    lasts: P,
    elapse: E,
    fall: F,
    rise: G,
    reduced: Q,
    blend: B,
    scale: S,
)
    requires
        makes_block(
            duck, ducked, before, after, MicBlock::Samples(samples), mic_active, ch, silence,
            hold_time, loud, lasts, elapse, fall, rise, reduced, blend, scale,
        ),
        !(call_ensures(loud, (samples,), true) && call_ensures(loud, (samples,), false)),
    ensures
        mic_active && call_ensures(loud, (samples,), true) ==> ducked.hold_remaining == hold_time
            && call_ensures(fall, (duck.gain,), ducked.gain),
        !mic_active || call_ensures(loud, (samples,), false) ==> ducked.gain == duck.gain
            || call_ensures(rise, (duck.gain,), ducked.gain),
{
}

/// Where nothing has come from the microphone there is no speech: the gain stays or `rise` makes it,
/// and the music follows it exactly while it is reduced. Without a microphone nothing changes.
pub proof fn a_silent_mic_lets_the_music_return<
    T,
    L: Fn(&[T]) -> bool,
    P: Fn(T) -> bool,
    E: Fn(T) -> T,
    F: Fn(T) -> T,
    G: Fn(T) -> T,
    Q: Fn(T) -> bool,
    B: Fn(T, T, T) -> T,
    S: Fn(T, T) -> T,
>(
    duck: DuckState<T>,
    ducked: DuckState<T>,
    before: Seq<T>,
    after: Seq<T>,
    mic: MicBlock<'_, T>,
    mic_active: bool,
    ch: int,
    silence: T,
    hold_time: T,
    loud: L,
    lasts: P,
    elapse: E,
    fall: F,
    rise: G,
    reduced: Q,
    blend: B,
    scale: S,
)
    requires
        makes_block(
            duck, ducked, before, after, mic, mic_active, ch, silence,
            hold_time, loud, lasts, elapse, fall, rise, reduced, blend, scale,
        ),
        !(mic is Samples),
        one_result(reduced),
    ensures
        after.len() == before.len(),
        mic is Missing ==> ducked == duck && after == before,
        mic is Nothing ==> {
            &&& ducked.gain == duck.gain || call_ensures(rise, (duck.gain,), ducked.gain)
            &&& call_ensures(reduced, (ducked.gain,), false) ==> after == before
            &&& call_ensures(reduced, (ducked.gain,), true) ==> forall|i: int|
                0 <= i < before.len() ==> call_ensures(
                    scale,
                    (ducked.gain, before[i]),
                    #[trigger] after[i],
                )
        },
{
}

} // verus!
