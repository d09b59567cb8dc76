//! Interleaved samples: reading, splitting, measuring and mixing.
//!
//! The arithmetic on samples is the caller's: what is here says which samples meet which.
use vstd::prelude::*;
use vstd::arithmetic::div_mod::{lemma_fundamental_div_mod, lemma_fundamental_div_mod_converse};
use crate::bytes::{le_word, read_le_word};

verus! {

/// The bits of an IEEE 754 number of single precision.
#[derive(Clone, Copy, PartialEq, Eq, Structural, Debug)]
pub struct FloatBits(pub u32);

/// Reads samples from bytes: four each, the least significant first. Bytes behind the last whole
/// sample are dropped.
pub fn bytes_to_samples(bytes: &[u8]) -> (r: Vec<FloatBits>)
    ensures
        r@.len() == bytes@.len() / 4,
        forall|i: int|
            0 <= i < r@.len() ==> (#[trigger] r@[i]).0 == le_word(
                bytes@[4 * i],
                bytes@[4 * i + 1],
                bytes@[4 * i + 2],
                bytes@[4 * i + 3],
            ),
{
    let len = bytes.len();
    let n = len / 4;
    let mut out: Vec<FloatBits> = Vec::new();
    for i in 0..n
        invariant
            len == bytes@.len(),
            n == len / 4,
            out@.len() == i,
            forall|j: int|
                0 <= j < i ==> (#[trigger] out@[j]).0 == le_word(
                    bytes@[4 * j],
                    bytes@[4 * j + 1],
                    bytes@[4 * j + 2],
                    bytes@[4 * j + 3],
                ),
    {
        let at: usize = 4 * i;
        let word = read_le_word(bytes[at], bytes[at + 1], bytes[at + 2], bytes[at + 3]);
        out.push(FloatBits(word));
    }
    out
}

// Frames.

/// How many frames of `ch` samples `len` samples begin.
pub open spec fn frames_begun(len: int, ch: int) -> int {
    (len + ch - 1) / ch
}

/// How many of `len` interleaved samples are of the channel `c`.
pub open spec fn channel_len(len: int, ch: int, c: int) -> int {
    (len + ch - 1 - c) / ch
}

proof fn lemma_split_index(i: int, ch: int, k: int, c: int)
    requires
        0 <= c < ch,
        i == k * ch + c,
    ensures
        i / ch == k,
        i % ch == c,
{
    lemma_fundamental_div_mod_converse(i, ch, k, c);
}

proof fn lemma_channel_len_step(i: int, ch: int, c: int)
    requires
        0 <= c < ch,
        0 <= i,
    ensures
        channel_len(i + 1, ch, c) == channel_len(i, ch, c) + if i % ch == c {
            1int
        } else {
            0
        },
        i % ch == c ==> channel_len(i, ch, c) == i / ch,
{
    let k = i / ch;
    let m = i % ch;
    lemma_fundamental_div_mod(i, ch);
    assert(ch * k == k * ch) by (nonlinear_arith);
    assert((k + 1) * ch == k * ch + ch) by (nonlinear_arith);
    if m == c {
        lemma_fundamental_div_mod_converse(i + ch - 1 - c, ch, k, ch - 1);
        lemma_fundamental_div_mod_converse(i + 1 + ch - 1 - c, ch, k + 1, 0);
    } else if m < c {
        lemma_fundamental_div_mod_converse(i + ch - 1 - c, ch, k, m + ch - 1 - c);
        lemma_fundamental_div_mod_converse(i + ch - c, ch, k, m + ch - c);
    } else {
        lemma_fundamental_div_mod_converse(i + ch - 1 - c, ch, k + 1, m - 1 - c);
        lemma_fundamental_div_mod_converse(i + ch - c, ch, k + 1, m - c);
    }
}

/// Whether `planar` holds, channel by channel, the samples of `interleaved`.
pub open spec fn is_planar<T>(interleaved: Seq<T>, ch: int, planar: Seq<Vec<T>>) -> bool {
    &&& planar.len() == ch
    &&& forall|c: int|
        0 <= c < ch ==> (#[trigger] planar[c])@.len() == channel_len(
            interleaved.len() as int,
            ch,
            c,
        )
    &&& forall|i: int|
        0 <= i < interleaved.len() ==> planar[i % ch]@[i / ch] == #[trigger] interleaved[i]
}

spec fn is_placed<T>(interleaved: Seq<T>, ch: int, planar: Seq<Vec<T>>, j: int) -> bool {
    &&& 0 <= j % ch < ch
    &&& 0 <= j / ch
    &&& (j / ch) < planar[j % ch]@.len()
    &&& planar[j % ch]@[j / ch] == interleaved[j]
}

fn empty_channels<T>(ch: usize) -> (r: Vec<Vec<T>>)
    ensures
        r@.len() == ch,
        forall|c: int| 0 <= c < ch ==> (#[trigger] r@[c])@.len() == 0,
{
    let mut out: Vec<Vec<T>> = Vec::new();
    for k in 0..ch
        invariant
            out@.len() == k,
            forall|c: int| 0 <= c < k ==> (#[trigger] out@[c])@.len() == 0,
    {
        out.push(Vec::new());
    }
    out
}

/// Splits interleaved samples into their channels.
pub fn deinterleave<T: Copy>(interleaved: &[T], channels: u16) -> (r: Vec<Vec<T>>)
    requires
        channels > 0,
    ensures
        is_planar(interleaved@, channels as int, r@),
        r@.len() == channels,
{
    let ch: usize = channels as usize;
    let ghost d = ch as int;
    let n = interleaved.len();
    let mut planar: Vec<Vec<T>> = empty_channels(ch);
    let mut c: usize = 0;
    let mut i: usize = 0;
    proof {
        assert forall|q: int| 0 <= q < d implies (#[trigger] planar@[q])@.len() == channel_len(
            0,
            d,
            q,
        ) by {
            lemma_split_index(d - 1 - q, d, 0, d - 1 - q);
        }
        lemma_split_index(0, d, 0, 0);
    }
    while i < n
        invariant
            0 < ch,
            d == ch,
            n == interleaved@.len(),
            i <= n,
            c < ch,
            c == i as int % d,
            planar@.len() == ch,
            forall|q: int|
                0 <= q < d ==> (#[trigger] planar@[q])@.len() == channel_len(i as int, d, q),
            forall|j: int| 0 <= j < i ==> #[trigger] is_placed(interleaved@, d, planar@, j),
        decreases n - i,
    {
        let ghost before = planar@;
        let sample = interleaved[i];
        planar[c].push(sample);
        proof {
            assert forall|q: int| 0 <= q < d implies (#[trigger] planar@[q])@.len() == channel_len(
                i + 1,
                d,
                q,
            ) by {
                lemma_channel_len_step(i as int, d, q);
            }
            lemma_channel_len_step(i as int, d, c as int);
            assert forall|j: int| 0 <= j < i + 1 implies #[trigger] is_placed(
                interleaved@,
                d,
                planar@,
                j,
            ) by {
                if j < i {
                    assert(is_placed(interleaved@, d, before, j));
                    assert(planar@[j % d]@[j / d] == before[j % d]@[j / d]);
                } else {
                    assert(before[c as int]@.len() == i as int / d);
                    assert(planar@[c as int]@ == before[c as int]@.push(sample));
                }
            }
            let q = i as int / d;
            lemma_fundamental_div_mod(i as int, d);
            assert(d * q == q * d) by (nonlinear_arith);
            assert((q + 1) * d == q * d + d) by (nonlinear_arith);
            assert(0 <= q) by (nonlinear_arith)
                requires
                    q == i as int / d,
                    0 < d,
                    0 <= i,
            ;
            if c + 1 == ch {
                lemma_split_index(i + 1, d, q + 1, 0);
            } else {
                lemma_split_index(i + 1, d, q, c + 1);
            }
        }
        c = if c + 1 == ch {
            0
        } else {
            c + 1
        };
        i = i + 1;
    }
    proof {
        assert forall|j: int| 0 <= j < n implies planar@[j % d]@[j / d]
            == #[trigger] interleaved@[j] by {
            assert(is_placed(interleaved@, d, planar@, j));
        }
    }
    planar
}

/// Interleaving the channels again gives the samples: each stands where it came from.
pub proof fn planar_reads_back<T>(interleaved: Seq<T>, ch: int, planar: Seq<Vec<T>>, k: int, c: int)
    requires
        ch > 0,
        is_planar(interleaved, ch, planar),
        0 <= c < ch,
        0 <= k < planar[c]@.len(),
    ensures
        k * ch + c < interleaved.len(),
        planar[c]@[k] == interleaved[k * ch + c],
{
    let len = interleaved.len() as int;
    let i = k * ch + c;
    lemma_split_index(i, ch, k, c);
    let x = len + ch - 1 - c;
    lemma_fundamental_div_mod(x, ch);
    let q = x / ch;
    assert(ch * q >= ch * (k + 1)) by (nonlinear_arith)
        requires
            q >= k + 1,
            ch > 0,
    ;
    assert(ch * (k + 1) == k * ch + ch) by (nonlinear_arith);
    assert(0 <= k * ch) by (nonlinear_arith)
        requires
            0 <= k,
            0 < ch,
    ;
    assert(planar[i % ch]@[i / ch] == interleaved[i]);
}

// Levels.

/// The samples of the first channel.
pub open spec fn left_samples<T>(samples: Seq<T>, ch: int) -> Seq<T> {
    Seq::new(frames_begun(samples.len() as int, ch) as nat, |k: int| samples[k * ch])
}

/// The samples of the second channel, or of the first where there is no second.
pub open spec fn right_samples<T>(samples: Seq<T>, ch: int) -> Seq<T> {
    Seq::new(
        frames_begun(samples.len() as int, ch) as nat,
        |k: int|
            if ch > 1 {
                samples[k * ch + 1]
            } else {
                samples[k * ch]
            },
    )
}

/// Whether `sums` are the sums on the way from `zero` through the samples with `add`.
pub open spec fn are_sums<A, T, F: Fn(A, T) -> A>(
    add: F,
    zero: A,
    samples: Seq<T>,
    sums: Seq<A>,
) -> bool {
    &&& sums.len() == samples.len() + 1
    &&& sums[0] == zero
    &&& forall|i: int|
        0 <= i < samples.len() ==> call_ensures(add, (sums[i], #[trigger] samples[i]), sums[i + 1])
}

/// Whether adding the samples one by one to `zero` with `add` can give `total`.
pub open spec fn sums_to<A, T, F: Fn(A, T) -> A>(
    add: F,
    zero: A,
    samples: Seq<T>,
    total: A,
) -> bool {
    exists|sums: Seq<A>| #[trigger] are_sums(add, zero, samples, sums) && sums.last() == total
}

proof fn lemma_sums_push<A, T, F: Fn(A, T) -> A>(
    add: F,
    zero: A,
    samples: Seq<T>,
    part: A,
    sample: T,
    total: A,
)
    requires
        sums_to(add, zero, samples, part),
        call_ensures(add, (part, sample), total),
    ensures
        sums_to(add, zero, samples.push(sample), total),
{
    let sums = choose|sums: Seq<A>| #[trigger]
        are_sums(add, zero, samples, sums) && sums.last() == part;
    let all = samples.push(sample);
    let more = sums.push(total);
    assert forall|i: int| 0 <= i < all.len() implies call_ensures(
        add,
        (more[i], #[trigger] all[i]),
        more[i + 1],
    ) by {
        if i < samples.len() {
            assert(all[i] == samples[i]);
        }
    }
    assert(are_sums(add, zero, all, more));
}

proof fn lemma_frames_begun(len: int, ch: int, k: int)
    requires
        0 < ch,
        0 <= k,
    ensures
        k < frames_begun(len, ch) <==> k * ch < len,
        k * ch >= 0,
{
    lemma_fundamental_div_mod(len + ch - 1, ch);
    let q = frames_begun(len, ch);
    assert(0 <= k * ch) by (nonlinear_arith)
        requires
            0 <= k,
            0 < ch,
    ;
    if k < q {
        assert(ch * q >= k * ch + ch) by (nonlinear_arith)
            requires
                q >= k + 1,
                ch > 0,
        ;
    } else {
        assert(ch * q <= k * ch) by (nonlinear_arith)
            requires
                q <= k,
                ch > 0,
        ;
    }
}

/// The levels of the first two channels: the squares of a channel's samples are added up with
/// `add_square`, beginning with `zero`, and `root_mean` makes the level of the sum and of the
/// number of frames. Of one channel both levels are the same; of no samples both are `silence`.
pub fn compute_rms<T: Copy, A: Copy, R: Copy, F: Fn(A, T) -> A, G: Fn(A, u64) -> R>(
    samples: &[T],
    channels: u16,
    silence: R,
    zero: A,
    add_square: F,
    root_mean: G,
) -> (r: (R, R))
    requires
        channels > 1 ==> samples@.len() as int % channels as int != 1,
        forall|a: A, t: T| call_requires(add_square, (a, t)),
        forall|a: A, n: u64| n > 0 ==> call_requires(root_mean, (a, n)),
    ensures
        samples@.len() == 0 || channels == 0 ==> r == (silence, silence),
        samples@.len() > 0 && channels > 0 ==> exists|left: A, right: A|
            #![trigger sums_to(add_square, zero, left_samples(samples@, channels as int), left), sums_to(add_square, zero, right_samples(samples@, channels as int), right)]
            {
                &&& sums_to(add_square, zero, left_samples(samples@, channels as int), left)
                &&& sums_to(add_square, zero, right_samples(samples@, channels as int), right)
                &&& call_ensures(
                    root_mean,
                    (left, frames_begun(samples@.len() as int, channels as int) as u64),
                    r.0,
                )
                &&& call_ensures(
                    root_mean,
                    (right, frames_begun(samples@.len() as int, channels as int) as u64),
                    r.1,
                )
            },
{
    let n = samples.len();
    let ch: usize = channels as usize;
    if n == 0 || ch == 0 {
        return (silence, silence);
    }
    let ghost d = ch as int;
    let ghost lefts = left_samples(samples@, d);
    let ghost rights = right_samples(samples@, d);
    let mut left_sum: A = zero;
    let mut right_sum: A = zero;
    let mut count: u64 = 0;
    let mut at: usize = 0;
    let mut more: bool = true;
    proof {
        assert(lefts.take(0) =~= Seq::<T>::empty());
        assert(rights.take(0) =~= Seq::<T>::empty());
        lemma_frames_begun(n as int, d, 0);
        assert(are_sums(add_square, zero, lefts.take(0), seq![zero]));
        assert(are_sums(add_square, zero, rights.take(0), seq![zero]));
    }
    while more
        invariant
            n == samples@.len(),
            0 < n,
            d == ch,
            0 < ch,
            ch > 1 ==> n as int % d != 1,
            lefts == left_samples(samples@, d),
            rights == right_samples(samples@, d),
            forall|a: A, t: T| call_requires(add_square, (a, t)),
            0 <= count <= frames_begun(n as int, d),
            more ==> at == count * d && at < n,
            !more ==> count == frames_begun(n as int, d) && count > 0,
            more ==> count < n,
            count <= n,
            sums_to(add_square, zero, lefts.take(count as int), left_sum),
            sums_to(add_square, zero, rights.take(count as int), right_sum),
        decreases n - count,
    {
        let left = samples[at];
        proof {
            lemma_frames_begun(n as int, d, count as int);
            if ch > 1 && at + 1 == n {
                lemma_split_index(n as int, d, count as int, 1);
            }
        }
        let right = if ch > 1 {
            samples[at + 1]
        } else {
            left
        };
        let ghost left_part = left_sum;
        let ghost right_part = right_sum;
        left_sum = add_square(left_sum, left);
        right_sum = add_square(right_sum, right);
        proof {
            lemma_sums_push(add_square, zero, lefts.take(count as int), left_part, left, left_sum);
            lemma_sums_push(
                add_square,
                zero,
                rights.take(count as int),
                right_part,
                right,
                right_sum,
            );
            assert(lefts.take(count + 1) =~= lefts.take(count as int).push(left));
            assert(rights.take(count + 1) =~= rights.take(count as int).push(right));
            assert((count + 1) * d == count * d + d) by (nonlinear_arith);
            assert(count + 1 <= (count + 1) * d) by (nonlinear_arith)
                requires
                    0 < d,
            ;
            lemma_frames_begun(n as int, d, count + 1);
        }
        count = count + 1;
        if n - at > ch {
            at = at + ch;
        } else {
            more = false;
        }
    }
    proof {
        assert(lefts.take(count as int) =~= lefts);
        assert(rights.take(count as int) =~= rights);
    }
    (root_mean(left_sum, count), root_mean(right_sum, count))
}

// Mixing.

/// How many frames of music meet a sample of the microphone.
pub open spec fn frames_mixed(music: int, mic: int, ch: int) -> int {
    if music / ch <= mic {
        music / ch
    } else {
        mic
    }
}

/// Mixes samples of the microphone, one for each frame, into interleaved music: `blend` makes the
/// new sample where a frame meets one, `scale` makes it behind that. A microphone that is not
/// active gives `silence`.
pub fn mix<T: Copy, F: Fn(T, T) -> T, G: Fn(T) -> T>(
    music: &mut Vec<T>,
    mic: &[T],
    channels: u16,
    active: bool,
    silence: T,
    blend: F,
    scale: G,
)
    requires
        channels > 0,
        forall|m: T, v: T| call_requires(blend, (m, v)),
        forall|m: T| call_requires(scale, (m,)),
    ensures
        final(music)@.len() == old(music)@.len(),
        forall|i: int|
            0 <= i < old(music)@.len() ==> ({
                let ch = channels as int;
                let frame = i / ch;
                if frame < frames_mixed(old(music)@.len() as int, mic@.len() as int, ch) {
                    call_ensures(
                        blend,
                        (
                            old(music)@[i],
                            if active {
                                mic@[frame]
                            } else {
                                silence
                            },
                        ),
                        #[trigger] final(music)@[i],
                    )
                } else {
                    call_ensures(scale, (old(music)@[i],), final(music)@[i])
                }
            }),
{
    let ch: usize = channels as usize;
    let n = music.len();
    let whole = n / ch;
    let frames: usize = if whole <= mic.len() {
        whole
    } else {
        mic.len()
    };
    let ghost d = ch as int;
    let ghost before = music@;
    let mut frame: usize = 0;
    let mut c: usize = 0;
    let mut i: usize = 0;
    proof {
        lemma_split_index(0, d, 0, 0);
    }
    while i < n
        invariant
            0 < ch,
            d == ch,
            n == before.len(),
            n == music@.len(),
            i <= n,
            c < ch,
            c == i as int % d,
            frame == i as int / d,
            frames == frames_mixed(n as int, mic@.len() as int, d),
            frames <= mic@.len(),
            forall|m: T, v: T| call_requires(blend, (m, v)),
            forall|m: T| call_requires(scale, (m,)),
            forall|j: int| i <= j < n ==> #[trigger] music@[j] == before[j],
            forall|j: int|
                0 <= j < i ==> ({
                    let frame = j / d;
                    if frame < frames {
                        call_ensures(
                            blend,
                            (
                                before[j],
                                if active {
                                    mic@[frame]
                                } else {
                                    silence
                                },
                            ),
                            #[trigger] music@[j],
                        )
                    } else {
                        call_ensures(scale, (before[j],), music@[j])
                    }
                }),
        decreases n - i,
    {
        let sample = music[i];
        let mixed = if frame < frames {
            let voice = if active {
                mic[frame]
            } else {
                silence
            };
            blend(sample, voice)
        } else {
            scale(sample)
        };
        music[i] = mixed;
        proof {
            lemma_fundamental_div_mod(i as int, d);
            assert(d * frame == frame * d) by (nonlinear_arith);
            assert((frame + 1) * d == frame * d + d) by (nonlinear_arith);
            if c + 1 == ch {
                lemma_split_index(i + 1, d, frame + 1, 0);
                assert(frame + 1 <= i + 1) by (nonlinear_arith)
                    requires
                        (frame + 1) * d == i + 1,
                        d >= 1,
                        frame >= 0,
                ;
            } else {
                lemma_split_index(i + 1, d, frame as int, c + 1);
            }
        }
        if c + 1 == ch {
            c = 0;
            frame = frame + 1;
        } else {
            c = c + 1;
        }
        i = i + 1;
    }
}

/// Makes each sample new with `scale`.
pub fn scale_all<T: Copy, G: Fn(T) -> T>(music: &mut Vec<T>, scale: G)
    requires
        forall|m: T| call_requires(scale, (m,)),
    ensures
        final(music)@.len() == old(music)@.len(),
        forall|i: int|
            0 <= i < old(music)@.len() ==> call_ensures(
                scale,
                (old(music)@[i],),
                #[trigger] final(music)@[i],
            ),
{
    let n = music.len();
    let ghost before = music@;
    for i in 0..n
        invariant
            n == before.len(),
            n == music@.len(),
            forall|m: T| call_requires(scale, (m,)),
            forall|j: int| i <= j < n ==> #[trigger] music@[j] == before[j],
            forall|j: int|
                0 <= j < i ==> call_ensures(scale, (before[j],), #[trigger] music@[j]),
    {
        let sample = scale(music[i]);
        music[i] = sample;
    }
}

// What holds of channels and frames.

/// No sample is lost: each is in its channel, behind those of the frames before it.
pub proof fn channels_hold_every_sample<T>(
    interleaved: Seq<T>,
    ch: int,
    planar: Seq<Vec<T>>,
    k: int,
    c: int,
)
    requires
        ch > 0,
        is_planar(interleaved, ch, planar),
        0 <= c < ch,
        0 <= k,
        k * ch + c < interleaved.len(),
    ensures
        k < planar[c]@.len(),
        planar[c]@[k] == interleaved[k * ch + c],
{
    let len = interleaved.len() as int;
    let x = len + ch - 1 - c;
    lemma_fundamental_div_mod(x, ch);
    let q = x / ch;
    if q <= k {
        assert(ch * q <= k * ch) by (nonlinear_arith)
            requires
                q <= k,
                ch > 0,
        ;
    }
    planar_reads_back(interleaved, ch, planar, k, c);
}

/// There are as many frames as samples of the first channel: those whose first sample is there.
pub proof fn frames_begin_with_the_first_channel(len: int, ch: int, k: int)
    requires
        ch > 0,
        0 <= k,
        0 <= len,
    ensures
        k < frames_begun(len, ch) <==> k * ch < len,
        frames_begun(len, ch) == channel_len(len, ch, 0),
{
    lemma_frames_begun(len, ch, k);
}

/// The levels are those of the channels that the samples split into: of the first and the second,
/// or of the only one.
pub proof fn levels_measure_the_first_channels<T>(samples: Seq<T>, ch: int, planar: Seq<Vec<T>>)
    requires
        ch > 0,
        is_planar(samples, ch, planar),
        ch > 1 ==> samples.len() as int % ch != 1,
    ensures
        left_samples(samples, ch) == planar[0]@,
        ch > 1 ==> right_samples(samples, ch) == planar[1]@,
        ch == 1 ==> right_samples(samples, ch) == planar[0]@,
{
    let len = samples.len() as int;
    let lefts = left_samples(samples, ch);
    let rights = right_samples(samples, ch);
    lemma_frames_begun(len, ch, 0);
    let frames = frames_begun(len, ch);
    lemma_fundamental_div_mod(len + ch - 1, ch);
    if frames < 0 {
        assert(ch * frames <= -ch) by (nonlinear_arith)
            requires
                frames <= -1,
                ch > 0,
        ;
    }
    assert forall|k: int| 0 <= k < frames implies #[trigger] lefts[k] == planar[0]@[k] by {
        lemma_frames_begun(len, ch, k);
        channels_hold_every_sample(samples, ch, planar, k, 0);
    }
    assert(lefts =~= planar[0]@);
    if ch > 1 {
        assert(channel_len(len, ch, 1) == frames) by {
            lemma_fundamental_div_mod(len + ch - 2, ch);
            lemma_fundamental_div_mod(len, ch);
            let q = len / ch;
            let m = len % ch;
            assert(ch * q == q * ch) by (nonlinear_arith);
            assert((q + 1) * ch == q * ch + ch) by (nonlinear_arith);
            if m == 0 {
                lemma_fundamental_div_mod_converse(len + ch - 1, ch, q, ch - 1);
                lemma_fundamental_div_mod_converse(len + ch - 2, ch, q, ch - 2);
            } else {
                lemma_fundamental_div_mod_converse(len + ch - 1, ch, q + 1, m - 1);
                lemma_fundamental_div_mod_converse(len + ch - 2, ch, q + 1, m - 2);
            }
        }
        assert(planar[1]@.len() == frames);
        assert forall|k: int| 0 <= k < frames implies #[trigger] rights[k] == planar[1]@[k] by {
            planar_reads_back(samples, ch, planar, k, 1);
        }
        assert(rights =~= planar[1]@);
    } else {
        assert(rights =~= planar[0]@);
    }
}

/// Sums are made one sample after the other, beginning with `zero`.
pub proof fn sums_are_made_one_by_one<A, T, F: Fn(A, T) -> A>(
    add_one: F,
    zero: A,
    samples: Seq<T>,
    sample: T,
    total: A,
)
    ensures
        sums_to(add_one, zero, Seq::<T>::empty(), total) <==> total == zero,
        sums_to(add_one, zero, samples.push(sample), total) <==> exists|part: A| #[trigger]
            sums_to(add_one, zero, samples, part) && call_ensures(add_one, (part, sample), total),
{
    let none = Seq::<T>::empty();
    if sums_to(add_one, zero, none, total) {
        let sums = choose|sums: Seq<A>| #[trigger]
            are_sums(add_one, zero, none, sums) && sums.last() == total;
        assert(sums.last() == sums[0]);
    }
    if total == zero {
        assert(are_sums(add_one, zero, none, seq![zero]));
    }
    let all = samples.push(sample);
    if sums_to(add_one, zero, all, total) {
        let sums = choose|sums: Seq<A>| #[trigger]
            are_sums(add_one, zero, all, sums) && sums.last() == total;
        let n = samples.len() as int;
        let part = sums[n];
        let before = sums.drop_last();
        assert forall|i: int| 0 <= i < samples.len() implies call_ensures(
            add_one,
            (before[i], #[trigger] samples[i]),
            before[i + 1],
        ) by {
            assert(all[i] == samples[i]);
        }
        assert(are_sums(add_one, zero, samples, before) && before.last() == part);
        assert(all[n] == sample);
        assert(sums_to(add_one, zero, samples, part));
        assert(call_ensures(add_one, (part, sample), total));
    }
    if exists|part: A| #[trigger]
        sums_to(add_one, zero, samples, part) && call_ensures(add_one, (part, sample), total) {
        let part = choose|part: A| #[trigger]
            sums_to(add_one, zero, samples, part) && call_ensures(add_one, (part, sample), total);
        lemma_sums_push(add_one, zero, samples, part, sample, total);
    }
}

/// A frame of music meets a sample of the microphone exactly where the music has the whole of it and
/// the microphone has the sample of its number.
pub proof fn frames_meet_the_microphone(music: int, mic: int, ch: int, frame: int)
    requires
        ch > 0,
        0 <= frame,
        0 <= music,
    ensures
        frame < frames_mixed(music, mic, ch) <==> frame < mic && (frame + 1) * ch <= music,
{
    lemma_fundamental_div_mod(music, ch);
    let q = music / ch;
    if frame < q {
        assert((frame + 1) * ch <= ch * q) by (nonlinear_arith)
            requires
                frame + 1 <= q,
                ch > 0,
        ;
    } else {
        assert((frame + 1) * ch >= ch * q + ch) by (nonlinear_arith)
            requires
                frame >= q,
                ch > 0,
        ;
    }
}

} // verus!
