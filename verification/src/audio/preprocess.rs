//! From a recorded clip to the mono clip at 16 kHz that the backends take.

use vstd::prelude::*;

verus! {

/// The sample rate that the backends take.
pub const TARGET_RATE: u32 = 16_000;

/// The block size asked of the resampler.
pub const RESAMPLE_CHUNK: usize = 1024;

/// The shortest clip worth transcribing, in milliseconds.
pub const MIN_DURATION_MS: u64 = 350;

/// How many channels a clip counts as having: at least one.
pub open spec fn channel_count(channels: u16) -> nat {
    if channels == 0 {
        1
    } else {
        channels as nat
    }
}

/// The duration of an interleaved clip in whole milliseconds.
pub open spec fn duration_ms(len: nat, rate: u32, channels: u16) -> nat
    recommends
        rate > 0,
        channels > 0,
{
    (len / (channels as nat)) * 1000 / (rate as nat)
}

/// Whether a clip is worth transcribing: there is one, it is long enough, and it
/// is loud enough.
pub open spec fn gate(len: nat, rate: u32, channels: u16, loud: bool) -> bool {
    &&& len > 0
    &&& rate > 0
    &&& channels > 0
    &&& duration_ms(len, rate, channels) >= MIN_DURATION_MS
    &&& loud
}

/// Decides whether an interleaved clip is worth transcribing. `loud` says
/// whether its level is above silence.
pub fn passes_gate<S>(samples: &[S], rate: u32, channels: u16, loud: bool) -> (res: bool)
    ensures
        res == gate(samples@.len(), rate, channels, loud),
{
    if samples.len() == 0 || rate == 0 || channels == 0 {
        return false;
    }
    let frames: usize = samples.len() / (channels as usize);
    let duration: u128 = (frames as u128 * 1000) / (rate as u128);
    if duration < MIN_DURATION_MS as u128 {
        return false;
    }
    loud
}

/// The `i`-th frame of an interleaved clip with `ch` channels.
pub open spec fn frame<S>(samples: Seq<S>, ch: nat, i: int) -> Seq<S> {
    samples.subrange(i * ch, i * ch + ch)
}

/// Whether `value` is what `average` makes of the samples of a frame.
pub open spec fn is_average<S, F: Fn(&[S]) -> S>(average: F, frame: Seq<S>, value: S) -> bool {
    exists|f: &[S], v: S| f@ == frame && v == value && #[trigger] call_ensures(average, (f,), v)
}

/// Whether `mono` is the clip with each frame averaged.
pub open spec fn is_downmix<S, F: Fn(&[S]) -> S>(
    samples: Seq<S>,
    channels: u16,
    average: F,
    mono: Seq<S>,
) -> bool {
    if channel_count(channels) == 1 {
        mono == samples
    } else {
        &&& mono.len() == samples.len() / channel_count(channels)
        &&& forall|i: int|
            0 <= i < mono.len() ==> is_average(
                average,
                frame(samples, channel_count(channels), i),
                #[trigger] mono[i],
            )
    }
}

/// Turns an interleaved clip into a mono one, each frame into what `average`
/// makes of it. A clip with one channel is left as it is; samples that fill no
/// frame at the end are dropped.
pub fn downmix_to_mono<S: Copy, F: Fn(&[S]) -> S>(samples: &[S], channels: u16, average: F) -> (res:
    Vec<S>)
    requires
        forall|f: &[S]|
            f@.len() == channel_count(channels) ==> #[trigger] call_requires(average, (f,)),
    ensures
        is_downmix(samples@, channels, average, res@),
        channel_count(channels) == 1 ==> res@ == samples@,
        channel_count(channels) > 1 ==> {
            &&& res@.len() == samples@.len() / channel_count(channels)
            &&& forall|i: int|
                0 <= i < res@.len() ==> is_average(
                    average,
                    frame(samples@, channel_count(channels), i),
                    #[trigger] res@[i],
                )
        },
{
    let ch: usize = if channels == 0 {
        1
    } else {
        channels as usize
    };
    if ch == 1 {
        return vstd::slice::slice_to_vec(samples);
    }
    let len: usize = samples.len();
    let frames: usize = len / ch;
    let mut out: Vec<S> = Vec::new();
    let mut i: usize = 0;
    while i < frames
        invariant
            forall|f: &[S]|
                f@.len() == channel_count(channels) ==> #[trigger] call_requires(average, (f,)),
            ch == channel_count(channels),
            ch > 1,
            len == samples@.len(),
            frames == samples@.len() / (ch as nat),
            i <= frames,
            out@.len() == i,
            forall|k: int|
                0 <= k < i ==> is_average(
                    average,
                    frame(samples@, ch as nat, k),
                    #[trigger] out@[k],
                ),
        decreases frames - i,
    {
        proof {
            lemma_frame_fits(len as nat, ch as nat, i as nat);
        }
        let f = vstd::slice::slice_subrange(samples, i * ch, i * ch + ch);
        let v = average(f);
        out.push(v);
        proof {
            assert(f@ == frame(samples@, ch as nat, i as int));
            assert(call_ensures(average, (f,), v));
            assert(is_average(average, frame(samples@, ch as nat, i as int), v));
        }
        i = i + 1;
    }
    out
}

proof fn lemma_frame_fits(len: nat, ch: nat, i: nat)
    requires
        ch > 0,
        i < len / ch,
    ensures
        0 <= i * ch,
        i * ch + ch <= len,
{
    assert(0 <= i * ch && i * ch + ch <= len) by (nonlinear_arith)
        requires
            ch > 0,
            i + 1 <= len / ch,
    ;
}

/// Whether a mono clip has to be resampled.
pub fn needs_resampling(len: usize, src_rate: u32) -> (res: bool)
    ensures
        res == (len > 0 && src_rate != TARGET_RATE),
{
    len > 0 && src_rate != TARGET_RATE
}

/// `n` times `zero`.
pub open spec fn padding<S>(n: nat, zero: S) -> Seq<S> {
    Seq::new(n, |i: int| zero)
}

/// A clip cut into blocks of `n` samples, the last of them filled up with `zero`.
pub open spec fn padded_blocks<S>(s: Seq<S>, n: nat, zero: S) -> Seq<Seq<S>>
    decreases s.len(),
{
    if s.len() == 0 || n == 0 {
        Seq::empty()
    } else if s.len() < n {
        seq![s + padding((n - s.len()) as nat, zero)]
    } else {
        seq![s.take(n as int)] + padded_blocks(s.skip(n as int), n, zero)
    }
}

/// What a list of sample vectors holds.
pub open spec fn block_views<S>(blocks: Seq<Vec<S>>) -> Seq<Seq<S>> {
    blocks.map_values(|b: Vec<S>| b@)
}

/// Cuts a mono clip into the blocks that a resampler takes one after the other,
/// the last of them filled up with `zero`.
pub fn resample_blocks<S: Copy>(mono: &[S], chunk: usize, zero: S) -> (res: Vec<Vec<S>>)
    requires
        chunk > 0,
    ensures
        block_views(res@) == padded_blocks(mono@, chunk as nat, zero),
{
    let mut out: Vec<Vec<S>> = Vec::new();
    let mut pos: usize = 0;
    proof {
        assert(mono@.skip(0) =~= mono@);
        assert(block_views(out@) + padded_blocks(mono@, chunk as nat, zero) =~= padded_blocks(
            mono@,
            chunk as nat,
            zero,
        ));
    }
    while chunk <= mono.len() - pos
        invariant
            chunk > 0,
            pos <= mono@.len(),
            block_views(out@) + padded_blocks(mono@.skip(pos as int), chunk as nat, zero)
                == padded_blocks(mono@, chunk as nat, zero),
        decreases mono@.len() - pos,
    {
        let ghost rest = mono@.skip(pos as int);
        let ghost before = out@;
        let block = vstd::slice::slice_to_vec(
            vstd::slice::slice_subrange(mono, pos, pos + chunk),
        );
        out.push(block);
        proof {
            assert(block@ =~= rest.take(chunk as int));
            assert(mono@.skip(pos + chunk) =~= rest.skip(chunk as int));
            assert(block_views(out@) =~= block_views(before).push(block@));
            assert(block_views(out@) + padded_blocks(mono@.skip(pos + chunk), chunk as nat, zero)
                =~= block_views(before) + padded_blocks(rest, chunk as nat, zero));
        }
        pos = pos + chunk;
    }
    if pos < mono.len() {
        let ghost rest = mono@.skip(pos as int);
        let ghost before = out@;
        let mut tail = vstd::slice::slice_to_vec(
            vstd::slice::slice_subrange(mono, pos, mono.len()),
        );
        proof {
            assert(tail@ =~= rest + padding(0, zero));
        }
        while tail.len() < chunk
            invariant
                rest.len() <= tail@.len() <= chunk,
                tail@ == rest + padding((tail@.len() - rest.len()) as nat, zero),
            decreases chunk - tail@.len(),
        {
            let ghost t = tail@;
            tail.push(zero);
            proof {
                assert(tail@ =~= rest + padding((t.len() + 1 - rest.len()) as nat, zero));
            }
        }
        let ghost tail_view = tail@;
        out.push(tail);
        proof {
            assert(block_views(out@) =~= block_views(before).push(tail_view));
            assert(padded_blocks(rest, chunk as nat, zero) =~= seq![tail_view]);
            assert(block_views(out@) =~= block_views(before) + seq![tail_view]);
        }
    } else {
        proof {
            assert(block_views(out@) + padded_blocks(mono@.skip(pos as int), chunk as nat, zero)
                =~= block_views(out@));
        }
    }
    out
}

/// The outputs of a resampler one after the other, blocks that it refused left
/// out.
pub open spec fn joined_outputs<S>(outputs: Seq<Option<Vec<S>>>) -> Seq<S>
    decreases outputs.len(),
{
    if outputs.len() == 0 {
        Seq::empty()
    } else {
        match outputs.last() {
            Some(v) => joined_outputs(outputs.drop_last()) + v@,
            None => joined_outputs(outputs.drop_last()),
        }
    }
}

/// Joins the outputs of a resampler.
pub fn join_outputs<S: Copy>(outputs: &Vec<Option<Vec<S>>>) -> (res: Vec<S>)
    ensures
        res@ == joined_outputs(outputs@),
{
    let mut out: Vec<S> = Vec::new();
    let mut i: usize = 0;
    while i < outputs.len()
        invariant
            i <= outputs@.len(),
            out@ == joined_outputs(outputs@.take(i as int)),
        decreases outputs@.len() - i,
    {
        proof {
            assert(outputs@.take(i + 1).drop_last() =~= outputs@.take(i as int));
        }
        match &outputs[i] {
            Some(v) => {
                let mut copy = vstd::slice::slice_to_vec(v.as_slice());
                out.append(&mut copy);
            },
            None => {},
        }
        i = i + 1;
    }
    proof {
        assert(outputs@.take(i as int) =~= outputs@);
    }
    out
}

/// The mono clip at the target rate, given what the resampler made of its blocks.
pub open spec fn at_target_rate<S>(
    mono: Seq<S>,
    src_rate: u32,
    outputs: Option<Seq<Option<Vec<S>>>>,
) -> Seq<S> {
    if mono.len() > 0 && src_rate != TARGET_RATE {
        match outputs {
            Some(o) => joined_outputs(o),
            None => mono,
        }
    } else {
        mono
    }
}

/// The mono clip at the target rate, given what the resampler made of its blocks:
/// `None` where there is no resampler for the rate, and then the clip is left as
/// it is. A clip that is at the target rate, or empty, is left as it is too.
pub fn resample_to_16k<S: Copy>(
    mono: &[S],
    src_rate: u32,
    outputs: Option<&Vec<Option<Vec<S>>>>,
) -> (res: Vec<S>)
    ensures
        res@ == if mono@.len() > 0 && src_rate != TARGET_RATE {
            match outputs {
                Some(o) => joined_outputs(o@),
                None => mono@,
            }
        } else {
            mono@
        },
        res@ == at_target_rate(
            mono@,
            src_rate,
            match outputs {
                Some(o) => Some(o@),
                None => None,
            },
        ),
{
    if !needs_resampling(mono.len(), src_rate) {
        return vstd::slice::slice_to_vec(mono);
    }
    match outputs {
        Some(o) => join_outputs(o),
        None => vstd::slice::slice_to_vec(mono),
    }
}

/// All samples of a list of blocks, one after the other.
pub open spec fn flat<S>(blocks: Seq<Seq<S>>) -> Seq<S>
    decreases blocks.len(),
{
    if blocks.len() == 0 {
        Seq::empty()
    } else {
        blocks.first() + flat(blocks.drop_first())
    }
}

/// The blocks hold the clip, whole and in order, and then only padding.
pub proof fn law_blocks_hold_the_clip<S>(s: Seq<S>, n: nat, zero: S)
    requires
        n > 0,
    ensures
        flat(padded_blocks(s, n, zero)).len() >= s.len(),
        flat(padded_blocks(s, n, zero)) == s + padding(
            (flat(padded_blocks(s, n, zero)).len() - s.len()) as nat,
            zero,
        ),
        flat(padded_blocks(s, n, zero)).len() < s.len() + n,
    decreases s.len(),
{
    let blocks = padded_blocks(s, n, zero);
    if s.len() == 0 {
        assert(flat(blocks) =~= s + padding(0, zero));
    } else if s.len() < n {
        assert(blocks.drop_first() =~= Seq::empty());
        assert(flat(blocks.drop_first()) =~= Seq::empty());
        assert(flat(blocks) =~= s + padding((n - s.len()) as nat, zero));
    } else {
        let rest = s.skip(n as int);
        law_blocks_hold_the_clip(rest, n, zero);
        assert(blocks.drop_first() =~= padded_blocks(rest, n, zero));
        assert(flat(blocks) =~= s + padding((flat(blocks).len() - s.len()) as nat, zero));
    }
}

/// Every block has the size that the resampler takes.
pub proof fn law_blocks_are_full<S>(s: Seq<S>, n: nat, zero: S, i: int)
    requires
        n > 0,
        0 <= i < padded_blocks(s, n, zero).len(),
    ensures
        padded_blocks(s, n, zero)[i].len() == n,
    decreases s.len(),
{
    if s.len() >= n && i > 0 {
        law_blocks_are_full(s.skip(n as int), n, zero, i - 1);
    }
}

/// A clip is dropped where it is too short, however loud it is: the number of
/// channels counts.
pub proof fn law_short_clips_are_dropped(len: nat, rate: u32, channels: u16, loud: bool)
    requires
        rate > 0,
        channels > 0,
        (len / (channels as nat)) * 1000 < MIN_DURATION_MS * rate,
    ensures
        !gate(len, rate, channels, loud),
{
    let frames1000 = (len / (channels as nat)) * 1000;
    assert(frames1000 / (rate as nat) < MIN_DURATION_MS) by (nonlinear_arith)
        requires
            rate > 0,
            frames1000 < MIN_DURATION_MS * rate,
    ;
}

/// A silent clip is dropped, however long it is.
pub proof fn law_silence_is_dropped(len: nat, rate: u32, channels: u16)
    ensures
        !gate(len, rate, channels, false),
{
}

/// Joining keeps the outputs in order: the join of two lists is the join of the
/// first and then that of the second, a single output is its own join, and a block
/// that was refused adds nothing.
pub proof fn law_outputs_join_in_order<S>(
    a: Seq<Option<Vec<S>>>,
    b: Seq<Option<Vec<S>>>,
    one: Vec<S>,
)
    ensures
        joined_outputs(a + b) == joined_outputs(a) + joined_outputs(b),
        joined_outputs(seq![Some(one)]) == one@,
        joined_outputs(seq![None::<Vec<S>>]) == Seq::<S>::empty(),
        joined_outputs(Seq::<Option<Vec<S>>>::empty()) == Seq::<S>::empty(),
    decreases b.len(),
{
    let none = Seq::<Option<Vec<S>>>::empty();
    assert(joined_outputs(none) =~= Seq::<S>::empty());
    assert(seq![Some(one)].drop_last() =~= none);
    assert(joined_outputs(seq![Some(one)]) =~= one@);
    assert(seq![None::<Vec<S>>].drop_last() =~= none);
    if b.len() == 0 {
        assert(a + b =~= a);
        assert(joined_outputs(a) + joined_outputs(b) =~= joined_outputs(a));
    } else {
        law_outputs_join_in_order(a, b.drop_last(), one);
        assert((a + b).drop_last() =~= a + b.drop_last());
        assert(joined_outputs(a + b) =~= joined_outputs(a) + joined_outputs(b));
    }
}

/// Every output stands whole in the result, behind as many samples as the outputs
/// before it have.
pub proof fn law_outputs_keep_their_place<S>(outputs: Seq<Option<Vec<S>>>, i: int, v: Vec<S>)
    requires
        0 <= i < outputs.len(),
        outputs[i] == Some(v),
    ensures
        joined_outputs(outputs.take(i)).len() + v@.len() <= joined_outputs(outputs).len(),
        joined_outputs(outputs).subrange(
            joined_outputs(outputs.take(i)).len() as int,
            (joined_outputs(outputs.take(i)).len() + v@.len()) as int,
        ) == v@,
{
    let before = outputs.take(i);
    let after = outputs.skip(i + 1);
    law_outputs_join_in_order(before, seq![Some(v)], v);
    law_outputs_join_in_order(before + seq![Some(v)], after, v);
    assert(before + seq![Some(v)] + after =~= outputs);
    let at = joined_outputs(before).len() as int;
    assert(joined_outputs(outputs).subrange(at, at + v@.len()) =~= v@);
}

/// The sample at `j` of the block at `i` is the `n * i + j`-th of the clip, or `zero`
/// beyond its end, and there are as many blocks as the clip needs.
pub proof fn law_blocks_by_place<S>(s: Seq<S>, n: nat, zero: S, i: int, j: int)
    requires
        n > 0,
        0 <= i < padded_blocks(s, n, zero).len(),
        0 <= j < n,
    ensures
        padded_blocks(s, n, zero)[i].len() == n,
        padded_blocks(s, n, zero)[i][j] == if n * i + j < s.len() {
            s[n * i + j]
        } else {
            zero
        },
        n * i < s.len(),
    decreases s.len(),
{
    if i == 0 {
        assert(n * i == 0) by (nonlinear_arith)
            requires
                i == 0,
        ;
    } else {
        let rest = s.skip(n as int);
        law_blocks_by_place(rest, n, zero, i - 1, j);
        assert(n * i == n * (i - 1) + n) by (nonlinear_arith);
        assert(padded_blocks(s, n, zero)[i] == padded_blocks(rest, n, zero)[i - 1]);
    }
}

/// The number of blocks is the length of the clip divided by the block size, rounded
/// up.
pub proof fn law_block_count<S>(s: Seq<S>, n: nat, zero: S)
    requires
        n > 0,
    ensures
        padded_blocks(s, n, zero).len() == (s.len() + n - 1) / (n as int),
    decreases s.len(),
{
    if s.len() == 0 {
        assert((n - 1) / (n as int) == 0) by (nonlinear_arith)
            requires
                n > 0,
        ;
    } else if s.len() < n {
        let m = s.len() + n - 1;
        assert(m / (n as int) == 1) by (nonlinear_arith)
            requires
                n as int <= m < 2 * n,
        ;
    } else {
        law_block_count(s.skip(n as int), n, zero);
        let m = s.len() - 1;
        assert((m + n) / (n as int) == m / (n as int) + 1) by (nonlinear_arith)
            requires
                n > 0,
                m >= 0,
        ;
    }
}

/// A clip is worth transcribing if and only if it is loud and its whole frames fill
/// at least 350 milliseconds.
pub proof fn law_long_loud_clips_are_kept(len: nat, rate: u32, channels: u16, loud: bool)
    ensures
        gate(len, rate, channels, loud) <==> loud && rate > 0 && channels > 0 && 1000 * (len as int
            / channels as int) >= 350 * rate,
{
    if rate > 0 && channels > 0 {
        let frames = len as int / channels as int;
        let r = rate as int;
        assert((frames * 1000) / r >= 350 <==> frames * 1000 >= 350 * r) by (nonlinear_arith)
            requires
                r > 0,
        ;
        if len == 0 {
            assert(0int / channels as int == 0) by (nonlinear_arith)
                requires
                    channels > 0,
            ;
        }
    }
}

/// A frame is as many samples as there are channels, the first of them behind all
/// earlier frames; a clip without channels counts as mono.
pub proof fn law_frames_by_place<S>(samples: Seq<S>, channels: u16, i: int, k: int)
    requires
        0 <= i,
        0 <= k < channel_count(channels),
        i * channel_count(channels) + channel_count(channels) <= samples.len(),
    ensures
        channels == 0 ==> channel_count(channels) == 1,
        channels > 0 ==> channel_count(channels) == channels,
        frame(samples, channel_count(channels), i).len() == channel_count(channels),
        frame(samples, channel_count(channels), i)[k] == samples[i * channel_count(channels) + k],
{
    assert(0 <= i * channel_count(channels)) by (nonlinear_arith)
        requires
            0 <= i,
    ;
}

/// Where the average of a frame depends on its samples alone, a frame is downmixed
/// to exactly that.
pub proof fn law_frames_are_averaged<S, F: Fn(&[S]) -> S>(
    average: F,
    mean: spec_fn(Seq<S>) -> S,
    frame: Seq<S>,
    value: S,
)
    requires
        forall|f: &[S], v: S| #[trigger] call_ensures(average, (f,), v) ==> v == mean(f@),
        is_average(average, frame, value),
    ensures
        value == mean(frame),
{
}

/// Blocks are seen as they are, each in its place.
pub proof fn law_blocks_are_seen_whole<S>(blocks: Seq<Vec<S>>, i: int)
    requires
        0 <= i < blocks.len(),
    ensures
        block_views(blocks).len() == blocks.len(),
        block_views(blocks)[i] == blocks[i]@,
{
}

/// A clip with one channel, or none, is mono already. Of any other, the sample at `i`
/// of the mono clip is the mean of the samples that the channels have in the frame at
/// `i`, where the mean depends on them alone, and there is one for each whole frame.
pub proof fn law_downmix_by_place<S, F: Fn(&[S]) -> S>(
    samples: Seq<S>,
    channels: u16,
    average: F,
    mean: spec_fn(Seq<S>) -> S,
    mono: Seq<S>,
    i: int,
)
    requires
        is_downmix(samples, channels, average, mono),
        forall|f: &[S], v: S| #[trigger] call_ensures(average, (f,), v) ==> v == mean(f@),
        0 <= i < mono.len(),
    ensures
        channels <= 1 ==> mono == samples,
        channels > 1 ==> mono.len() == samples.len() as int / channels as int,
        channels > 1 ==> mono[i] == mean(samples.subrange(i * channels, i * channels + channels)),
{
    if channels > 1 {
        assert(is_average(average, frame(samples, channels as nat, i), mono[i]));
        law_frames_are_averaged(average, mean, frame(samples, channels as nat, i), mono[i]);
    }
}

/// A clip at 16000 samples a second is left as it is, and so is one for which there is
/// no resampler; of any other the result is the outputs, joined in order.
pub proof fn law_clip_at_the_target_rate<S>(
    mono: Seq<S>,
    src_rate: u32,
    a: Seq<Option<Vec<S>>>,
    b: Seq<Option<Vec<S>>>,
)
    ensures
        src_rate == 16_000 ==> at_target_rate(mono, src_rate, Some(a + b)) == mono,
        mono.len() == 0 ==> at_target_rate(mono, src_rate, Some(a + b)).len() == 0,
        at_target_rate(mono, src_rate, None::<Seq<Option<Vec<S>>>>) == mono,
        src_rate != 16_000 && mono.len() > 0 ==> at_target_rate(mono, src_rate, Some(a + b))
            == joined_outputs(a) + joined_outputs(b),
{
    law_outputs_join_in_order(a, b, arbitrary());
}

}
