use vstd::prelude::*;
use crate::error::AppError;

verus! {

/// The sample rate, in Hz, of every normalized buffer.
pub const TARGET_SAMPLE_RATE: u32 = 16000;

/// The length of the buffer obtained by resampling `len` samples.
pub open spec fn resampled_len(len: nat, source_rate: nat, target_rate: nat) -> nat {
    (len * target_rate / source_rate) as nat
}

/// The source index that output sample `i` is taken from.
pub open spec fn source_index(i: int, source_rate: nat, target_rate: nat) -> int {
    i * (source_rate as int) / (target_rate as int)
}

/// Nearest-neighbour resampling from `source_rate` to `target_rate`: output
/// sample `i` is source sample `floor(i * source_rate / target_rate)`.
pub open spec fn resampled<T>(s: Seq<T>, source_rate: nat, target_rate: nat) -> Seq<T> {
    Seq::new(
        resampled_len(s.len(), source_rate, target_rate),
        |i: int| s[source_index(i, source_rate, target_rate)],
    )
}

/// Every output sample of a resampling reads a sample inside the source.
pub proof fn lemma_resample_in_bounds(len: nat, source_rate: nat, target_rate: nat, i: int)
    requires
        source_rate > 0,
        target_rate > 0,
        0 <= i < resampled_len(len, source_rate, target_rate),
    ensures
        0 <= source_index(i, source_rate, target_rate) < len,
{
    let (l, sr, t) = (len as int, source_rate as int, target_rate as int);
    let n = l * t / sr;
    assert(n * sr <= l * t) by (nonlinear_arith)
        requires
            n == l * t / sr,
            sr > 0,
    ;
    assert(i * sr < l * t) by (nonlinear_arith)
        requires
            0 <= i < n,
            n * sr <= l * t,
            sr > 0,
    ;
    assert(0 <= i * sr / t < l) by (nonlinear_arith)
        requires
            0 <= i,
            i * sr < l * t,
            sr > 0,
            t > 0,
    ;
}

/// Resampling at an unchanged rate keeps the buffer as it is.
pub proof fn lemma_resample_same_rate<T>(s: Seq<T>, rate: nat)
    requires
        rate > 0,
    ensures
        resampled(s, rate, rate) == s,
{
    assert(s.len() * rate / rate == s.len()) by (nonlinear_arith)
        requires
            rate > 0,
    ;
    assert forall|i: int| 0 <= i < s.len() implies #[trigger] source_index(i, rate, rate) == i by {
        let r = rate as int;
        assert(i * r / r == i) by (nonlinear_arith)
            requires
                r > 0,
        ;
    }
    assert(resampled(s, rate, rate) =~= s);
}

/// Resampling from 8 kHz to the target rate doubles the length, and every
/// output sample reads a sample inside the source.
pub proof fn lemma_resample_from_8khz<T>(s: Seq<T>)
    ensures
        resampled(s, 8000, TARGET_SAMPLE_RATE as nat).len() == 2 * s.len(),
        forall|i: int|
            0 <= i < 2 * s.len() ==> 0 <= #[trigger] source_index(i, 8000, TARGET_SAMPLE_RATE as nat) < s.len(),
{
    let l = s.len() as int;
    assert(l * 16000 / 8000 == 2 * l) by (nonlinear_arith);
    assert forall|i: int| 0 <= i < 2 * s.len() implies 0 <= #[trigger] source_index(
        i,
        8000,
        TARGET_SAMPLE_RATE as nat,
    ) < s.len() by {
        lemma_resample_in_bounds(s.len(), 8000, TARGET_SAMPLE_RATE as nat, i);
    }
}

/// Sample `i` of each channel, for a buffer laid out channel after channel
/// with `floor(len / channels)` samples per channel.
pub open spec fn channel_frame<T>(s: Seq<T>, channels: nat, i: int) -> Seq<T> {
    Seq::new(channels, |c: int| s[i + c * (s.len() / channels) as int])
}

/// When every channel holds one value throughout, every downmix frame is the
/// same: those values in channel order. (So a stereo buffer of all `1.0` and
/// all `-1.0` gives the frame `[1.0, -1.0]` at every sample.)
pub proof fn lemma_constant_channels<T>(s: Seq<T>, values: Seq<T>, per_channel: nat)
    requires
        values.len() > 0,
        s.len() == values.len() * per_channel,
        forall|c: int, i: int|
            0 <= c < values.len() && 0 <= i < per_channel ==> #[trigger] s[i + c * per_channel] == values[c],
    ensures
        forall|i: int| 0 <= i < per_channel ==> #[trigger] channel_frame(s, values.len(), i) == values,
{
    let (n, p) = (values.len() as int, per_channel as int);
    assert(n * p / n == p) by (nonlinear_arith)
        requires
            n > 0,
            p >= 0,
    ;
    assert(s.len() / values.len() == per_channel);
    assert forall|i: int| 0 <= i < per_channel implies #[trigger] channel_frame(s, values.len(), i) == values by {
        assert(channel_frame(s, values.len(), i) =~= values);
    }
}

/// `v` is what `mean` returns for sample `i` of every channel.
pub open spec fn is_frame_mean<T, F: Fn(&Vec<T>) -> T>(mean: F, s: Seq<T>, channels: nat, i: int, v: T) -> bool {
    exists|frame: Vec<T>| frame@ == channel_frame(s, channels, i) && call_ensures(mean, (&frame,), v)
}

/// Folds a buffer of `channels` channels, laid out channel after channel, into
/// one channel: output sample `i` is `mean` applied to sample `i` of every
/// channel, in channel order.
pub fn downmix<T: Copy, F: Fn(&Vec<T>) -> T>(samples: &Vec<T>, channels: usize, mean: F) -> (r: Vec<T>)
    requires
        channels > 0,
        forall|frame: &Vec<T>| frame@.len() == channels ==> call_requires(mean, (frame,)),
    ensures
        r@.len() == samples@.len() / (channels as nat),
        forall|i: int| 0 <= i < r@.len() ==> is_frame_mean(mean, samples@, channels as nat, i, #[trigger] r@[i]),
{
    let per_channel = samples.len() / channels;
    let ghost (l, n, p) = (samples@.len() as int, channels as int, per_channel as int);
    assert(p * n <= l) by (nonlinear_arith)
        requires
            p == l / n,
            n > 0,
            l >= 0,
    ;
    assert(l <= usize::MAX);
    let mut mono: Vec<T> = Vec::new();
    let mut i: usize = 0;
    while i < per_channel
        invariant
            i <= per_channel,
            per_channel == samples@.len() / (channels as nat),
            p == per_channel,
            n == channels,
            l == samples@.len(),
            p * n <= l,
            l <= usize::MAX,
            channels > 0,
            mono@.len() == i,
            forall|frame: &Vec<T>| frame@.len() == channels ==> call_requires(mean, (frame,)),
            forall|k: int| 0 <= k < i ==> is_frame_mean(mean, samples@, channels as nat, k, #[trigger] mono@[k]),
        decreases per_channel - i,
    {
        let mut frame: Vec<T> = Vec::new();
        let mut c: usize = 0;
        while c < channels
            invariant
                c <= channels,
                i < per_channel,
                per_channel == samples@.len() / (channels as nat),
                p == per_channel,
                n == channels,
                l == samples@.len(),
                p * n <= l,
                l <= usize::MAX,
                frame@ =~= channel_frame(samples@, channels as nat, i as int).subrange(0, c as int),
            decreases channels - c,
        {
            let ghost (ii, cc) = (i as int, c as int);
            assert(cc * p <= ii + cc * p < l) by (nonlinear_arith)
                requires
                    0 <= ii < p,
                    0 <= cc < n,
                    p * n <= l,
            ;
            assert(l <= usize::MAX);
            frame.push(samples[i + c * per_channel]);
            c = c + 1;
        }
        assert(frame@ =~= channel_frame(samples@, channels as nat, i as int));
        let m = mean(&frame);
        let ghost before = mono@;
        mono.push(m);
        assert(is_frame_mean(mean, samples@, channels as nat, i as int, mono@[i as int]));
        assert forall|k: int| 0 <= k < i + 1 implies is_frame_mean(mean, samples@, channels as nat, k, #[trigger] mono@[k]) by {
            if k < i {
                assert(mono@[k] == before[k]);
            }
        }
        i = i + 1;
    }
    mono
}

/// Brings a buffer recorded at `sample_rate` to the target rate. An unknown
/// rate is taken to be the target rate already; a rate of zero describes no
/// audio and is refused.
pub fn to_target_rate<T: Copy>(samples: Vec<T>, sample_rate: Option<u32>) -> (r: Result<Vec<T>, AppError>)
    ensures
        r is Err <==> sample_rate == Some(0u32),
        r is Err ==> r matches Err(AppError::DecodeError(_)),
        r matches Ok(v) ==> v@ == match sample_rate {
            None => samples@,
            Some(rate) => resampled(samples@, rate as nat, TARGET_SAMPLE_RATE as nat),
        },
{
    match sample_rate {
        None => Ok(samples),
        Some(rate) => {
            if rate == 0 {
                Err(AppError::DecodeError(String::from_str("the stream reports a sample rate of zero")))
            } else if rate == TARGET_SAMPLE_RATE {
                proof {
                    lemma_resample_same_rate(samples@, rate as nat);
                }
                Ok(samples)
            } else {
                Ok(resample(&samples, rate, TARGET_SAMPLE_RATE))
            }
        },
    }
}

/// What a container reports of one of its tracks.
#[derive(Debug, Clone, Copy, PartialEq, Eq)]
pub struct TrackInfo {
    pub id: u32,
    /// The track's codec is a recognized one, not the null placeholder.
    pub has_codec: bool,
}

/// The index of the first track with a recognized codec.
pub fn first_audio_track(tracks: &Vec<TrackInfo>) -> (r: Result<usize, AppError>)
    ensures
        r is Ok <==> exists|i: int| 0 <= i < tracks@.len() && #[trigger] tracks@[i].has_codec,
        r matches Ok(i) ==> i < tracks@.len() && tracks@[i as int].has_codec
            && forall|j: int| 0 <= j < i ==> !#[trigger] tracks@[j].has_codec,
        r is Err ==> r matches Err(AppError::UnsupportedFormat(_)),
{
    let mut i: usize = 0;
    while i < tracks.len()
        invariant
            i <= tracks@.len(),
            forall|j: int| 0 <= j < i ==> !#[trigger] tracks@[j].has_codec,
        decreases tracks.len() - i,
    {
        if tracks[i].has_codec {
            return Ok(i);
        }
        i = i + 1;
    }
    Err(AppError::UnsupportedFormat(String::from_str("no track with a recognized codec")))
}

/// Resamples `samples` from `source_rate` to `target_rate` by nearest-neighbour
/// selection.
pub fn resample<T: Copy>(samples: &Vec<T>, source_rate: u32, target_rate: u32) -> (r: Vec<T>)
    requires
        source_rate > 0,
        target_rate > 0,
    ensures
        r@ == resampled(samples@, source_rate as nat, target_rate as nat),
{
    let len = samples.len();
    let ghost (l, t, sr) = (len as int, target_rate as int, source_rate as int);
    assert(l * t <= 0xffff_ffff_ffff_ffff * 0xffff_ffff) by (nonlinear_arith)
        requires
            0 <= l <= 0xffff_ffff_ffff_ffff,
            0 <= t <= 0xffff_ffff,
    ;
    let new_len: u128 = (len as u128) * (target_rate as u128) / (source_rate as u128);
    assert(new_len * sr <= l * t) by (nonlinear_arith)
        requires
            new_len == l * t / sr,
            sr > 0,
    ;
    assert(l * t <= 0xffff_ffff_ffff_ffff * 0xffff_ffff) by (nonlinear_arith)
        requires
            0 <= l <= 0xffff_ffff_ffff_ffff,
            0 <= t <= 0xffff_ffff,
    ;
    let mut resampled_samples: Vec<T> = Vec::new();
    let mut i: u128 = 0;
    while i < new_len
        invariant
            i <= new_len,
            new_len == resampled_len(len as nat, source_rate as nat, target_rate as nat),
            new_len * sr <= l * t <= 0xffff_ffff_ffff_ffff * 0xffff_ffff,
            l == len,
            t == target_rate,
            sr == source_rate,
            len == samples@.len(),
            source_rate > 0,
            target_rate > 0,
            resampled_samples@ =~= resampled(samples@, source_rate as nat, target_rate as nat).subrange(0, i as int),
        decreases new_len - i,
    {
        proof {
            lemma_resample_in_bounds(len as nat, source_rate as nat, target_rate as nat, i as int);
        }
        let ghost ii = i as int;
        assert(ii * sr <= new_len * sr) by (nonlinear_arith)
            requires
                0 <= ii <= new_len,
                sr > 0,
        ;
        let src_idx: u128 = i * (source_rate as u128) / (target_rate as u128);
        resampled_samples.push(samples[src_idx as usize]);
        i = i + 1;
    }
    resampled_samples
}

} // verus!
