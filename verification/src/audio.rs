//! Recording: when it stops, what it keeps of the channels, and the sound file
//! that comes out.
//!
//! Instants are in nanoseconds of a clock that does not go back, and so are lengths of time.

use vstd::prelude::*;

use crate::seconds::{nanos_of_parts, parts_nanos};
use crate::text::{
    decimal, lemma_number_is_read_back, opt_text, parse_i16, parse_u64, parsed, parsed_i16,
};
use crate::time::{elapsed_between, from_millis, millis, span};

verus! {

/// When a recording stops.
#[derive(Clone, Copy, Debug, PartialEq, Eq, Structural)]
pub struct RecordingPolicy {
    pub max_duration: u128,
    pub min_duration: u128,
    pub silence_duration: u128,
    pub speech_threshold: i16,
}

/// The setting, where it is a number within the bounds; else the default.
pub open spec fn bounded_setting(setting: Option<Seq<char>>, default: u64, low: u64, high: u64) -> u64 {
    match setting {
        Some(text) => match parsed(text, u64::MAX as nat) {
            Some(n) => if low <= n <= high {
                n as u64
            } else {
                default
            },
            None => default,
        },
        None => default,
    }
}

/// The length of time that the setting gives in milliseconds, where it is a
/// number within the bounds; else the default.
pub fn duration_from_env(setting: &Option<String>, default_ms: u64, low: u64, high: u64) -> (
duration: u128)
    ensures
        duration == millis(bounded_setting(opt_text(*setting), default_ms, low, high)),
{
    let ms: u64 = match setting {
        Some(text) => match parse_u64(text.as_str()) {
            Some(n) => if low <= n && n <= high {
                n
            } else {
                default_ms
            },
            None => default_ms,
        },
        None => default_ms,
    };
    from_millis(ms)
}

/// The setting, where it is a number within the bounds; else the default.
pub open spec fn bounded_level(setting: Option<Seq<char>>, default: i16, low: i16, high: i16) -> i16 {
    match setting {
        Some(text) => match parsed_i16(text) {
            Some(n) => if low <= n <= high {
                n
            } else {
                default
            },
            None => default,
        },
        None => default,
    }
}

/// The setting, where it is a number within the bounds; else the default.
pub fn i16_from_env(setting: &Option<String>, default_value: i16, low: i16, high: i16) -> (value: i16)
    ensures
        value == bounded_level(opt_text(*setting), default_value, low, high),
{
    match setting {
        Some(text) => match parse_i16(text.as_str()) {
            Some(n) => if low <= n && n <= high {
                n
            } else {
                default_value
            },
            None => default_value,
        },
        None => default_value,
    }
}

impl RecordingPolicy {
    /// The policy of the settings for the shortest recording, the silence that
    /// ends one and the loudness of speech.
    pub fn from_max_duration(
        max_duration: u128,
        min_ms: &Option<String>,
        silence_ms: &Option<String>,
        threshold: &Option<String>,
    ) -> (policy: RecordingPolicy)
        ensures
            policy == (RecordingPolicy {
                max_duration,
                min_duration: millis(bounded_setting(opt_text(*min_ms), 350, 100, 2_000)),
                silence_duration: millis(
                    bounded_setting(opt_text(*silence_ms), 420, 120, 2_000),
                ),
                speech_threshold: bounded_level(opt_text(*threshold), 48, 8, 6_000),
            }),
    {
        RecordingPolicy {
            max_duration,
            min_duration: duration_from_env(min_ms, 350, 100, 2_000),
            silence_duration: duration_from_env(silence_ms, 420, 120, 2_000),
            speech_threshold: i16_from_env(threshold, 48, 8, 6_000),
        }
    }
}

/// What a recording has heard.
#[derive(Clone, Copy, Debug, PartialEq, Eq, Structural)]
pub struct RecordingState {
    pub started_at: u128,
    pub last_voice_at: Option<u128>,
    pub heard_voice: bool,
}

/// The recording ends: it is as long as it may be, or it is long enough, has
/// heard speech, and has heard none for a while.
pub open spec fn ends(state: RecordingState, now: u128, policy: RecordingPolicy) -> bool {
    let elapsed = span(state.started_at, now);
    ||| elapsed >= policy.max_duration
    ||| elapsed >= policy.min_duration && state.heard_voice && match state.last_voice_at {
        Some(last) => span(last, now) >= policy.silence_duration,
        None => false,
    }
}

impl RecordingState {
    pub fn new(started_at: u128) -> (state: RecordingState)
        ensures
            state == (RecordingState { started_at, last_voice_at: None, heard_voice: false }),
    {
        RecordingState { started_at, last_voice_at: None, heard_voice: false }
    }

    /// Takes up how loud it has been.
    pub fn observe_peak(&mut self, now: u128, peak: i16, threshold: i16)
        ensures
            *final(self) == (if peak >= threshold {
                RecordingState {
                    started_at: old(self).started_at,
                    last_voice_at: Some(now),
                    heard_voice: true,
                }
            } else {
                *old(self)
            }),
    {
        if peak >= threshold {
            self.heard_voice = true;
            self.last_voice_at = Some(now);
        }
    }

    /// Whether the recording ends.
    pub fn should_stop(&self, now: u128, policy: RecordingPolicy) -> (stop: bool)
        ensures
            stop == ends(*self, now, policy),
    {
        let elapsed = elapsed_between(self.started_at, now);
        if elapsed >= policy.max_duration {
            return true;
        }
        if elapsed < policy.min_duration || !self.heard_voice {
            return false;
        }
        match self.last_voice_at {
            Some(last) => elapsed_between(last, now) >= policy.silence_duration,
            None => false,
        }
    }
}

/// Whether the recording ends, by itself or because that was asked for.
pub fn should_stop_recording(
    state: &RecordingState,
    now: u128,
    policy: RecordingPolicy,
    stop_requested: bool,
) -> (stop: bool)
    ensures
        stop == (stop_requested || ends(*state, now, policy)),
{
    stop_requested || state.should_stop(now, policy)
}

/// A recording that ends does not go on again by itself, and none outlasts the
/// longest time.
pub proof fn lemma_recording_ends_for_good(
    state: RecordingState,
    now: u128,
    later: u128,
    policy: RecordingPolicy,
)
    requires
        now <= later,
    ensures
        ends(state, now, policy) ==> ends(state, later, policy),
        later >= state.started_at + policy.max_duration ==> ends(state, later, policy),
{
}

/// Silence alone does not end a recording in which nothing was said.
pub proof fn lemma_silence_needs_speech(state: RecordingState, now: u128, policy: RecordingPolicy)
    requires
        !state.heard_voice,
        ends(state, now, policy),
    ensures
        span(state.started_at, now) >= policy.max_duration,
{
}

/// How loud a sample is.
pub open spec fn loudness(sample: i16) -> i16 {
    if sample == i16::MIN {
        i16::MAX
    } else if sample < 0 {
        (-sample) as i16
    } else {
        sample
    }
}

fn loudness_of(sample: i16) -> (level: i16)
    ensures
        level == loudness(sample),
{
    if sample == i16::MIN {
        i16::MAX
    } else if sample < 0 {
        -sample
    } else {
        sample
    }
}

/// The loudest sample of a frame, the first of them if there are several, and
/// how loud it is. Where all is silent, both are zero.
pub open spec fn mixed(frame: Seq<i16>) -> (i16, i16)
    decreases frame.len(),
{
    if frame.len() == 0 {
        (0, 0)
    } else {
        let earlier = mixed(frame.drop_last());
        if loudness(frame.last()) > earlier.1 {
            (frame.last(), loudness(frame.last()))
        } else {
            earlier
        }
    }
}

/// A sample is louder than each before it, and none after it is louder.
pub open spec fn is_first_loudest(frame: Seq<i16>, k: int) -> bool {
    &&& 0 <= k < frame.len()
    &&& forall|i: int| 0 <= i < k ==> loudness(#[trigger] frame[i]) < loudness(frame[k])
    &&& forall|i: int| k <= i < frame.len() ==> loudness(#[trigger] frame[i]) <= loudness(frame[k])
}

/// The sample that stands for a frame is the first of its loudest, unless the
/// frame is silent, and no sample of the frame is louder. Channels that are
/// opposed do not cancel each other out.
pub proof fn lemma_mix_is_the_loudest(frame: Seq<i16>)
    ensures
        forall|i: int| 0 <= i < frame.len() ==> loudness(#[trigger] frame[i]) <= mixed(frame).1,
        mixed(frame).1 >= 0,
        mixed(frame).1 == loudness(mixed(frame).0),
        mixed(frame).1 > 0 ==> exists|k: int| #[trigger]
            is_first_loudest(frame, k) && mixed(frame).0 == frame[k],
    decreases frame.len(),
{
    if frame.len() > 0 {
        let rest = frame.drop_last();
        lemma_mix_is_the_loudest(rest);
        assert forall|i: int| 0 <= i < frame.len() implies loudness(#[trigger] frame[i]) <= mixed(
            frame,
        ).1 by {
            if i < rest.len() {
                assert(frame[i] == rest[i]);
            }
        }
        assert(forall|i: int| 0 <= i < rest.len() ==> #[trigger] frame[i] == rest[i]);
        if mixed(frame).1 > 0 {
            if loudness(frame.last()) > mixed(rest).1 {
                assert(is_first_loudest(frame, frame.len() - 1));
            } else {
                let k = choose|k: int| #[trigger]
                    is_first_loudest(rest, k) && mixed(rest).0 == rest[k];
                assert(frame[k] == rest[k]);
                assert(is_first_loudest(frame, k));
            }
        }
    }
}

/// The loudest sample of a frame, and how loud it is; nothing for an empty
/// frame.
pub fn mix_interleaved_frame(frame: &[i16]) -> (mix: Option<(i16, i16)>)
    ensures
        mix == (if frame@.len() == 0 {
            None
        } else {
            Some(mixed(frame@))
        }),
{
    if frame.len() == 0 {
        return None;
    }
    assert(frame@.subrange(0, frame@.len() as int) =~= frame@);
    Some(mix_range(frame, 0, frame.len()))
}

fn mix_range(data: &[i16], from: usize, to: usize) -> (mix: (i16, i16))
    requires
        from <= to <= data@.len(),
    ensures
        mix == mixed(data@.subrange(from as int, to as int)),
{
    let mut loudest: i16 = 0;
    let mut peak: i16 = 0;
    let mut i: usize = from;
    assert(data@.subrange(from as int, from as int).len() == 0);
    while i < to
        invariant
            from <= i <= to <= data@.len(),
            (loudest, peak) == mixed(data@.subrange(from as int, i as int)),
        decreases to - i,
    {
        let sample = data[i];
        assert(data@.subrange(from as int, i + 1).drop_last() =~= data@.subrange(
            from as int,
            i as int,
        ));
        let level = loudness_of(sample);
        if level > peak {
            peak = level;
            loudest = sample;
        }
        i = i + 1;
    }
    (loudest, peak)
}

/// The frames of the channels, one after the other; the last one may be short.
pub open spec fn frames(data: Seq<i16>, channels: nat) -> Seq<Seq<i16>>
    decreases data.len(),
{
    if data.len() == 0 || channels == 0 {
        Seq::empty()
    } else if data.len() <= channels {
        seq![data]
    } else {
        seq![data.take(channels as int)] + frames(data.skip(channels as int), channels)
    }
}

/// One sample for each frame.
pub open spec fn mono(frames: Seq<Seq<i16>>) -> Seq<i16> {
    Seq::new(frames.len(), |i: int| mixed(frames[i]).0)
}

/// How loud the loudest frame is.
pub open spec fn peak_of(frames: Seq<Seq<i16>>) -> i16
    decreases frames.len(),
{
    if frames.len() == 0 {
        0
    } else {
        let rest = peak_of(frames.skip(1));
        let first = mixed(frames[0]).1;
        if first > rest {
            first
        } else {
            rest
        }
    }
}

/// Keeps the loudest channel of each frame, and takes up how loud it has been.
pub fn push_interleaved(
    data: &[i16],
    channels: u16,
    samples: &mut Vec<i16>,
    state: &mut RecordingState,
    policy: RecordingPolicy,
    now: u128,
)
    ensures
        ({
            let heard = frames(
                data@,
                if channels == 0 {
                    1
                } else {
                    channels as nat
                },
            );
            &&& final(samples)@ == old(samples)@ + mono(heard)
            &&& *final(state) == (if peak_of(heard) >= policy.speech_threshold {
                RecordingState {
                    started_at: old(state).started_at,
                    last_voice_at: Some(now),
                    heard_voice: true,
                }
            } else {
                *old(state)
            })
        }),
{
    let width: usize = if channels == 0 {
        1
    } else {
        channels as usize
    };
    let ghost all = data@;
    let ghost before = samples@;
    let ghost heard = frames(all, width as nat);
    let ghost mut done: Seq<Seq<i16>> = Seq::empty();
    let mut peak: i16 = 0;
    let mut i: usize = 0;
    assert(all.skip(0) =~= all);
    assert(done + heard =~= heard);
    assert(before + mono(done) =~= before);
    while i < data.len()
        invariant
            i <= data@.len(),
            all == data@,
            width >= 1,
            heard == frames(all, width as nat),
            heard == done + frames(all.skip(i as int), width as nat),
            samples@ == before + mono(done),
            peak == peak_of(done),
        decreases data@.len() - i,
    {
        let left = data.len() - i;
        let to = if left <= width {
            data.len()
        } else {
            i + width
        };
        let (loudest, level) = mix_range(data, i, to);
        let ghost rest = all.skip(i as int);
        let ghost frame = all.subrange(i as int, to as int);
        proof {
            if left <= width {
                assert(frame =~= rest);
                assert(all.skip(to as int) =~= Seq::<i16>::empty());
            } else {
                assert(frame =~= rest.take(width as int));
                assert(rest.skip(width as int) =~= all.skip(to as int));
            }
            assert(frames(rest, width as nat) =~= seq![frame] + frames(
                all.skip(to as int),
                width as nat,
            ));
            assert(done + frames(rest, width as nat) =~= done.push(frame) + frames(
                all.skip(to as int),
                width as nat,
            ));
            assert(mono(done.push(frame)) =~= mono(done).push(mixed(frame).0));
            assert((before + mono(done)).push(mixed(frame).0) =~= before + mono(done.push(frame)));
            lemma_peak_push(done, frame);
        }
        if level > peak {
            peak = level;
        }
        samples.push(loudest);
        proof {
            done = done.push(frame);
        }
        i = to;
    }
    assert(all.skip(i as int) =~= Seq::<i16>::empty());
    assert(done =~= heard);
    state.observe_peak(now, peak, policy.speech_threshold);
}

proof fn lemma_peak_push(frames: Seq<Seq<i16>>, frame: Seq<i16>)
    ensures
        peak_of(frames) >= 0,
        peak_of(frames.push(frame)) == (if mixed(frame).1 > peak_of(frames) {
            mixed(frame).1
        } else {
            peak_of(frames)
        }),
    decreases frames.len(),
{
    lemma_mix_is_the_loudest(frame);
    if frames.len() == 0 {
        assert(frames.push(frame).skip(1) =~= frames);
    } else {
        lemma_mix_is_the_loudest(frames[0]);
        lemma_peak_push(frames.skip(1), frame);
        assert(frames.push(frame).skip(1) =~= frames.skip(1).push(frame));
    }
}

/// The squares of the samples, added up.
pub open spec fn energy(samples: Seq<i16>) -> int
    decreases samples.len(),
{
    if samples.len() == 0 {
        0
    } else {
        energy(samples.drop_last()) + samples.last() * samples.last()
    }
}

/// What is known of a recording besides its samples. The mean loudness is the
/// root of `sum_squares` over the number of samples.
#[derive(Clone, Copy, Debug, PartialEq, Eq, Structural)]
pub struct AudioStats {
    pub duration: u128,
    pub peak_amplitude: u16,
    pub sum_squares: u128,
}

/// How long so many samples last, to the nearest nanosecond of the seconds that
/// a double-precision number counts.
pub open spec fn duration_of(sample_rate: u32, samples: nat) -> u128 {
    parts_nanos(samples, sample_rate as nat) as u128
}

/// What is known of a recording besides its samples: nothing, where there is
/// no rate or no sample.
pub open spec fn stats_of(sample_rate: u32, samples: Seq<i16>) -> AudioStats {
    if sample_rate == 0 || samples.len() == 0 {
        AudioStats { duration: 0, peak_amplitude: 0, sum_squares: 0 }
    } else {
        AudioStats {
            duration: duration_of(sample_rate, samples.len()),
            peak_amplitude: mixed(samples).1 as u16,
            sum_squares: energy(samples) as u128,
        }
    }
}

/// What is known of a recording besides its samples.
pub fn audio_stats(sample_rate: u32, samples: &[i16]) -> (stats: AudioStats)
    ensures
        stats == stats_of(sample_rate, samples@),
        energy(samples@) <= u128::MAX,
{
    let count: usize = samples.len();
    proof {
        lemma_energy_bound(samples@);
    }
    if sample_rate == 0 || samples.len() == 0 {
        return AudioStats { duration: 0, peak_amplitude: 0, sum_squares: 0 };
    }
    let mut sum_squares: u128 = 0;
    let mut i: usize = 0;
    assert(samples@.take(0).len() == 0);
    while i < samples.len()
        invariant
            i <= samples@.len() <= usize::MAX,
            sum_squares == energy(samples@.take(i as int)),
        decreases samples@.len() - i,
    {
        let sample = samples[i];
        let ghost longer = samples@.take(i + 1);
        assert(longer.drop_last() =~= samples@.take(i as int));
        proof {
            lemma_energy_bound(samples@.take(i as int));
            lemma_square(sample as int);
        }
        let wide: i64 = sample as i64;
        let square: i64 = wide * wide;
        sum_squares = sum_squares + square as u128;
        i = i + 1;
    }
    assert(samples@.take(samples@.len() as int) =~= samples@);
    let (_, peak) = mix_range(samples, 0, samples.len());
    assert(samples@.subrange(0, samples@.len() as int) =~= samples@);
    proof {
        lemma_mix_is_the_loudest(samples@);
    }
    AudioStats {
        duration: nanos_of_parts(count, sample_rate),
        peak_amplitude: peak as u16,
        sum_squares,
    }
}

proof fn lemma_square(x: int)
    requires
        i16::MIN <= x <= i16::MAX,
    ensures
        0 <= x * x <= 0x4000_0000,
{
    assert(0 <= x * x <= 0x4000_0000) by (nonlinear_arith)
        requires
            -32768 <= x <= 32767,
    ;
}

proof fn lemma_energy_bound(samples: Seq<i16>)
    requires
        samples.len() <= usize::MAX,
    ensures
        0 <= energy(samples) <= samples.len() * 0x4000_0000,
    decreases samples.len(),
{
    if samples.len() > 0 {
        lemma_energy_bound(samples.drop_last());
        lemma_square(samples.last() as int);
    }
}

/// How loud a quiet recording is made.
pub const TARGET_PEAK: i32 = 3_200;

/// How much louder a recording is made at most.
pub const MAX_GAIN: i32 = 32;

/// How much louder a recording is made.
pub open spec fn gain(peak: i16) -> int {
    if peak <= 0 || peak >= TARGET_PEAK {
        1
    } else if TARGET_PEAK as int / peak as int > MAX_GAIN {
        MAX_GAIN as int
    } else {
        TARGET_PEAK as int / peak as int
    }
}

/// A sample made louder, within the range of samples.
pub open spec fn amplified(sample: i16, factor: int) -> i16 {
    let louder = sample * factor;
    if louder > i16::MAX {
        i16::MAX
    } else if louder < i16::MIN {
        i16::MIN
    } else {
        louder as i16
    }
}

/// The samples of a quiet recording, made louder.
pub fn normalize_quiet_samples_for_stt(samples: &[i16], peak: i16) -> (louder: Vec<i16>)
    ensures
        louder@ == Seq::new(samples@.len(), |i: int| amplified(samples@[i], gain(peak))),
{
    let factor: i32 = if peak <= 0 || peak as i32 >= TARGET_PEAK {
        1
    } else {
        let ratio: i32 = TARGET_PEAK / (peak as i32);
        if ratio > MAX_GAIN {
            MAX_GAIN
        } else {
            ratio
        }
    };
    assert(factor == gain(peak));
    assert(1 <= factor <= MAX_GAIN) by {
        if 0 < peak < TARGET_PEAK {
            assert(TARGET_PEAK as int / peak as int >= 1) by (nonlinear_arith)
                requires
                    0 < peak < 3_200,
                    TARGET_PEAK == 3_200,
            ;
        }
    }
    let mut louder: Vec<i16> = Vec::new();
    let mut i: usize = 0;
    while i < samples.len()
        invariant
            i <= samples@.len(),
            1 <= factor <= MAX_GAIN,
            factor == gain(peak),
            louder@.len() == i,
            forall|j: int|
                0 <= j < i ==> #[trigger] louder@[j] == amplified(samples@[j], gain(peak)),
        decreases samples@.len() - i,
    {
        let sample = samples[i] as i32;
        assert(-1_048_576 <= sample * factor <= 1_048_576) by (nonlinear_arith)
            requires
                -32_768 <= sample <= 32_767,
                1 <= factor <= 32,
        ;
        let product: i32 = sample * factor;
        let result: i16 = if product > 32_767 {
            i16::MAX
        } else if product < -32_768 {
            i16::MIN
        } else {
            product as i16
        };
        louder.push(result);
        i = i + 1;
    }
    assert(louder@ =~= Seq::new(samples@.len(), |i: int| amplified(samples@[i], gain(peak))));
    louder
}

/// A recording is never made quieter, and one that is made louder does not
/// reach beyond the target: nothing is cut off.
pub proof fn lemma_quiet_recording_is_not_clipped(sample: i16, peak: i16)
    requires
        loudness(sample) <= peak,
    ensures
        gain(peak) >= 1,
        gain(peak) > 1 ==> -TARGET_PEAK <= sample * gain(peak) <= TARGET_PEAK,
        amplified(sample, gain(peak)) == sample * gain(peak),
{
    if 0 < peak < TARGET_PEAK {
        let ratio = TARGET_PEAK as int / peak as int;
        let factor = gain(peak);
        assert(ratio >= 1 && peak * ratio <= TARGET_PEAK) by (nonlinear_arith)
            requires
                0 < peak < 3_200,
                TARGET_PEAK == 3_200,
                ratio == TARGET_PEAK as int / peak as int,
        ;
        assert(-3_200 <= sample * factor <= 3_200) by (nonlinear_arith)
            requires
                -peak <= sample <= peak,
                1 <= factor <= ratio,
                0 < peak,
                peak * ratio <= 3_200,
        ;
    } else {
        assert(sample * 1 == sample);
    }
}

/// The bytes of a number, the lowest first.
pub open spec fn le16(n: int) -> Seq<u8> {
    seq![(n % 256) as u8, (n / 256 % 256) as u8]
}

/// The bytes of a number, the lowest first.
pub open spec fn le32(n: int) -> Seq<u8> {
    le16(n % 65_536) + le16(n / 65_536)
}

/// A sample as a number that is not negative.
pub open spec fn unsigned(sample: i16) -> int {
    if sample < 0 {
        sample + 65_536
    } else {
        sample as int
    }
}

pub open spec fn sample_bytes(samples: Seq<i16>) -> Seq<u8>
    decreases samples.len(),
{
    if samples.len() == 0 {
        Seq::empty()
    } else {
        sample_bytes(samples.drop_last()) + le16(unsigned(samples.last()))
    }
}

/// "RIFF"
pub open spec fn riff() -> Seq<u8> {
    seq![82u8, 73, 70, 70]
}

/// "WAVEfmt "
pub open spec fn wave_fmt() -> Seq<u8> {
    seq![87u8, 65, 86, 69, 102, 109, 116, 32]
}

/// "data"
pub open spec fn data_tag() -> Seq<u8> {
    seq![100u8, 97, 116, 97]
}

/// A sound file of one channel with sixteen bits for each sample.
pub open spec fn wav_file(sample_rate: u32, samples: Seq<i16>) -> Seq<u8> {
    let size = 2 * samples.len() as int;
    riff() + le32(36 + size) + wave_fmt() + le32(16) + le16(1) + le16(1) + le32(sample_rate as int)
        + le32(2 * sample_rate) + le16(2) + le16(16) + data_tag() + le32(size)
        + sample_bytes(samples)
}

/// Nothing overflows in the header of the file.
pub open spec fn fits_wav(sample_rate: u32, samples: nat) -> bool {
    0 < sample_rate <= 0x7fff_ffff && samples <= 0x7fff_ffed
}

/// `hound::WavWriter`, with one channel of sixteen bits, over a buffer in
/// memory: the header and the samples, in the order in which they are written.
/// With a rate of zero, or where the sizes overflow, the writer panics. What it
/// writes with more channels or other sizes of sample is not claimed.
#[verifier::external_body]
fn write_wav(
    channels: u16,
    sample_rate: u32,
    bits_per_sample: u16,
    samples: &[i16],
) -> (bytes: Option<Vec<u8>>)
    requires
        channels == 1,
        bits_per_sample == 16,
        fits_wav(sample_rate, samples@.len()),
    ensures
        bytes matches Some(bytes) && bytes@ == wav_file(sample_rate, samples@),
{
    let spec = hound::WavSpec {
        channels,
        sample_rate,
        bits_per_sample,
        sample_format: hound::SampleFormat::Int,
    };
    let mut bytes = std::io::Cursor::new(Vec::new());
    let mut writer = hound::WavWriter::new(&mut bytes, spec).ok()?;
    for sample in samples {
        writer.write_sample(*sample).ok()?;
    }
    writer.finalize().ok()?;
    Some(bytes.into_inner())
}

/// The sound file of the samples.
pub fn encode_wav_mono(sample_rate: u32, samples: &[i16]) -> (result: Result<Vec<u8>, String>)
    requires
        fits_wav(sample_rate, samples@.len()),
    ensures
        result matches Ok(bytes) && bytes@ == wav_file(sample_rate, samples@),
{
    match write_wav(1, sample_rate, 16, samples) {
        Some(bytes) => Ok(bytes),
        None => Err("create wav writer".to_owned()),
    }
}

/// A recording that is over.
#[derive(Clone, Debug, PartialEq, Eq)]
pub struct RecordedAudio {
    pub sample_rate: u32,
    pub wav_bytes: Vec<u8>,
    pub stats: AudioStats,
}

/// The samples as they are written to the sound file.
pub open spec fn made_louder(samples: Seq<i16>) -> Seq<i16> {
    Seq::new(samples.len(), |i: int| amplified(samples[i], gain(mixed(samples).1)))
}

/// The recording of the samples: the sound file with the samples made louder
/// where they are quiet, and what is known of the samples as they were.
pub fn finish_recording(sample_rate: u32, samples: &[i16]) -> (result: Result<RecordedAudio, String>)
    requires
        samples@.len() > 0 ==> fits_wav(sample_rate, samples@.len()),
    ensures
        match result {
            Ok(audio) => {
                &&& samples@.len() > 0
                &&& audio.sample_rate == sample_rate
                &&& audio.stats == stats_of(sample_rate, samples@)
                &&& audio.wav_bytes@ == wav_file(sample_rate, made_louder(samples@))
            },
            Err(message) => samples@.len() == 0 && message@
                == "no samples captured from input device"@,
        },
{
    if samples.len() == 0 {
        return Err("no samples captured from input device".to_owned());
    }
    let stats = audio_stats(sample_rate, samples);
    proof {
        lemma_mix_is_the_loudest(samples@);
    }
    let louder = normalize_quiet_samples_for_stt(samples, stats.peak_amplitude as i16);
    assert(louder@ =~= made_louder(samples@));
    match encode_wav_mono(sample_rate, louder.as_slice()) {
        Ok(wav_bytes) => Ok(RecordedAudio { sample_rate, wav_bytes, stats }),
        Err(message) => Err(message),
    }
}

/// A recording that is shorter than the longest time does not end by itself while
/// it is shorter than the shortest, nor while voice was heard less than the
/// silence ago.
pub proof fn lemma_speech_is_not_cut_off(
    state: RecordingState,
    now: u128,
    policy: RecordingPolicy,
)
    requires
        now < state.started_at + policy.max_duration,
        policy.max_duration > 0,
    ensures
        now < state.started_at + policy.min_duration && policy.min_duration > 0 ==> !ends(
            state,
            now,
            policy,
        ),
        state.last_voice_at matches Some(voice) && now < voice + policy.silence_duration
            && policy.silence_duration > 0 ==> !ends(state, now, policy),
        state.last_voice_at is None ==> !ends(state, now, policy),
        !state.heard_voice ==> !ends(state, now, policy),
{
}

/// A recording in which voice was heard ends as soon as it is long enough and
/// the voice was heard a silence ago, and any recording ends at the longest time.
pub proof fn lemma_silence_ends_a_recording(
    state: RecordingState,
    now: u128,
    voice: u128,
    policy: RecordingPolicy,
)
    ensures
        now >= state.started_at + policy.max_duration ==> ends(state, now, policy),
        state.heard_voice && state.last_voice_at == Some(voice) && now >= voice
            + policy.silence_duration && now >= voice && now >= state.started_at
            + policy.min_duration && now >= state.started_at ==> ends(state, now, policy),
{
}

/// A sample is as loud as its opposite, and silence alone is not loud.
pub proof fn lemma_loudness_has_no_sign(sample: i16)
    ensures
        loudness(sample) >= 0,
        sample >= 0 ==> loudness(sample) == sample,
        sample > i16::MIN ==> loudness((-sample) as i16) == loudness(sample),
        loudness(sample) == 0 <==> sample == 0,
        loudness(i16::MIN) == i16::MAX,
{
}

/// The frames of interleaved samples are the samples in their order, so many at a
/// time; only the last frame may have fewer.
pub proof fn lemma_frames_are_the_samples(data: Seq<i16>, channels: nat, i: int)
    requires
        channels > 0,
        0 <= i < frames(data, channels).len(),
    ensures
        i * channels < data.len(),
        frames(data, channels)[i] == data.subrange(
            i * channels,
            if (i + 1) * channels <= data.len() {
                (i + 1) * channels
            } else {
                data.len() as int
            },
        ),
        i == frames(data, channels).len() - 1 <==> (i + 1) * channels >= data.len(),
    decreases data.len(),
{
    if data.len() <= channels {
        assert(data.subrange(0, data.len() as int) =~= data);
        assert(i == 0);
        assert(0 * channels == 0 && 1 * channels == channels) by (nonlinear_arith);
    } else {
        let rest = data.skip(channels as int);
        assert(0 * channels == 0 && 1 * channels == channels) by (nonlinear_arith);
        lemma_some_frame(rest, channels);
        if i > 0 {
            lemma_frames_are_the_samples(rest, channels, i - 1);
            assert((i - 1) * channels == i * channels - channels) by (nonlinear_arith);
            assert((i + 1) * channels == i * channels + channels) by (nonlinear_arith);
            assert((i - 1 + 1) * channels == i * channels) by (nonlinear_arith);
            assert(frames(data, channels)[i] == frames(rest, channels)[i - 1]);
            let to: int = if (i + 1) * channels <= data.len() {
                (i + 1) * channels
            } else {
                data.len() as int
            };
            assert(rest.subrange(i * channels - channels, to - channels) =~= data.subrange(
                i * channels,
                to,
            ));
        } else {
            assert(data.take(channels as int) =~= data.subrange(0, channels as int));
        }
    }
}

proof fn lemma_some_frame(data: Seq<i16>, channels: nat)
    requires
        channels > 0,
        data.len() > 0,
    ensures
        frames(data, channels).len() > 0,
{
}

/// One sample is kept of each frame, the one that stands for it.
pub proof fn lemma_one_sample_of_each_frame(frames: Seq<Seq<i16>>, i: int)
    requires
        0 <= i < frames.len(),
    ensures
        mono(frames).len() == frames.len(),
        mono(frames)[i] == mixed(frames[i]).0,
        forall|k: int|
            0 <= k < frames[i].len() ==> loudness(#[trigger] frames[i][k]) <= loudness(
                mono(frames)[i],
            ),
{
    lemma_mix_is_the_loudest(frames[i]);
}

/// The peak is the loudness of the loudest sample of all frames.
pub proof fn lemma_peak_is_the_loudest(frames: Seq<Seq<i16>>, i: int, k: int)
    ensures
        0 <= i < frames.len() && 0 <= k < frames[i].len() ==> loudness(frames[i][k]) <= peak_of(
            frames,
        ),
        peak_of(frames) >= 0,
        peak_of(frames) > 0 ==> exists|j: int, m: int|
            0 <= j < frames.len() && 0 <= m < (#[trigger] frames[j]).len() && loudness(
                #[trigger] frames[j][m],
            ) == peak_of(frames),
    decreases frames.len(),
{
    if frames.len() > 0 {
        let rest = frames.skip(1);
        lemma_peak_is_the_loudest(rest, i - 1, k);
        lemma_mix_is_the_loudest(frames[0]);
        if i > 0 && i < frames.len() {
            assert(rest[i - 1] == frames[i]);
        }
        if peak_of(frames) > 0 {
            if mixed(frames[0]).1 > peak_of(rest) {
                let m = choose|m: int| #[trigger]
                    is_first_loudest(frames[0], m) && mixed(frames[0]).0 == frames[0][m];
                assert(loudness(frames[0][m]) == peak_of(frames));
            } else {
                let (j, m) = choose|j: int, m: int|
                    0 <= j < rest.len() && 0 <= m < (#[trigger] rest[j]).len() && loudness(
                        #[trigger] rest[j][m],
                    ) == peak_of(rest);
                assert(frames[j + 1] == rest[j]);
                assert(loudness(frames[j + 1][m]) == peak_of(frames));
            }
        }
    }
}

/// The squares of the samples of two recordings add up, and a sample counts with
/// its square.
pub proof fn lemma_energy_adds_up(a: Seq<i16>, b: Seq<i16>, sample: i16)
    ensures
        energy(a + b) == energy(a) + energy(b),
        energy(seq![sample]) == sample * sample,
        energy(Seq::empty()) == 0,
    decreases b.len(),
{
    let one = seq![sample];
    assert(one.drop_last() =~= Seq::<i16>::empty());
    assert(one.last() == sample);
    assert(energy(one) == energy(Seq::<i16>::empty()) + sample * sample);
    if b.len() == 0 {
        assert(a + b =~= a);
    } else {
        lemma_energy_adds_up(a, b.drop_last(), sample);
        assert((a + b).drop_last() =~= a + b.drop_last());
    }
}

/// A recording that is loud enough is left as it is; a quiet one is made louder by
/// the largest factor, up to the greatest, that keeps it within the target.
pub proof fn lemma_gain_reaches_the_target(peak: i16, sample: i16)
    ensures
        peak >= 3_200 || peak <= 0 ==> amplified(sample, gain(peak)) == sample,
        0 < peak < 3_200 ==> 1 <= gain(peak) <= 32 && peak * gain(peak) <= 3_200,
        0 < peak < 3_200 ==> gain(peak) == 32 || peak * (gain(peak) + 1) > 3_200,
{
    assert(sample * 1 == sample);
    if 0 < peak < 3_200 {
        let p = peak as int;
        let q = 3_200int / p;
        assert(p * q <= 3_200 < p * (q + 1) && q >= 1) by (nonlinear_arith)
            requires
                0 < p < 3_200,
                q == 3_200int / p,
        ;
        if q > 32 {
            assert(p * 32 <= 3_200) by (nonlinear_arith)
                requires
                    p > 0,
                    q > 32,
                    p * q <= 3_200,
            ;
        }
    }
}

/// A louder sample is the product, as far as a sample can hold it.
pub proof fn lemma_louder_sample(sample: i16, factor: int)
    requires
        factor >= 1,
    ensures
        i16::MIN <= sample * factor <= i16::MAX ==> amplified(sample, factor) == sample * factor,
        sample * factor > i16::MAX ==> amplified(sample, factor) == i16::MAX,
        sample * factor < i16::MIN ==> amplified(sample, factor) == i16::MIN,
{
}

/// A setting that is a number within its bounds is taken; any other counts as
/// none, and then the default is taken.
pub proof fn lemma_setting_within_bounds(n: nat, text: Seq<char>, default: u64, low: u64, high: u64)
    ensures
        low <= n <= high ==> bounded_setting(Some(decimal(n)), default, low, high) == n,
        n < low || n > high ==> bounded_setting(Some(decimal(n)), default, low, high) == default,
        bounded_setting(None, default, low, high) == default,
        bounded_setting(Some(text), default, low, high) == default || low <= bounded_setting(
            Some(text),
            default,
            low,
            high,
        ) <= high,
{
    lemma_number_is_read_back(n, u64::MAX as nat);
}

/// A level that is a number within its bounds is taken; any other counts as none,
/// and then the default is taken.
pub proof fn lemma_level_within_bounds(n: nat, text: Seq<char>, default: i16, low: i16, high: i16)
    ensures
        low <= n <= high ==> bounded_level(Some(decimal(n)), default, low, high) == n,
        n > high ==> bounded_level(Some(decimal(n)), default, low, high) == default,
        0 < n && low <= -(n as int) <= high ==> bounded_level(
            Some(seq!['-'] + decimal(n)),
            default,
            low,
            high,
        ) == -(n as int),
        bounded_level(None, default, low, high) == default,
        bounded_level(Some(text), default, low, high) == default || low <= bounded_level(
            Some(text),
            default,
            low,
            high,
        ) <= high,
{
    lemma_number_is_read_back(n, i16::MAX as nat);
    lemma_number_is_read_back(n, 32_768);
    let s = decimal(n);
    assert('0' <= s[0] <= '9');
    assert((seq!['-'] + s).skip(1) =~= s);
}

/// A recording has a length in time that its samples and their rate give, and
/// none without samples or without a rate; the peak is the loudest of its
/// samples, and its squares add up.
pub proof fn lemma_stats_of_a_recording(sample_rate: u32, samples: Seq<i16>, i: int)
    ensures
        sample_rate == 0 || samples.len() == 0 ==> stats_of(sample_rate, samples).duration == 0
            && stats_of(sample_rate, samples).peak_amplitude == 0,
        sample_rate > 0 && 0 <= i < samples.len() ==> stats_of(sample_rate, samples).peak_amplitude
            >= loudness(samples[i]),
        sample_rate > 0 && samples.len() > 0 && stats_of(sample_rate, samples).peak_amplitude > 0
            ==> exists|k: int|
            0 <= k < samples.len() && loudness(#[trigger] samples[k]) == stats_of(
                sample_rate,
                samples,
            ).peak_amplitude,
{
    lemma_mix_is_the_loudest(samples);
    if mixed(samples).1 > 0 {
        let k = choose|k: int| #[trigger]
            is_first_loudest(samples, k) && mixed(samples).0 == samples[k];
        assert(loudness(samples[k]) == mixed(samples).1);
    }
}

} // verus!
