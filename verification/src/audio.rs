//! The microphone: down-mixing to one channel, levels, and when it records.

use vstd::prelude::*;
use vstd::string::*;

verus! {

/// The sample rate assumed where there is no microphone.
pub const DEFAULT_SAMPLE_RATE: u32 = 16000;

/// The sample rate of recordings.
pub open spec fn rate_or_default(microphone: Result<u32, String>) -> u32 {
    match microphone {
        Ok(rate) => rate,
        Err(_) => DEFAULT_SAMPLE_RATE,
    }
}

/// The sample rate of recordings, given the microphone's or why there is none.
pub fn recording_rate(microphone: &Result<u32, String>) -> (rate: u32)
    ensures
        rate == rate_or_default(*microphone),
{
    match microphone {
        Ok(rate) => *rate,
        Err(_) => DEFAULT_SAMPLE_RATE,
    }
}

/// The sum of samples.
pub open spec fn total(samples: Seq<i16>) -> int
    decreases samples.len(),
{
    if samples.len() == 0 {
        0
    } else {
        total(samples.drop_last()) + samples.last()
    }
}

/// Division rounded toward zero.
pub open spec fn quotient(a: int, b: int) -> int {
    if a >= 0 {
        a / b
    } else {
        -((-a) / b)
    }
}

/// The number of samples in the first frame: one for each channel, or what is
/// left of them.
pub open spec fn frame_len(data: Seq<i16>, channels: usize) -> int {
    if data.len() < channels {
        data.len() as int
    } else {
        channels as int
    }
}

/// The sample that stands for a frame: its sum divided by the number of
/// channels, in 32-bit arithmetic.
pub open spec fn mean(frame: Seq<i16>, channels: usize) -> i16 {
    (quotient(total(frame), (channels as i32) as int) as i32) as i16
}

/// Whether the mean of a frame can be computed in 32-bit arithmetic.
pub open spec fn has_mean(frame: Seq<i16>, channels: usize) -> bool {
    &&& forall|n: int|
        0 <= n <= frame.len() ==> i32::MIN <= #[trigger] total(frame.take(n)) <= i32::MAX
    &&& channels as i32 != 0
    &&& !(total(frame) == i32::MIN && channels as i32 == -1)
}

/// Whether every frame has a mean.
pub open spec fn can_mix(data: Seq<i16>, channels: usize) -> bool
    decreases data.len(),
{
    if data.len() == 0 || channels == 0 {
        true
    } else {
        let n = frame_len(data, channels);
        has_mean(data.take(n), channels) && can_mix(data.skip(n), channels)
    }
}

/// One sample for each frame.
pub open spec fn mixed(data: Seq<i16>, channels: usize) -> Seq<i16>
    decreases data.len(),
{
    if data.len() == 0 || channels == 0 {
        Seq::empty()
    } else {
        let n = frame_len(data, channels);
        seq![mean(data.take(n), channels)] + mixed(data.skip(n), channels)
    }
}

/// Interleaved samples of `channels` channels as one channel.
pub open spec fn mono(data: Seq<i16>, channels: usize) -> Seq<i16> {
    if channels == 1 {
        data
    } else {
        mixed(data, channels)
    }
}

/// Interleaved samples of `channels` channels as one channel. One channel is
/// left as it is; of more, each frame becomes its mean. A last frame that is cut
/// short is divided by the number of channels too.
pub fn i16_to_mono(data: &[i16], channels: usize) -> (samples: Vec<i16>)
    requires
        channels > 0,
        channels == 1 || can_mix(data@, channels),
    ensures
        samples@ == mono(data@, channels),
{
    if channels == 1 {
        return vstd::slice::slice_to_vec(data);
    }
    let mut samples: Vec<i16> = Vec::new();
    let mut start: usize = 0;
    assert(data@.skip(0) =~= data@);
    assert(samples@ + mixed(data@, channels) =~= mixed(data@, channels));
    while start < data.len()
        invariant
            channels > 0,
            start <= data@.len(),
            can_mix(data@.skip(start as int), channels),
            samples@ + mixed(data@.skip(start as int), channels) =~= mixed(data@, channels),
        decreases data@.len() - start,
    {
        let ghost rest = data@.skip(start as int);
        let end: usize = if data.len() - start < channels {
            data.len()
        } else {
            start + channels
        };
        let ghost frame = rest.take(end - start);
        let mut sum: i32 = 0;
        let mut i: usize = start;
        while i < end
            invariant
                start <= i <= end <= data@.len(),
                rest == data@.skip(start as int),
                frame == rest.take(end - start),
                has_mean(frame, channels),
                sum == total(frame.take(i - start)),
            decreases end - i,
        {
            let ghost n = i - start;
            assert(frame.take(n + 1).drop_last() =~= frame.take(n));
            assert(frame.take(n + 1).last() == data@[i as int]);
            assert(i32::MIN <= total(frame.take(n + 1)) <= i32::MAX);
            sum = sum + data[i] as i32;
            i = i + 1;
        }
        assert(frame.take(end - start) =~= frame);
        let ghost before = samples@;
        samples.push((sum / (channels as i32)) as i16);
        proof {
            assert(rest.skip(end - start) =~= data@.skip(end as int));
            assert(samples@ =~= before.push(mean(frame, channels)));
            assert(mixed(rest, channels) =~= seq![mean(frame, channels)] + mixed(
                data@.skip(end as int),
                channels,
            ));
        }
        start = end;
    }
    assert(data@.skip(start as int) =~= Seq::<i16>::empty());
    samples
}

/// How loud a sample is.
pub open spec fn loudness(sample: i16) -> int {
    if sample < 0 {
        -sample
    } else {
        sample as int
    }
}

/// The loudness of the loudest sample; nothing is silent.
pub fn peak(samples: &[i16]) -> (level: u16)
    ensures
        forall|i: int| 0 <= i < samples@.len() ==> loudness(#[trigger] samples@[i]) <= level,
        forall|i: int| 0 <= i < samples@.len() ==> -level <= #[trigger] samples@[i] <= level,
        level > 0 ==> exists|i: int|
            0 <= i < samples@.len() && loudness(#[trigger] samples@[i]) == level,
{
    let mut level: u16 = 0;
    let mut i: usize = 0;
    while i < samples.len()
        invariant
            i <= samples@.len(),
            forall|j: int| 0 <= j < i ==> loudness(#[trigger] samples@[j]) <= level,
            level > 0 ==> exists|j: int|
                0 <= j < i && loudness(#[trigger] samples@[j]) == level,
        decreases samples@.len() - i,
    {
        let sample: i32 = samples[i] as i32;
        let loud: u16 = if sample < 0 {
            (-sample) as u16
        } else {
            sample as u16
        };
        assert(loud == loudness(samples@[i as int]));
        if loud > level {
            level = loud;
        }
        i = i + 1;
    }
    level
}

/// How a device hands out its samples.
#[derive(Debug, Clone, Copy, PartialEq, Eq, Structural)]
pub enum SampleFormat {
    F32,
    I16,
    Other,
}

/// What is to be done with the device's stream.
#[derive(Debug, Clone, Copy, PartialEq, Eq, Structural)]
pub enum StreamAction {
    Play,
    Pause,
}

/// What was recorded: the samples of one channel, and how loud the loudest of
/// them is.
#[derive(Debug)]
pub struct Capture {
    pub samples: Vec<i16>,
    pub peak: u16,
}

/// A microphone: what its device hands out, and whether it records.
#[derive(Debug)]
pub struct Microphone {
    pub sample_rate: u32,
    pub channels: u16,
    pub recording: bool,
}

impl Microphone {
    /// A microphone on a device with this configuration. Devices that hand out
    /// neither floating-point nor 16-bit samples are not supported. It does not
    /// record yet.
    pub fn spawn(
        format: SampleFormat,
        format_name: &str,
        sample_rate: u32,
        channels: u16,
    ) -> (microphone: Result<Microphone, String>)
        ensures
            match microphone {
                Ok(m) => format != SampleFormat::Other && m == (Microphone {
                    sample_rate,
                    channels,
                    recording: false,
                }),
                Err(e) => format == SampleFormat::Other && e@ == "Unsupported sample format: "@
                    + format_name@,
            },
    {
        match format {
            SampleFormat::F32 | SampleFormat::I16 => Ok(
                Microphone { sample_rate, channels, recording: false },
            ),
            SampleFormat::Other => Err(
                "Unsupported sample format: ".to_owned().concat(format_name),
            ),
        }
    }

    /// Starts recording.
    pub fn start_listening(&mut self) -> (action: StreamAction)
        ensures
            *final(self) == (Microphone { recording: true, ..*old(self) }),
            action == StreamAction::Play,
    {
        self.recording = true;
        StreamAction::Play
    }

    /// Stops recording.
    pub fn stop_listening(&mut self) -> (action: StreamAction)
        ensures
            *final(self) == (Microphone { recording: false, ..*old(self) }),
            action == StreamAction::Pause,
    {
        self.recording = false;
        StreamAction::Pause
    }

    /// Takes 16-bit samples from the device. Nothing is captured unless it
    /// records.
    pub fn capture(&self, data: &[i16]) -> (captured: Option<Capture>)
        requires
            self.recording ==> self.channels > 0,
        ensures
            captured is Some <==> self.recording,
            captured is Some ==> {
                let c = captured->0;
                &&& c.samples@ == mono(data@, self.channels as usize)
                &&& forall|i: int|
                    0 <= i < c.samples@.len() ==> loudness(#[trigger] c.samples@[i]) <= c.peak
                &&& c.peak > 0 ==> exists|i: int|
                    0 <= i < c.samples@.len() && loudness(#[trigger] c.samples@[i]) == c.peak
            },
    {
        if !self.recording {
            return None;
        }
        proof {
            law_few_channels_mix(data@, self.channels as usize);
        }
        let samples = i16_to_mono(data, self.channels as usize);
        let level = peak(samples.as_slice());
        Some(Capture { samples, peak: level })
    }
}

proof fn lemma_total_bounds(samples: Seq<i16>)
    ensures
        i16::MIN * samples.len() <= total(samples) <= i16::MAX * samples.len(),
    decreases samples.len(),
{
    if samples.len() > 0 {
        lemma_total_bounds(samples.drop_last());
    }
}

/// With up to 65536 channels any samples can be mixed.
pub proof fn law_few_channels_mix(data: Seq<i16>, channels: usize)
    requires
        0 < channels <= 0x1_0000,
    ensures
        can_mix(data, channels),
    decreases data.len(),
{
    if data.len() > 0 {
        let n = frame_len(data, channels);
        let frame = data.take(n);
        assert forall|m: int| 0 <= m <= frame.len() implies i32::MIN <= #[trigger] total(
            frame.take(m),
        ) <= i32::MAX by {
            lemma_total_bounds(frame.take(m));
        }
        law_few_channels_mix(data.skip(n), channels);
    }
}

/// The frame numbered `k`.
pub open spec fn frame_at(data: Seq<i16>, channels: usize, k: int) -> Seq<i16> {
    let rest = data.skip(k * channels);
    rest.take(frame_len(rest, channels))
}

/// Mixing gives one sample for every frame, the last of which may be cut short:
/// sample `k` is the mean of frame `k`.
pub proof fn law_one_sample_per_frame(data: Seq<i16>, channels: usize)
    requires
        channels > 1,
    ensures
        mono(data, channels).len() == (data.len() + channels - 1) / (channels as int),
        forall|k: int|
            #![trigger frame_at(data, channels, k)]
            0 <= k < mono(data, channels).len() ==> frame_at(data, channels, k).len() > 0 && mono(
                data,
                channels,
            )[k] == mean(frame_at(data, channels, k), channels),
    decreases data.len(),
{
    let c = channels as int;
    if data.len() == 0 {
        assert((c - 1) / c == 0) by (nonlinear_arith)
            requires
                c > 1,
        ;
    } else {
        let n = frame_len(data, channels);
        let rest = data.skip(n);
        law_one_sample_per_frame(rest, channels);
        let len = data.len() as int;
        if len < c {
            assert((len + c - 1) / c == 1) by (nonlinear_arith)
                requires
                    0 < len < c,
            ;
            assert((c - 1) / c == 0) by (nonlinear_arith)
                requires
                    c > 1,
            ;
        } else {
            assert((len + c - 1) / c == 1 + (len - c + c - 1) / c) by (nonlinear_arith)
                requires
                    c > 1,
                    len >= c,
            ;
        }
        assert forall|k: int|
            #![trigger frame_at(data, channels, k)]
            0 <= k < mono(data, channels).len() implies frame_at(data, channels, k).len() > 0
            && mono(data, channels)[k] == mean(frame_at(data, channels, k), channels) by {
            if k == 0 {
                assert(data.skip(0) =~= data);
            } else {
                assert(mono(data, channels)[k] == mono(rest, channels)[k - 1]);
                assert((k - 1) * c == k * c - c) by (nonlinear_arith);
                if len < c {
                    assert(rest.len() == 0);
                    assert(false);
                }
                let left = rest.len() as int;
                assert(0 <= (k - 1) * c < left) by (nonlinear_arith)
                    requires
                        0 <= k - 1 < (left + c - 1) / c,
                        c > 1,
                ;
                assert(frame_at(rest, channels, k - 1).len() > 0);
                assert(rest.skip((k - 1) * c) =~= data.skip(k * c));
            }
        }
    }
}

/// With up to 65536 channels the mean of a frame is its sum divided by the
/// number of channels, rounded toward zero: nothing is lost to overflow.
pub proof fn law_mean_is_exact(frame: Seq<i16>, channels: usize)
    requires
        0 < channels <= 0x1_0000,
        frame.len() <= channels,
    ensures
        mean(frame, channels) == quotient(total(frame), channels as int),
{
    let c = channels as int;
    let t = total(frame);
    lemma_total_bounds(frame);
    assert(-32768 * c <= t <= 32767 * c) by (nonlinear_arith)
        requires
            i16::MIN * frame.len() <= t <= i16::MAX * frame.len(),
            0 <= frame.len() <= c,
    ;
    if t >= 0 {
        assert(0 <= t / c <= 32767) by (nonlinear_arith)
            requires
                0 <= t <= 32767 * c,
                c > 0,
        ;
    } else {
        assert(0 <= (-t) / c <= 32768) by (nonlinear_arith)
            requires
                0 <= -t <= 32768 * c,
                c > 0,
        ;
    }
}

/// The sum of samples is the sum: nothing is left out of it, and their order does
/// not matter.
pub proof fn law_sums_add_up(a: Seq<i16>, b: Seq<i16>, sample: i16)
    ensures
        total(Seq::<i16>::empty()) == 0,
        total(seq![sample]) == sample,
        total(a + b) == total(a) + total(b),
        total(a + b) == total(b + a),
{
    reveal_with_fuel(total, 2);
    assert(seq![sample].drop_last() =~= Seq::<i16>::empty());
    lemma_total_adds(a, b);
    lemma_total_adds(b, a);
}

proof fn lemma_total_adds(a: Seq<i16>, b: Seq<i16>)
    ensures
        total(a + b) == total(a) + total(b),
    decreases b.len(),
{
    if b.len() == 0 {
        assert(a + b =~= a);
    } else {
        lemma_total_adds(a, b.drop_last());
        assert((a + b).drop_last() =~= a + b.drop_last());
    }
}

/// With up to 65536 channels the sample for a frame is the whole number next to the
/// sum divided by the number of channels, on the side of zero.
pub proof fn law_mean_rounds_toward_zero(frame: Seq<i16>, channels: usize)
    requires
        0 < channels <= 0x1_0000,
        frame.len() <= channels,
    ensures
        ({
            let sum = total(frame);
            let times = mean(frame, channels) * channels;
            &&& sum >= 0 ==> mean(frame, channels) >= 0 && times <= sum < times + channels
            &&& sum <= 0 ==> mean(frame, channels) <= 0 && times - channels < sum <= times
        }),
{
    law_mean_is_exact(frame, channels);
    let c = channels as int;
    let t = total(frame);
    let m = mean(frame, channels) as int;
    if t >= 0 {
        assert(m >= 0 && m * c <= t < m * c + c && (t == 0 ==> m == 0)) by (nonlinear_arith)
            requires
                m == t / c,
                t >= 0,
                c > 0,
        ;
        assert(t == 0 ==> m * c == 0) by (nonlinear_arith)
            requires
                t == 0 ==> m == 0,
        ;
    } else {
        assert(m <= 0 && m * c - c < t <= m * c) by (nonlinear_arith)
            requires
                m == -((-t) / c),
                t < 0,
                c > 0,
        ;
    }
}

/// Sample `k` of the mix is the mean of the samples from `k * channels` on, one for
/// each channel or what is left of them. One channel is left as it is.
pub proof fn law_frames_are_taken_in_order(data: Seq<i16>, channels: usize, k: int)
    requires
        channels > 1,
        0 <= k,
        k * channels < data.len(),
    ensures
        k < mono(data, channels).len(),
        k * channels + channels <= data.len() ==> mono(data, channels)[k] == mean(
            data.subrange(k * channels, k * channels + channels),
            channels,
        ),
        k * channels + channels > data.len() ==> mono(data, channels)[k] == mean(
            data.subrange(k * channels, data.len() as int),
            channels,
        ),
        mono(data, 1) == data,
{
    let c = channels as int;
    let len = data.len() as int;
    law_one_sample_per_frame(data, channels);
    assert(k < (len + c - 1) / c) by (nonlinear_arith)
        requires
            0 <= k,
            k * c < len,
            c > 1,
    ;
    assert(0 <= k * c) by (nonlinear_arith)
        requires
            0 <= k,
            c > 1,
    ;
    let frame = frame_at(data, channels, k);
    if k * c + c <= len {
        assert(frame =~= data.subrange(k * c, k * c + c));
    } else {
        assert(frame =~= data.subrange(k * c, len));
    }
}

/// Of two channels each sample of the mix is half the sum of left and right, rounded
/// toward zero, whatever their signs.
pub proof fn law_stereo_is_halved(data: Seq<i16>, k: int)
    requires
        0 <= k,
        2 * k + 1 < data.len(),
    ensures
        ({
            let left = data[2 * k] as int;
            let right = data[2 * k + 1] as int;
            &&& k < mono(data, 2).len()
            &&& left + right >= 0 ==> mono(data, 2)[k] == (left + right) / 2
            &&& left + right < 0 ==> mono(data, 2)[k] == -((-left - right) / 2)
        }),
{
    law_frames_are_taken_in_order(data, 2, k);
    let frame = data.subrange(2 * k, 2 * k + 2);
    assert(k * 2 == 2 * k);
    let left = seq![data[2 * k]];
    let right = seq![data[2 * k + 1]];
    assert(frame =~= left + right);
    law_sums_add_up(left, right, data[2 * k]);
    law_sums_add_up(left, right, data[2 * k + 1]);
    law_mean_is_exact(frame, 2);
}

/// The loudness of a sample is its distance from zero.
pub proof fn law_loudness_has_no_sign(sample: i16)
    ensures
        loudness(sample) >= sample,
        loudness(sample) >= -sample,
        loudness(sample) == sample || loudness(sample) == -sample,
{
}

/// Of two channels what is computed for each frame is half the sum of left and right,
/// rounded toward zero; one channel is left as it is.
pub proof fn law_mixed_samples(data: &[i16], stereo: Vec<i16>, single: Vec<i16>, k: int)
    requires
        call_ensures(i16_to_mono, (data, 2usize), stereo),
        call_ensures(i16_to_mono, (data, 1usize), single),
        0 <= k,
        2 * k + 1 < data@.len(),
    ensures
        single@ == data@,
        stereo@.len() == (data@.len() + 1) / 2,
        data@[2 * k] + data@[2 * k + 1] >= 0 ==> stereo@[k] == (data@[2 * k] + data@[2 * k + 1])
            / 2,
        data@[2 * k] + data@[2 * k + 1] < 0 ==> stereo@[k] == -((-data@[2 * k] - data@[2 * k + 1])
            / 2),
{
    law_stereo_is_halved(data@, k);
    law_one_sample_per_frame(data@, 2);
}

} // verus!
