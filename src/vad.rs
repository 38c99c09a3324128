//! The Voice-Activity Segmenter. Audio is signed 16-bit PCM; amplitudes and thresholds are
//! in sample units (full scale is 32768), zero-crossing rates in permille.
use vstd::math::abs;
use vstd::prelude::*;

verus! {

/// The sum of the squared samples.
pub open spec fn sum_sq(s: Seq<i16>) -> nat
    decreases s.len(),
{
    if s.len() == 0 {
        0
    } else {
        sum_sq(s.drop_last()) + ((s.last() as int) * (s.last() as int)) as nat
    }
}

/// The number of adjacent pairs whose signs differ (zero counts as positive).
pub open spec fn crossings(s: Seq<i16>) -> nat
    decreases s.len(),
{
    if s.len() < 2 {
        0
    } else {
        crossings(s.drop_last()) + if (s.last() >= 0) != (s[s.len() - 2] >= 0) {
            1nat
        } else {
            0nat
        }
    }
}

/// The root-mean-square amplitude of `s` exceeds `t`.
pub open spec fn rms_above(s: Seq<i16>, t: nat) -> bool {
    s.len() > 0 && sum_sq(s) > t * t * s.len()
}

/// The zero-crossing rate of `s` exceeds `permille` thousandths.
pub open spec fn zcr_above(s: Seq<i16>, permille: nat) -> bool {
    s.len() > 0 && crossings(s) * 1000 > permille * s.len()
}

/// `r` is the integer square root of `m`.
pub open spec fn is_isqrt(m: nat, r: nat) -> bool {
    r * r <= m < (r + 1) * (r + 1)
}

proof fn lemma_square_bound(x: int)
    requires
        -32768 <= x <= 32767,
    ensures
        0 <= x * x <= 0x4000_0000,
{
    assert(0 <= x * x <= 0x4000_0000) by (nonlinear_arith)
        requires
            -32768 <= x <= 32767,
    ;
}

/// The sum of squares of a frame, which fits in 94 bits.
pub fn sum_of_squares(frame: &[i16]) -> (r: u128)
    ensures
        r == sum_sq(frame@),
        r <= frame@.len() * 0x4000_0000,
{
    let mut acc: u128 = 0;
    let mut i: usize = 0;
    while i < frame.len()
        invariant
            i <= frame.len(),
            acc == sum_sq(frame@.subrange(0, i as int)),
            acc <= i * 0x4000_0000,
        decreases frame.len() - i,
    {
        let x = frame[i] as i64;
        proof {
            lemma_square_bound(x as int);
            assert(frame@.subrange(0, i + 1).drop_last() =~= frame@.subrange(0, i as int));
        }
        let sq = (x * x) as u128;
        acc = acc + sq;
        i = i + 1;
    }
    assert(frame@.subrange(0, frame@.len() as int) =~= frame@);
    acc
}

/// The number of sign changes between adjacent samples.
pub fn zero_crossings(frame: &[i16]) -> (r: u64)
    ensures
        r == crossings(frame@),
        r <= frame@.len(),
{
    if frame.len() < 2 {
        return 0;
    }
    let mut n: u64 = 0;
    let mut i: usize = 1;
    assert(frame@.subrange(0, 1).len() < 2);
    while i < frame.len()
        invariant
            1 <= i <= frame.len(),
            n == crossings(frame@.subrange(0, i as int)),
            n < i,
        decreases frame.len() - i,
    {
        proof {
            let s = frame@.subrange(0, i + 1);
            assert(s.drop_last() =~= frame@.subrange(0, i as int));
            assert(s.last() == frame@[i as int]);
            assert(s[s.len() - 2] == frame@[i - 1]);
        }
        if (frame[i] >= 0) != (frame[i - 1] >= 0) {
            n = n + 1;
        }
        i = i + 1;
    }
    assert(frame@.subrange(0, frame@.len() as int) =~= frame@);
    n
}

/// The integer square root of `m`, for `m` up to 2^30.
pub fn isqrt(m: u64) -> (r: u64)
    requires
        m <= 0x4000_0000,
    ensures
        is_isqrt(m as nat, r as nat),
{
    let mut lo: u64 = 0;
    let mut hi: u64 = 32769;
    assert(32769 * 32769 > 0x4000_0000) by (nonlinear_arith);
    while hi - lo > 1
        invariant
            lo < hi <= 32769,
            lo * lo <= m,
            m < hi * hi,
        decreases hi - lo,
    {
        let mid = lo + (hi - lo) / 2;
        assert(mid * mid <= 32769 * 32769) by (nonlinear_arith)
            requires
                mid <= 32769,
        ;
        if mid * mid <= m {
            lo = mid;
        } else {
            hi = mid;
        }
    }
    assert(hi == lo + 1);
    lo
}

/// The root-mean-square amplitude of a frame, rounded down; 0 for an empty frame.
pub fn frame_energy(frame: &[i16]) -> (r: u64)
    ensures
        frame@.len() == 0 ==> r == 0,
        frame@.len() > 0 ==> is_isqrt(sum_sq(frame@) / frame@.len(), r as nat),
{
    if frame.len() == 0 {
        return 0;
    }
    let total = sum_of_squares(frame);
    let n = frame.len() as u128;
    let mean = total / n;
    assert(mean <= 0x4000_0000) by (nonlinear_arith)
        requires
            total <= n * 0x4000_0000,
            n > 0,
            mean == total / n,
    ;
    isqrt(mean as u64)
}


proof fn lemma_constant_sum_sq(frame: Seq<i16>, a: i16)
    requires
        forall|i: int| 0 <= i < frame.len() ==> frame[i] == a,
    ensures
        sum_sq(frame) == frame.len() * ((a as int) * (a as int)),
    decreases frame.len(),
{
    if frame.len() > 0 {
        lemma_constant_sum_sq(frame.drop_last(), a);
        assert(frame.last() == a);
        assert((a as int) * (a as int) >= 0) by (nonlinear_arith);
        assert(frame.len() * ((a as int) * (a as int)) == (frame.len() - 1) * ((a as int) * (
        a as int)) + (a as int) * (a as int)) by (nonlinear_arith);
    }
}

/// An all-silence frame has no energy and is never active, whatever the thresholds.
pub proof fn lemma_silence_is_inactive(vad: VoiceActivityDetector, frame: Seq<i16>)
    requires
        forall|i: int| 0 <= i < frame.len() ==> frame[i] == 0,
    ensures
        sum_sq(frame) == 0,
        !vad.active(frame),
{
    lemma_constant_sum_sq(frame, 0);
    assert(frame.len() * (0int * 0int) == 0) by (nonlinear_arith);
}

/// A frame of constant amplitude `a` has an RMS energy of exactly `|a|`: the computed
/// energy is `|a|`, and it exceeds a threshold `t` exactly when `|a| > t`.
pub proof fn lemma_constant_frame_energy(frame: Seq<i16>, a: i16, t: nat)
    requires
        frame.len() > 0,
        forall|i: int| 0 <= i < frame.len() ==> frame[i] == a,
    ensures
        is_isqrt(sum_sq(frame) / frame.len(), abs(a as int)),
        rms_above(frame, t) <==> abs(a as int) > t,
{
    lemma_constant_sum_sq(frame, a);
    let n = frame.len() as int;
    let x = abs(a as int) as int;
    assert(x * x == (a as int) * (a as int)) by (nonlinear_arith)
        requires
            x == abs(a as int) as int,
    ;
    assert((n * (x * x)) / n == x * x) by (nonlinear_arith)
        requires
            n > 0,
    ;
    assert(x * x < (x + 1) * (x + 1)) by (nonlinear_arith)
        requires
            x >= 0,
    ;
    assert((x > t) <==> (x * x > t * t)) by (nonlinear_arith)
        requires
            x >= 0,
    ;
    assert((n * (x * x) > t * t * n) <==> (x * x > t * t)) by (nonlinear_arith)
        requires
            n > 0,
    ;
}

/// Whether the root-mean-square amplitude of `frame` reaches `threshold`; an empty frame
/// never does.
pub fn simple_energy_vad(frame: &[i16], threshold: u16) -> (r: bool)
    ensures
        r == (frame@.len() > 0 && sum_sq(frame@) >= threshold * threshold * frame@.len()),
{
    if frame.len() == 0 {
        return false;
    }
    let t = threshold as u128;
    let n = frame.len() as u128;
    assert(t * t <= 0xffff_ffff && t * t * n <= 0xffff_ffff * n) by (nonlinear_arith)
        requires
            t <= 0xffff,
    ;
    sum_of_squares(frame) >= t * t * n
}

/// Frame classification by energy and zero-crossing rate.
pub struct VoiceActivityDetector {
    pub energy_threshold: u16,
    pub zcr_threshold_permille: u16,
    pub min_speech_duration_ms: u64,
    pub max_silence_duration_ms: u64,
    pub frame_size: usize,
}

impl VoiceActivityDetector {
    /// Thresholds of 328 (one percent of full scale) and 300 permille, 300 ms of minimum
    /// speech, 1500 ms of silence to end, frames of 480 samples (30 ms at 16 kHz).
    pub fn new() -> (r: VoiceActivityDetector)
        ensures
            r.energy_threshold == 328 && r.zcr_threshold_permille == 300
                && r.min_speech_duration_ms == 300 && r.max_silence_duration_ms == 1500
                && r.frame_size == 480,
    {
        VoiceActivityDetector {
            energy_threshold: 328,
            zcr_threshold_permille: 300,
            min_speech_duration_ms: 300,
            max_silence_duration_ms: 1500,
            frame_size: 480,
        }
    }

    pub fn with_energy_threshold(self, threshold: u16) -> (r: VoiceActivityDetector)
        ensures
            r == (VoiceActivityDetector { energy_threshold: threshold, ..self }),
    {
        VoiceActivityDetector { energy_threshold: threshold, ..self }
    }

    pub fn with_silence_duration(self, duration_ms: u64) -> (r: VoiceActivityDetector)
        ensures
            r == (VoiceActivityDetector { max_silence_duration_ms: duration_ms, ..self }),
    {
        VoiceActivityDetector { max_silence_duration_ms: duration_ms, ..self }
    }

    /// A frame is active when it has at least `frame_size` samples and both its RMS energy
    /// and its zero-crossing rate exceed the thresholds.
    pub open spec fn active(&self, frame: Seq<i16>) -> bool {
        frame.len() >= self.frame_size && rms_above(frame, self.energy_threshold as nat)
            && zcr_above(frame, self.zcr_threshold_permille as nat)
    }

    /// Whether `frame` holds voice.
    pub fn detect_voice(&self, frame: &[i16]) -> (r: bool)
        ensures
            r == self.active(frame@),
    {
        if frame.len() < self.frame_size || frame.len() == 0 {
            return false;
        }
        let n = frame.len() as u128;
        let t = self.energy_threshold as u128;
        assert(t * t <= 0xffff_ffff && t * t * n <= 0xffff_ffff * n) by (nonlinear_arith)
            requires
                t <= 0xffff,
        ;
        let energy_ok = sum_of_squares(frame) > t * t * n;
        let z = zero_crossings(frame) as u128;
        let p = self.zcr_threshold_permille as u128;
        assert(p * n <= 0xffff * n) by (nonlinear_arith)
            requires
                p <= 0xffff,
        ;
        energy_ok && z * 1000 > p * n
    }

    /// The RMS amplitude of a frame, rounded down.
    pub fn calculate_energy(&self, frame: &[i16]) -> (r: u64)
        ensures
            frame@.len() == 0 ==> r == 0,
            frame@.len() > 0 ==> is_isqrt(sum_sq(frame@) / frame@.len(), r as nat),
    {
        frame_energy(frame)
    }

    /// The zero-crossing rate of a frame in permille, rounded down; 0 for an empty frame.
    pub fn calculate_zcr(&self, frame: &[i16]) -> (r: u64)
        ensures
            frame@.len() == 0 ==> r == 0,
            frame@.len() > 0 ==> r == crossings(frame@) * 1000 / frame@.len(),
    {
        if frame.len() == 0 {
            return 0;
        }
        let z = zero_crossings(frame) as u128;
        let n = frame.len() as u128;
        let q = z * 1000 / n;
        assert(q <= 1000) by (nonlinear_arith)
            requires
                z <= n,
                n > 0,
                q == (z * 1000) as int / n as int,
        ;
        q as u64
    }
}


/// The sum of the samples.
pub open spec fn sum_int(s: Seq<i16>) -> int
    decreases s.len(),
{
    if s.len() == 0 {
        0
    } else {
        sum_int(s.drop_last()) + s.last() as int
    }
}

/// Division that rounds toward zero, as Rust's integer division does.
pub open spec fn trunc_div(a: int, d: int) -> int {
    if a >= 0 {
        a / d
    } else {
        -((-a) / d)
    }
}

/// One sample per frame of `ch` interleaved channels: the channels' average, rounded toward
/// zero; a trailing partial frame is dropped.
pub open spec fn mono_of(data: Seq<i16>, ch: nat) -> Seq<i16> {
    if ch == 1 {
        data
    } else {
        Seq::new(
            data.len() / ch,
            |f: int| trunc_div(sum_int(data.subrange(f * ch, f * ch + ch)), ch as int) as i16,
        )
    }
}

/// Nearest-index resampling of `mono` from `from` Hz to `to` Hz: `len * to / from` samples,
/// the i-th taken from index `i * from / to`.
pub open spec fn resampled(mono: Seq<i16>, from: nat, to: nat) -> Seq<i16> {
    Seq::new(
        mono.len() * to / from,
        |i: int|
            {
                let j = i * (from as int) / (to as int);
                if j < mono.len() {
                    mono[j]
                } else {
                    0i16
                }
            },
    )
}

proof fn lemma_frame_in_bounds(f: int, ch: int, len: int)
    requires
        0 <= f < len / ch,
        ch > 0,
        len >= 0,
    ensures
        f * ch + ch <= len,
        0 <= f * ch,
{
    assert(f * ch + ch <= len && 0 <= f * ch) by (nonlinear_arith)
        requires
            0 <= f < len / ch,
            ch > 0,
            len >= 0,
    ;
}

/// The average of one frame of `ch` channels starting at `base`.
fn frame_average(data: &Vec<i16>, base: usize, ch: usize) -> (r: i16)
    requires
        ch > 0,
        ch <= 0xffff,
        base + ch <= data.len(),
    ensures
        r as int == trunc_div(sum_int(data@.subrange(base as int, base + ch)), ch as int),
{
    let mut sum: i64 = 0;
    let mut k: usize = 0;
    while k < ch
        invariant
            k <= ch <= 0xffff,
            base + ch <= data.len(),
            sum == sum_int(data@.subrange(base as int, base + k)),
            -32768 * k <= sum <= 32767 * k,
        decreases ch - k,
    {
        assert(data@.subrange(base as int, base + k + 1).drop_last() =~= data@.subrange(
            base as int,
            base + k,
        ));
        sum = sum + data[base + k] as i64;
        k = k + 1;
    }
    let c = ch as i64;
    if sum >= 0 {
        let q = sum / c;
        assert(q <= 32767) by (nonlinear_arith)
            requires
                sum <= 32767 * c,
                c > 0,
                sum >= 0,
                q as int == (sum as int) / (c as int),
        ;
        q as i16
    } else {
        let q = (-sum) / c;
        assert(q <= 32768) by (nonlinear_arith)
            requires
                -sum <= 32768 * c,
                c > 0,
                q as int == (-(sum as int)) / (c as int),
        ;
        (-q) as i16
    }
}

/// Interleaved samples with their format and capture time.
pub struct AudioChunk {
    pub data: Vec<i16>,
    pub sample_rate: u32,
    pub channels: u16,
    pub timestamp_ms: u64,
}

impl AudioChunk {
    pub fn new(data: Vec<i16>, sample_rate: u32, channels: u16, timestamp_ms: u64) -> (r:
        AudioChunk)
        ensures
            r.data@ == data@ && r.sample_rate == sample_rate && r.channels == channels
                && r.timestamp_ms == timestamp_ms,
    {
        AudioChunk { data, sample_rate, channels, timestamp_ms }
    }

    /// The samples mixed down to one channel.
    pub fn to_mono(&self) -> (r: Vec<i16>)
        requires
            self.channels >= 1,
        ensures
            r@ == mono_of(self.data@, self.channels as nat),
    {
        let ch = self.channels as usize;
        if ch == 1 {
            let mut out: Vec<i16> = Vec::new();
            let mut i: usize = 0;
            while i < self.data.len()
                invariant
                    i <= self.data@.len(),
                    out@ == self.data@.subrange(0, i as int),
                decreases self.data@.len() - i,
            {
                out.push(self.data[i]);
                i = i + 1;
                assert(out@ =~= self.data@.subrange(0, i as int));
            }
            assert(self.data@.subrange(0, self.data@.len() as int) =~= self.data@);
            return out;
        }
        let n = self.data.len();
        let frames = n / ch;
        let mut out: Vec<i16> = Vec::new();
        let mut f: usize = 0;
        while f < frames
            invariant
                n == self.data@.len(),
                ch == self.channels as usize,
                ch > 1,
                frames == self.data@.len() / (ch as nat),
                f <= frames,
                out@ =~= mono_of(self.data@, ch as nat).subrange(0, f as int),
            decreases frames - f,
        {
            proof {
                lemma_frame_in_bounds(f as int, ch as int, n as int);
            }
            let base = f * ch;
            let a = frame_average(&self.data, base, ch);
            out.push(a);
            f = f + 1;
            assert(out@ =~= mono_of(self.data@, ch as nat).subrange(0, f as int));
        }
        out
    }

    /// The samples in one channel at `target_rate` Hz, taken by nearest index.
    pub fn resample(&self, target_rate: u32) -> (r: Vec<i16>)
        requires
            self.channels >= 1,
            self.sample_rate > 0,
        ensures
            self.sample_rate == target_rate ==> r@ == mono_of(self.data@, self.channels as nat),
            self.sample_rate != target_rate ==> r@ == resampled(
                mono_of(self.data@, self.channels as nat),
                self.sample_rate as nat,
                target_rate as nat,
            ),
    {
        if self.sample_rate == target_rate {
            return self.to_mono();
        }
        let mono = self.to_mono();
        let from = self.sample_rate as u128;
        let to = target_rate as u128;
        let len = mono.len() as u128;
        assert(len * to <= 0xffff_ffff_ffff_ffff * 0xffff_ffff) by (nonlinear_arith)
            requires
                len <= 0xffff_ffff_ffff_ffff,
                to <= 0xffff_ffff,
        ;
        let target_len = len * to / from;
        assert(target_len <= len * to) by (nonlinear_arith)
            requires
                from > 0,
                target_len as int == (len * to) as int / (from as int),
        ;
        let ghost spec_r = resampled(mono@, from as nat, to as nat);
        let mut out: Vec<i16> = Vec::new();
        let mut i: u128 = 0;
        while i < target_len
            invariant
                target_len == spec_r.len(),
                i <= target_len,
                target_len <= 0xffff_ffff_ffff_ffff * 0xffff_ffff,
                from > 0,
                from <= 0xffff_ffff,
                to <= 0xffff_ffff,
                spec_r == resampled(mono@, from as nat, to as nat),
                out@ =~= spec_r.subrange(0, i as int),
                len == mono@.len(),
            decreases target_len - i,
        {
            assert(i * from <= 0xffff_ffff_ffff_ffff * 0xffff_ffff * 0xffff_ffff) by (
            nonlinear_arith)
                requires
                    i <= 0xffff_ffff_ffff_ffff * 0xffff_ffff,
                    from <= 0xffff_ffff,
            ;
            let j = i * from / to;
            let v: i16 = if j < len {
                mono[j as usize]
            } else {
                0
            };
            out.push(v);
            i = i + 1;
            assert(out@ =~= spec_r.subrange(0, i as int));
        }
        out
    }
}

/// Audio capture settings.
pub struct AudioConfig {
    pub sample_rate: u32,
    pub channels: u16,
    pub buffer_size: usize,
    pub device_name: Option<String>,
}

impl Default for AudioConfig {
    /// 16 kHz mono in blocks of 1024 samples, on the default device.
    fn default() -> (r: AudioConfig)
        ensures
            r.sample_rate == 16000 && r.channels == 1 && r.buffer_size == 1024
                && r.device_name is None,
    {
        AudioConfig { sample_rate: 16000, channels: 1, buffer_size: 1024, device_name: None }
    }
}

/// How many chunks of `buffer_size` samples at `sample_rate` Hz cover `duration_ms`
/// milliseconds, rounded down.
pub fn buffer_capacity(duration_ms: u64, sample_rate: u32, buffer_size: usize) -> (r: u128)
    requires
        buffer_size > 0,
    ensures
        r == (duration_ms * sample_rate) as int / (1000 * buffer_size) as int,
{
    let d = duration_ms as u128;
    let sr = sample_rate as u128;
    assert(d * sr <= 0xffff_ffff_ffff_ffff * 0xffff_ffff) by (nonlinear_arith)
        requires
            d <= 0xffff_ffff_ffff_ffff,
            sr <= 0xffff_ffff,
    ;
    let num = d * sr;
    let den = 1000 * buffer_size as u128;
    num / den
}

/// `b` with its oldest items dropped so that at most `max` remain.
pub open spec fn capped<T>(b: Seq<T>, max: nat) -> Seq<T> {
    if b.len() > max {
        b.subrange(b.len() - max, b.len() as int)
    } else {
        b
    }
}

/// Milliseconds from `then` to `now`; 0 when `now` is earlier.
pub open spec fn elapsed(now: u64, then: u64) -> u64 {
    if now >= then {
        (now - then) as u64
    } else {
        0
    }
}

/// What one chunk did to the segmenter.
pub enum SegmentEvent {
    /// No speech is in progress.
    Idle,
    /// This chunk started a segment.
    Started,
    /// A segment is in progress.
    Buffering,
    /// The segment ended shorter than the minimum speech duration and was dropped.
    Discarded,
    /// The segment ended; these are its buffered chunks, oldest first.
    Complete(Vec<AudioChunk>),
}

/// The segmenting state machine: idle until an active frame, then buffering every chunk in a
/// bounded buffer until the silence since the last active frame exceeds the maximum.
pub struct Segmenter {
    vad: VoiceActivityDetector,
    max_chunks: usize,
    speaking: bool,
    start_ms: u64,
    last_voice_ms: u64,
    buffer: Vec<AudioChunk>,
}

impl Segmenter {
    /// The frame classifier.
    pub closed spec fn detector(&self) -> VoiceActivityDetector {
        self.vad
    }

    /// The most chunks the buffer holds.
    pub closed spec fn capacity(&self) -> usize {
        self.max_chunks
    }

    pub closed spec fn speaking(&self) -> bool {
        self.speaking
    }

    pub closed spec fn start_ms(&self) -> u64 {
        self.start_ms
    }

    pub closed spec fn last_voice_ms(&self) -> u64 {
        self.last_voice_ms
    }

    pub closed spec fn buffer(&self) -> Seq<AudioChunk> {
        self.buffer@
    }

    /// Nothing is buffered while idle, and never more than `max_chunks`.
    pub open spec fn wf(&self) -> bool {
        &&& !self.speaking() ==> self.buffer().len() == 0
        &&& self.buffer().len() <= self.capacity()
    }

    /// An idle segmenter.
    pub fn new(vad: VoiceActivityDetector, max_chunks: usize) -> (r: Segmenter)
        ensures
            r.wf(),
            !r.speaking(),
            r.detector() == vad,
            r.capacity() == max_chunks,
    {
        Segmenter {
            vad,
            max_chunks,
            speaking: false,
            start_ms: 0,
            last_voice_ms: 0,
            buffer: Vec::new(),
        }
    }

    /// Feeds one chunk captured at `now_ms`.
    pub fn push_chunk(&mut self, chunk: AudioChunk, now_ms: u64) -> (ev: SegmentEvent)
        requires
            old(self).wf(),
            chunk.channels >= 1,
        ensures
            final(self).wf(),
            final(self).detector() == old(self).detector(),
            final(self).capacity() == old(self).capacity(),
            ({
                let s = *old(self);
                let voice = s.detector().active(mono_of(chunk.data@, chunk.channels as nat));
                let speaking = s.speaking() || voice;
                let start = if !s.speaking() && voice {
                    now_ms
                } else {
                    s.start_ms()
                };
                let last = if voice {
                    now_ms
                } else {
                    s.last_voice_ms()
                };
                let buf = if speaking {
                    capped(s.buffer().push(chunk), s.capacity() as nat)
                } else {
                    s.buffer()
                };
                let ended = speaking && elapsed(now_ms, last) > s.detector().max_silence_duration_ms;
                let t = *final(self);
                if !ended {
                    &&& t.speaking() == speaking
                    &&& t.start_ms() == start
                    &&& t.last_voice_ms() == last
                    &&& t.buffer() == buf
                    &&& if !s.speaking() && voice {
                        ev is Started
                    } else if speaking {
                        ev is Buffering
                    } else {
                        ev is Idle
                    }
                } else {
                    &&& !t.speaking()
                    &&& t.buffer().len() == 0
                    &&& if elapsed(now_ms, start) > s.detector().min_speech_duration_ms {
                        ev matches SegmentEvent::Complete(v) && v@ == buf
                    } else {
                        ev is Discarded
                    }
                }
            }),
    {
        let mono = chunk.to_mono();
        let voice = self.vad.detect_voice(&mono);
        let started = !self.speaking && voice;
        if voice {
            if !self.speaking {
                self.speaking = true;
                self.start_ms = now_ms;
            }
            self.last_voice_ms = now_ms;
        }
        if self.speaking {
            let ghost pushed = self.buffer@.push(chunk);
            self.buffer.push(chunk);
            let ghost fixed = (self.vad, self.max_chunks, self.speaking, self.start_ms, self.last_voice_ms);
            while self.buffer.len() > self.max_chunks
                invariant
                    fixed == (self.vad, self.max_chunks, self.speaking, self.start_ms, self.last_voice_ms),
                    self.buffer@ == pushed.subrange(
                        pushed.len() - self.buffer@.len(),
                        pushed.len() as int,
                    ),
                    self.buffer@.len() <= pushed.len(),
                    self.buffer@.len() < pushed.len() ==> self.buffer@.len() >= self.max_chunks,
                decreases self.buffer@.len(),
            {
                let ghost before = self.buffer@;
                let _evicted = self.buffer.remove(0);
                assert(self.buffer@ =~= pushed.subrange(
                    pushed.len() - self.buffer@.len(),
                    pushed.len() as int,
                ));
            }
            assert(self.buffer@ == capped(pushed, self.max_chunks as nat)) by {
                if self.buffer@.len() == pushed.len() {
                    assert(pushed.subrange(0, pushed.len() as int) =~= pushed);
                }
            };
        }
        let ghost buf = self.buffer@;
        if self.speaking {
            let silence = if now_ms >= self.last_voice_ms {
                now_ms - self.last_voice_ms
            } else {
                0
            };
            if silence > self.vad.max_silence_duration_ms {
                let speech = if now_ms >= self.start_ms {
                    now_ms - self.start_ms
                } else {
                    0
                };
                self.speaking = false;
                let mut seg: Vec<AudioChunk> = Vec::new();
                std::mem::swap(&mut seg, &mut self.buffer);
                if speech > self.vad.min_speech_duration_ms {
                    return SegmentEvent::Complete(seg);
                } else {
                    return SegmentEvent::Discarded;
                }
            }
        }
        if started {
            SegmentEvent::Started
        } else if self.speaking {
            SegmentEvent::Buffering
        } else {
            SegmentEvent::Idle
        }
    }
}

} // verus!
