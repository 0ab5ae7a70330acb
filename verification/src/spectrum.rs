//! The spectrum analyzer's bookkeeping: how many samples a span of playback
//! time stands for, which of them fill the transform window, and how the
//! transform's bins add up to display bars.
//!
//! Everything here is integer arithmetic. Samples are signed 16-bit values,
//! frequencies are in millihertz and magnitudes in a fixed-point unit that
//! the caller chooses; the frequency transform itself happens outside, between
//! `Analyzer::sample_audio` and `Analyzer::set_spectrum`.
use crate::{HANN_WINDOW_SIZE, NUM_BARS, TICK_RATE};
use vstd::prelude::*;

verus! {

/// Lower limit of the displayed frequency range, in millihertz.
pub const LOW_MILLIHERTZ: u64 = 40_000;

/// Upper limit of the displayed frequency range, in millihertz.
pub const HIGH_MILLIHERTZ: u64 = 5_000_000;

/// One output bin of the frequency transform.
#[derive(Debug, Clone, Copy, PartialEq, Eq)]
pub struct Bin {
    /// Frequency in millihertz.
    pub frequency: u64,
    /// Magnitude, not negative, in fixed-point units.
    pub magnitude: u64,
}

/// Number of frames that `elapsed_ms` milliseconds of playback hold.
pub open spec fn samples_due(sample_rate: int, elapsed_ms: int) -> int {
    sample_rate * elapsed_ms / 1000
}

/// Length of the scratch buffer: four ticks' worth of frames.
pub open spec fn scratch_size(sample_rate: int) -> int {
    TICK_RATE * 4 * sample_rate / 1000
}

/// The bar that a frequency falls into, of `bars` equal parts of the range
/// from `low` to `high`. A frequency at or below `low` falls into the first
/// bar, one at or above `high` into the last.
pub open spec fn bucket_of(frequency: int, low: int, high: int, bars: int) -> int {
    let raw = if frequency <= low {
        0
    } else {
        (frequency - low) * bars / (high - low)
    };
    if raw >= bars {
        bars - 1
    } else {
        raw
    }
}

/// Sum of the magnitudes of the bins that fall into bar `k`.
pub open spec fn bucket_total(bins: Seq<Bin>, low: int, high: int, bars: int, k: int) -> nat
    decreases bins.len(),
{
    if bins.len() == 0 {
        0
    } else {
        let rest = bucket_total(bins.drop_last(), low, high, bars, k);
        if bucket_of(bins.last().frequency as int, low, high, bars) == k {
            (rest + bins.last().magnitude) as nat
        } else {
            rest
        }
    }
}

/// A total as a bar holds it: capped at the largest `u64`.
pub open spec fn saturated(total: nat) -> u64 {
    if total > u64::MAX {
        u64::MAX
    } else {
        total as u64
    }
}

/// The bars that a transform's bins add up to.
pub open spec fn bar_values(bins: Seq<Bin>, low: int, high: int, bars: int) -> Seq<u64> {
    Seq::new(bars as nat, |k: int| saturated(bucket_total(bins, low, high, bars, k)))
}

/// Number of frames that `elapsed_ms` milliseconds of playback hold at
/// `sample_rate` frames per second.
pub fn samples_for(sample_rate: u32, elapsed_ms: u32) -> (frames: u64)
    ensures
        frames == samples_due(sample_rate as int, elapsed_ms as int),
{
    assert(sample_rate * elapsed_ms <= 0xFFFF_FFFF * 0xFFFF_FFFF) by (nonlinear_arith)
        requires
            sample_rate <= 0xFFFF_FFFF,
            elapsed_ms <= 0xFFFF_FFFF,
    ;
    (sample_rate as u64) * (elapsed_ms as u64) / 1000
}

/// Length of the scratch buffer for a source of `sample_rate` frames per
/// second.
pub fn scratch_len(sample_rate: u32) -> (len: usize)
    ensures
        len == scratch_size(sample_rate as int),
{
    let span_ms: u64 = TICK_RATE * 4;
    assert(span_ms == 200);
    assert(span_ms * sample_rate == 200 * sample_rate) by (nonlinear_arith)
        requires
            span_ms == 200,
    ;
    assert(TICK_RATE * 4 * sample_rate == span_ms * sample_rate);
    let len: u64 = span_ms * (sample_rate as u64) / 1000;
    len as usize
}

/// The index of the bar that `frequency` falls into.
pub fn bucket_index(frequency: u64, low: u64, high: u64, bars: usize) -> (index: usize)
    requires
        low < high,
        bars > 0,
    ensures
        index == bucket_of(frequency as int, low as int, high as int, bars as int),
        index < bars,
{
    if frequency <= low {
        return 0;
    }
    let span: u128 = (high - low) as u128;
    let offset: u128 = (frequency - low) as u128;
    assert(offset * bars <= 0xFFFF_FFFF_FFFF_FFFF * 0xFFFF_FFFF_FFFF_FFFF) by (nonlinear_arith)
        requires
            0 <= offset <= 0xFFFF_FFFF_FFFF_FFFF,
            0 <= bars <= 0xFFFF_FFFF_FFFF_FFFF,
    ;
    let raw: u128 = offset * (bars as u128) / span;
    if raw >= bars as u128 {
        bars - 1
    } else {
        raw as usize
    }
}

/// Adds the magnitude of every bin to the bar that its frequency falls into.
/// The bars start from zero, and a bar that would exceed a `u64` stays at
/// the largest one.
pub fn accumulate(bins: &Vec<Bin>, low: u64, high: u64, bars: usize) -> (out: Vec<u64>)
    requires
        low < high,
        bars > 0,
    ensures
        out@ == bar_values(bins@, low as int, high as int, bars as int),
{
    let mut out: Vec<u64> = Vec::new();
    while out.len() < bars
        invariant
            out.len() <= bars,
            forall|k: int| 0 <= k < out.len() ==> out[k] == 0,
        decreases bars - out.len(),
    {
        out.push(0);
    }
    let mut i: usize = 0;
    assert(bins@.take(0) =~= Seq::<Bin>::empty());
    while i < bins.len()
        invariant
            i <= bins.len(),
            low < high,
            bars > 0,
            out.len() == bars,
            forall|k: int|
                0 <= k < bars ==> out[k] == saturated(
                    #[trigger] bucket_total(bins@.take(i as int), low as int, high as int, bars as int, k),
                ),
        decreases bins.len() - i,
    {
        let bin = bins[i];
        let k: usize = bucket_index(bin.frequency, low, high, bars);
        let sum: u64 = out[k].saturating_add(bin.magnitude);
        let ghost before = out@;
        out.set(k, sum);
        proof {
            let next = bins@.take(i + 1);
            assert(next.drop_last() =~= bins@.take(i as int));
            assert(next.last() == bin);
            assert forall|j: int| 0 <= j < bars implies out[j] == saturated(
                #[trigger] bucket_total(next, low as int, high as int, bars as int, j),
            ) by {
                assert(before[j] == saturated(
                    bucket_total(bins@.take(i as int), low as int, high as int, bars as int, j),
                ));
            }
        }
        i += 1;
    }
    assert(bins@.take(bins.len() as int) =~= bins@);
    assert(out@ =~= bar_values(bins@, low as int, high as int, bars as int));
    out
}

/// Bins without magnitude leave every bar at zero.
pub proof fn lemma_silence_gives_zero_bars(bins: Seq<Bin>, low: int, high: int, bars: int)
    requires
        bars > 0,
        forall|i: int| 0 <= i < bins.len() ==> bins[i].magnitude == 0,
    ensures
        forall|k: int| 0 <= k < bars ==> bar_values(bins, low, high, bars)[k] == 0,
{
    assert forall|k: int| 0 <= k < bars implies bar_values(bins, low, high, bars)[k] == 0 by {
        lemma_silent_bucket(bins, low, high, bars, k);
    }
}

/// Bins without magnitude add up to zero in every bar.
pub proof fn lemma_silent_bucket(bins: Seq<Bin>, low: int, high: int, bars: int, k: int)
    requires
        forall|i: int| 0 <= i < bins.len() ==> bins[i].magnitude == 0,
    ensures
        bucket_total(bins, low, high, bars, k) == 0,
    decreases bins.len(),
{
    if bins.len() > 0 {
        lemma_silent_bucket(bins.drop_last(), low, high, bars, k);
    }
}

/// The bar of a frequency is always one of the bars: the lower limit of the
/// range falls into the first, and the upper limit, whose quotient points one
/// past the last bar, into the last.
pub proof fn lemma_bucket_in_range(frequency: int, low: int, high: int, bars: int)
    requires
        low < high,
        bars > 0,
    ensures
        0 <= bucket_of(frequency, low, high, bars) < bars,
        frequency <= low ==> bucket_of(frequency, low, high, bars) == 0,
        frequency >= high ==> bucket_of(frequency, low, high, bars) == bars - 1,
{
    if frequency > low {
        assert((frequency - low) * bars / (high - low) >= 0) by (nonlinear_arith)
            requires
                frequency > low,
                bars > 0,
                high > low,
        ;
    }
    if frequency >= high {
        assert((frequency - low) * bars / (high - low) >= bars) by (nonlinear_arith)
            requires
                frequency >= high,
                bars > 0,
                high > low,
        ;
    }
}

/// The analyzer's state as plain values.
pub struct AnalyzerState {
    /// Frames per second of the source.
    pub sample_rate: u32,
    /// Samples per frame.
    pub channels: u16,
    /// Every sample of the decoded track, frame after frame.
    pub source: Seq<i16>,
    /// How many samples of the source have been drained.
    pub cursor: int,
    /// The scratch buffer, whose front is the transform window.
    pub buf: Seq<i16>,
    /// The display bars.
    pub bars: Seq<u64>,
}

impl AnalyzerState {
    /// What every analyzer keeps.
    pub open spec fn wf(self) -> bool {
        &&& self.channels >= 1
        &&& 0 <= self.cursor <= self.source.len()
        &&& self.buf.len() == scratch_size(self.sample_rate as int)
        &&& self.bars.len() == NUM_BARS
    }

    /// Length of the transform window: the window size, or the whole
    /// scratch buffer where that is shorter.
    pub open spec fn window_len(self) -> int {
        if self.buf.len() < HANN_WINDOW_SIZE {
            self.buf.len() as int
        } else {
            HANN_WINDOW_SIZE as int
        }
    }

    /// The samples that the frequency transform is given.
    pub open spec fn window(self) -> Seq<i16> {
        self.buf.take(self.window_len())
    }

    /// The first channel's sample of the `i`-th frame from the cursor on;
    /// zero behind the end of the source.
    pub open spec fn frame_sample(self, i: int) -> i16 {
        let at = self.cursor + i * self.channels;
        if at < self.source.len() {
            self.source[at]
        } else {
            0
        }
    }

    /// The state after `elapsed_ms` milliseconds of playback were sampled:
    /// the cursor has moved over every sample of the frames that the time
    /// stands for, and the first channel of those frames fills the window
    /// from its start, as far as the window reaches.
    pub open spec fn sample(self, elapsed_ms: u32) -> AnalyzerState {
        let frames = samples_due(self.sample_rate as int, elapsed_ms as int);
        let drained = self.cursor + frames * self.channels;
        AnalyzerState {
            sample_rate: self.sample_rate,
            channels: self.channels,
            source: self.source,
            cursor: if drained < self.source.len() {
                drained
            } else {
                self.source.len() as int
            },
            buf: Seq::new(
                self.buf.len(),
                |i: int|
                    if i < frames && i < self.window_len() {
                        self.frame_sample(i)
                    } else {
                        self.buf[i]
                    },
            ),
            bars: self.bars,
        }
    }

    /// The state after the transform's bins were put into the bars.
    pub open spec fn with_spectrum(self, bins: Seq<Bin>) -> AnalyzerState {
        AnalyzerState {
            sample_rate: self.sample_rate,
            channels: self.channels,
            source: self.source,
            cursor: self.cursor,
            buf: self.buf,
            bars: bar_values(
                bins,
                LOW_MILLIHERTZ as int,
                HIGH_MILLIHERTZ as int,
                NUM_BARS as int,
            ),
        }
    }
}

/// Follows a decoded track at the pace of playback and keeps the display
/// bars of its current window.
pub struct Analyzer {
    sample_rate: u32,
    channels: u16,
    source: Vec<i16>,
    cursor: usize,
    buf: Vec<i16>,
    bars: Vec<u64>,
}

impl View for Analyzer {
    type V = AnalyzerState;

    closed spec fn view(&self) -> AnalyzerState {
        AnalyzerState {
            sample_rate: self.sample_rate,
            channels: self.channels,
            source: self.source@,
            cursor: self.cursor as int,
            buf: self.buf@,
            bars: self.bars@,
        }
    }
}

/// A vector of `len` zero samples.
fn silence(len: usize) -> (out: Vec<i16>)
    ensures
        out.len() == len,
        forall|i: int| 0 <= i < len ==> out[i] == 0,
{
    let mut out: Vec<i16> = Vec::new();
    while out.len() < len
        invariant
            out.len() <= len,
            forall|i: int| 0 <= i < out.len() ==> out[i] == 0,
        decreases len - out.len(),
    {
        out.push(0);
    }
    out
}

impl Analyzer {
    /// An analyzer at the start of `source`, the interleaved samples of a
    /// track with `channels` samples per frame and `sample_rate` frames per
    /// second. The scratch buffer and the bars start from zero.
    pub fn new(source: Vec<i16>, sample_rate: u32, channels: u16) -> (analyzer: Analyzer)
        requires
            channels >= 1,
        ensures
            analyzer@.wf(),
            analyzer@.sample_rate == sample_rate,
            analyzer@.channels == channels,
            analyzer@.source == source@,
            analyzer@.cursor == 0,
            analyzer@.buf == Seq::new(scratch_size(sample_rate as int) as nat, |i: int| 0i16),
            analyzer@.bars == Seq::new(NUM_BARS as nat, |k: int| 0u64),
    {
        let buf = silence(scratch_len(sample_rate));
        let empty: Vec<Bin> = Vec::new();
        let bars = accumulate(&empty, LOW_MILLIHERTZ, HIGH_MILLIHERTZ, NUM_BARS);
        assert(buf@ =~= Seq::new(scratch_size(sample_rate as int) as nat, |i: int| 0i16));
        assert(bars@ =~= Seq::new(NUM_BARS as nat, |k: int| 0u64));
        Analyzer { sample_rate, channels, source, cursor: 0, buf, bars }
    }

    /// Frames per second of the source.
    pub fn sample_rate(&self) -> (rate: u32)
        ensures
            rate == self@.sample_rate,
    {
        self.sample_rate
    }

    /// Samples per frame of the source.
    pub fn channels(&self) -> (channels: u16)
        ensures
            channels == self@.channels,
    {
        self.channels
    }

    /// How many samples of the source have been drained so far.
    pub fn position(&self) -> (cursor: usize)
        ensures
            cursor == self@.cursor,
    {
        self.cursor
    }

    /// Samples the audio of the `elapsed` milliseconds that have passed:
    /// drains the frames that this time stands for and puts the first
    /// channel of each into the window, from its start, as long as the
    /// window has room. Frames behind the end of the source count as zero.
    /// Window positions that no frame reached keep their sample.
    pub fn sample_audio(&mut self, elapsed: u32)
        requires
            old(self)@.wf(),
        ensures
            final(self)@.wf(),
            final(self)@ == old(self)@.sample(elapsed),
            elapsed == 0 ==> final(self)@ == old(self)@,
    {
        proof {
            lemma_sample_nothing(self@);
        }
        let frames: u64 = samples_for(self.sample_rate, elapsed);
        let window: usize = if self.buf.len() < HANN_WINDOW_SIZE {
            self.buf.len()
        } else {
            HANN_WINDOW_SIZE
        };
        let fill: usize = if frames < window as u64 {
            frames as usize
        } else {
            window
        };
        let total: usize = self.source.len();
        let remaining: usize = total - self.cursor;
        let channels: u64 = self.channels as u64;
        let ghost before = self@;
        let mut i: usize = 0;
        while i < fill
            invariant
                i <= fill <= window <= HANN_WINDOW_SIZE,
                window == before.window_len(),
                fill <= frames,
                channels == before.channels,
                total == before.source.len(),
                remaining == total - before.cursor,
                before.wf(),
                self.sample_rate == before.sample_rate,
                self.channels == before.channels,
                self.source@ == before.source,
                self.cursor == before.cursor,
                self.bars@ == before.bars,
                self.buf.len() == before.buf.len(),
                forall|j: int| 0 <= j < i ==> self.buf[j] == before.frame_sample(j),
                forall|j: int| i <= j < self.buf.len() ==> self.buf[j] == before.buf[j],
            decreases fill - i,
        {
            assert(i * channels <= 2048 * 0xFFFF) by (nonlinear_arith)
                requires
                    i <= 2048,
                    channels <= 0xFFFF,
            ;
            let offset: usize = i * (self.channels as usize);
            let value: i16 = if offset < remaining {
                self.source[self.cursor + offset]
            } else {
                0
            };
            self.buf.set(i, value);
            i += 1;
        }
        assert(frames * channels <= 0xFFFF_FFFF_FFFF_FFFF * 0xFFFF) by (nonlinear_arith)
            requires
                frames <= 0xFFFF_FFFF_FFFF_FFFF,
                channels <= 0xFFFF,
        ;
        let drained: u128 = (frames as u128) * (channels as u128);
        if drained < remaining as u128 {
            self.cursor = self.cursor + drained as usize;
        } else {
            self.cursor = total;
        }
        assert(self@.buf =~= before.sample(elapsed).buf);
    }

    /// The window to hand to the frequency transform: the front of the
    /// scratch buffer.
    pub fn window(&self) -> (window: Vec<i16>)
        requires
            self@.wf(),
        ensures
            window@ == self@.window(),
    {
        let len: usize = if self.buf.len() < HANN_WINDOW_SIZE {
            self.buf.len()
        } else {
            HANN_WINDOW_SIZE
        };
        let mut window: Vec<i16> = Vec::new();
        let mut i: usize = 0;
        while i < len
            invariant
                i <= len <= self.buf.len(),
                window@ == self.buf@.take(i as int),
            decreases len - i,
        {
            window.push(self.buf[i]);
            assert(self.buf@.take(i + 1) =~= self.buf@.take(i as int).push(self.buf[i as int]));
            i += 1;
        }
        window
    }

    /// Replaces the bars by what the transform's bins add up to: each bin
    /// goes to the bar of its frequency, of `NUM_BARS` equal parts of the
    /// range from `LOW_MILLIHERTZ` to `HIGH_MILLIHERTZ`, and the magnitudes
    /// in one bar are summed. Nothing of the bars before remains.
    pub fn set_spectrum(&mut self, bins: &Vec<Bin>)
        requires
            old(self)@.wf(),
        ensures
            final(self)@.wf(),
            final(self)@ == old(self)@.with_spectrum(bins@),
    {
        self.bars = accumulate(bins, LOW_MILLIHERTZ, HIGH_MILLIHERTZ, NUM_BARS);
    }

    /// The current bars, as the last `set_spectrum` left them.
    pub fn get_spectrum(&self) -> (bars: &Vec<u64>)
        ensures
            bars@ == self@.bars,
    {
        &self.bars
    }
}

/// Sampling no time at all drains nothing and changes nothing: not the
/// window, not the bars.
pub proof fn lemma_sample_nothing(s: AnalyzerState)
    requires
        s.wf(),
    ensures
        s.sample(0) == s,
{
    assert(s.sample(0).buf =~= s.buf);
}

/// A transform without magnitude, as that of a silent window, leaves every
/// bar of the analyzer at zero.
pub proof fn lemma_silent_spectrum(s: AnalyzerState, bins: Seq<Bin>)
    requires
        forall|i: int| 0 <= i < bins.len() ==> bins[i].magnitude == 0,
    ensures
        s.with_spectrum(bins).bars == Seq::new(NUM_BARS as nat, |k: int| 0u64),
{
    lemma_silence_gives_zero_bars(
        bins,
        LOW_MILLIHERTZ as int,
        HIGH_MILLIHERTZ as int,
        NUM_BARS as int,
    );
    assert(s.with_spectrum(bins).bars =~= Seq::new(NUM_BARS as nat, |k: int| 0u64));
}

/// The bars after a transform are those of its bins alone: whatever the
/// bars held before, the same bins give the same bars, each counted from
/// zero.
pub proof fn lemma_bars_start_from_zero(s: AnalyzerState, t: AnalyzerState, bins: Seq<Bin>)
    ensures
        s.with_spectrum(bins).bars == t.with_spectrum(bins).bars,
        s.with_spectrum(Seq::empty()).bars == Seq::new(NUM_BARS as nat, |k: int| 0u64),
{
    assert(s.with_spectrum(Seq::empty()).bars =~= Seq::new(NUM_BARS as nat, |k: int| 0u64));
}

} // verus!
