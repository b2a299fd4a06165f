use rand::rngs::StdRng;
use rand::Rng;
use vstd::prelude::*;

use crate::wave::{harmonic, Sample, WaveType};

verus! {

/// rand's standard generator, carried through the oscillator as an opaque value.
#[verifier::external_type_specification]
#[verifier::external_body]
pub struct ExStdRng(StdRng);

/// Relies on rand's `Rng::random::<u32>` on `StdRng`: it hands out the
/// generator's next 32-bit word and advances the generator. Any word may come back.
#[verifier::external_body]
fn draw_word(rng: &mut StdRng) -> (r: u32) {
    rng.random::<u32>()
}

/// The oscillator's state as mathematics, without its noise generator.
pub struct OscState {
    pub wave: WaveType,
    /// Samples per second, in hertz.
    pub sample_rate: nat,
    /// Oscillation rate, in centihertz.
    pub frequency: nat,
    /// The phase index in samples is `phase / scale`.
    pub phase: nat,
    /// The frequency, in centihertz, against which the phase was last wrapped.
    pub scale: nat,
}

/// The length of one period expressed in units of `1 / frequency` samples,
/// whatever the frequency: `period * frequency = 100 * sample_rate`.
pub open spec fn cycle(sample_rate: nat) -> nat {
    100 * sample_rate
}

/// Harmonic `k` of `frequency` lies strictly below half the sample rate.
pub open spec fn below_nyquist(frequency: nat, sample_rate: nat, k: int) -> bool {
    frequency * k < 50 * sample_rate
}

/// How many harmonics `1, 1 + step, 1 + 2 * step, ...` lie below half the sample rate.
pub open spec fn partial_count(frequency: nat, sample_rate: nat, step: nat) -> nat {
    if frequency >= 50 * sample_rate {
        0
    } else {
        (((50 * sample_rate - 1) as int / frequency as int - 1) / step as int + 1) as nat
    }
}

impl OscState {
    /// Positive rate and frequency, and a phase index inside the last period.
    pub open spec fn valid(self) -> bool {
        &&& 0 < self.sample_rate <= u32::MAX
        &&& 0 < self.frequency <= u32::MAX
        &&& 0 < self.scale <= u32::MAX
        &&& self.phase < cycle(self.sample_rate)
    }
}

/// The phase after one more sample: the phase index `phase / scale` plus one,
/// wrapped modulo the period of the current frequency, and written over the
/// current frequency (rounded down when the frequency changed since the last tick).
pub open spec fn next_phase(s: OscState) -> nat {
    ((((s.phase + s.scale) * s.frequency) as int % (cycle(s.sample_rate) * s.scale) as int)
        / s.scale as int) as nat
}

/// The state after one tick.
pub open spec fn advance(s: OscState) -> OscState {
    OscState { phase: next_phase(s), scale: s.frequency, ..s }
}

/// The state after `n` ticks.
pub open spec fn advance_n(s: OscState, n: nat) -> OscState
    decreases n,
{
    if n == 0 {
        s
    } else {
        advance(advance_n(s, (n - 1) as nat))
    }
}

/// The state after `set_frequency(hz)`: a zero frequency is refused.
pub open spec fn with_frequency(s: OscState, hz: nat) -> OscState {
    if hz > 0 {
        OscState { frequency: hz, ..s }
    } else {
        s
    }
}

/// A series of partials over the current phase of `s`.
pub open spec fn partials(s: OscState, step: nat, count: nat, rolloff: u32) -> Sample {
    Sample::Partials {
        position: s.phase as u64,
        cycle: cycle(s.sample_rate) as u64,
        step: step as u64,
        count: count as u64,
        rolloff,
    }
}

/// The sample that a tick ending in state `s` yields; `None` for noise, which is drawn.
pub open spec fn tone(s: OscState) -> Option<Sample> {
    match s.wave {
        WaveType::Sine => Some(partials(s, 1, 1, 1)),
        WaveType::Square => Some(partials(s, 2, partial_count(s.frequency, s.sample_rate, 2), 1)),
        WaveType::SquareClassic => Some(
            Sample::Level { high: 2 * s.phase > cycle(s.sample_rate) },
        ),
        WaveType::Sawtooth => Some(partials(s, 1, partial_count(s.frequency, s.sample_rate, 1), 1)),
        WaveType::Triangle => Some(partials(s, 2, partial_count(s.frequency, s.sample_rate, 2), 2)),
        WaveType::Noise => None,
    }
}

/// `a * b <= x` exactly when `b <= x / a`.
proof fn lemma_mul_le_iff_le_div(a: int, b: int, x: int)
    requires
        a > 0,
        b >= 0,
        x >= 0,
    ensures
        (a * b <= x) == (b <= x / a),
{
    let q = x / a;
    vstd::arithmetic::div_mod::lemma_fundamental_div_mod(x, a);
    vstd::arithmetic::div_mod::lemma_mod_bound(x, a);
    if b <= q {
        assert(a * b <= a * q) by (nonlinear_arith)
            requires
                a > 0,
                b <= q,
        ;
    } else {
        assert(a * b >= a * q + a) by (nonlinear_arith)
            requires
                a > 0,
                b >= q + 1,
        ;
    }
}

/// The count is that of the harmonics below half the sample rate, and no other.
pub proof fn lemma_partial_count(frequency: nat, sample_rate: nat, step: nat)
    requires
        frequency > 0,
        sample_rate > 0,
        step > 0,
    ensures
        forall|j: int|
            0 <= j ==> (below_nyquist(frequency, sample_rate, #[trigger] harmonic(step as int, j))
                <==> j < partial_count(frequency, sample_rate, step)),
{
    let x = 50 * sample_rate - 1;
    let kmax = x / frequency as int;
    assert forall|j: int| 0 <= j implies (below_nyquist(
        frequency,
        sample_rate,
        #[trigger] harmonic(step as int, j),
    ) <==> j < partial_count(frequency, sample_rate, step)) by {
        let k = harmonic(step as int, j);
        assert(step * j >= 0) by (nonlinear_arith)
            requires
                j >= 0,
        ;
        lemma_mul_le_iff_le_div(frequency as int, k, x);
        if frequency >= 50 * sample_rate {
            assert(frequency * k >= frequency) by (nonlinear_arith)
                requires
                    k >= 1,
                    frequency > 0,
            ;
        } else {
            lemma_mul_le_iff_le_div(frequency as int, 1, x);
            lemma_mul_le_iff_le_div(step as int, j, kmax - 1);
        }
    }
}

/// Counts the harmonics `1, 1 + step, ...` that lie below half the sample rate.
fn harmonics_below_nyquist(frequency: u32, sample_rate: u32, step: u64) -> (r: u64)
    requires
        frequency > 0,
        sample_rate > 0,
        step > 0,
    ensures
        r == partial_count(frequency as nat, sample_rate as nat, step as nat),
        forall|j: int| 0 <= j < r ==> below_nyquist(frequency as nat, sample_rate as nat, #[trigger] harmonic(step as int, j)),
        !below_nyquist(frequency as nat, sample_rate as nat, harmonic(step as int, r as int)),
{
    proof {
        lemma_partial_count(frequency as nat, sample_rate as nat, step as nat);
    }
    let nyquist: u64 = 50 * (sample_rate as u64);
    if (frequency as u64) >= nyquist {
        return 0;
    }
    let top: u64 = (nyquist - 1) / (frequency as u64);
    assert(top >= 1) by {
        lemma_mul_le_iff_le_div(frequency as int, 1, nyquist - 1);
    }
    (top - 1) / step + 1
}

/// Wraps phase index `phase / scale`, advanced by one sample, modulo the period
/// `100 * sample_rate / frequency`, and returns it over `frequency`.
fn wrap_phase(phase: u64, scale: u32, frequency: u32, sample_rate: u32) -> (r: u64)
    requires
        0 < scale,
        0 < frequency,
        0 < sample_rate,
        phase < cycle(sample_rate as nat),
    ensures
        r == next_phase(
            OscState {
                wave: WaveType::Sine,
                sample_rate: sample_rate as nat,
                frequency: frequency as nat,
                phase: phase as nat,
                scale: scale as nat,
            },
        ),
        r < cycle(sample_rate as nat),
{
    let m: u128 = 100 * (sample_rate as u128);
    let d: u128 = scale as u128;
    let f: u128 = frequency as u128;
    assert((phase as int + d) * f <= (0x10000000000u128 as int) * 0x100000000u128 as int) by (nonlinear_arith)
        requires
            phase < 0x10000000000u128 - 0x100000000u128,
            d < 0x100000000u128,
            f < 0x100000000u128,
    ;
    assert(m * d <= (0x10000000000u128 as int) * 0x100000000u128 as int) by (nonlinear_arith)
        requires
            m < 0x10000000000u128,
            d < 0x100000000u128,
    ;
    assert(m * d > 0) by (nonlinear_arith)
        requires
            m > 0,
            d > 0,
    ;
    let x: u128 = (phase as u128 + d) * f;
    let w: u128 = x % (m * d);
    let r: u128 = w / d;
    proof {
        vstd::arithmetic::div_mod::lemma_mod_bound(x as int, (m * d) as int);
        assert(d * m == m * d) by (nonlinear_arith);
        vstd::arithmetic::div_mod::lemma_multiply_divide_lt(w as int, d as int, m as int);
    }
    r as u64
}

/// The noise value of a drawn word: its top 24 bits, so that `2 * value / 2^24 - 1`
/// is spread evenly over `[-1, 1)`.
pub fn noise_value(word: u32) -> (r: u32)
    ensures
        r as int == word as int / 0x100,
        r < 0x1000000,
{
    assert(word >> 8u32 == word / 0x100u32) by (bit_vector);
    word >> 8
}

/// A real-time oscillator: one call of `tick` per output sample.
pub struct Synth {
    pub wave_type: WaveType,
    /// Samples per second, in hertz.
    pub sample_rate: u32,
    /// Oscillation rate, in centihertz.
    pub frequency: u32,
    /// The phase index in samples is `phase / phase_scale`.
    pub phase: u64,
    /// The frequency, in centihertz, against which the phase was last wrapped.
    pub phase_scale: u32,
    /// The generator of the noise waveform, used by nothing else.
    pub rng: StdRng,
}

impl View for Synth {
    type V = OscState;

    open spec fn view(&self) -> OscState {
        OscState {
            wave: self.wave_type,
            sample_rate: self.sample_rate as nat,
            frequency: self.frequency as nat,
            phase: self.phase as nat,
            scale: self.phase_scale as nat,
        }
    }
}

impl Synth {
    /// An oscillator at phase index zero; `None` when the sample rate or the
    /// frequency is zero.
    pub fn new(wave_type: WaveType, sample_rate: u32, frequency: u32, rng: StdRng) -> (r: Option<
        Synth,
    >)
        ensures
            r is None <==> (sample_rate == 0 || frequency == 0),
            r matches Some(s) ==> (s@ == (OscState {
                wave: wave_type,
                sample_rate: sample_rate as nat,
                frequency: frequency as nat,
                phase: 0,
                scale: frequency as nat,
            }) && s.rng == rng && s@.valid()),
    {
        if sample_rate == 0 || frequency == 0 {
            return None;
        }
        Some(Synth { wave_type, sample_rate, frequency, phase: 0, phase_scale: frequency, rng })
    }

    /// Advances the phase by one sample and yields the sample of the current
    /// waveform there.
    pub fn tick(&mut self) -> (r: Sample)
        requires
            old(self)@.valid(),
        ensures
            final(self)@ == advance(old(self)@),
            final(self)@.valid(),
            old(self).wave_type != WaveType::Noise ==> tone(final(self)@) == Some(r)
                && final(self).rng == old(self).rng,
            old(self).wave_type == WaveType::Noise ==> (r matches Sample::Noise { value } && value
                < 0x1000000 && exists|word: u32| value == #[trigger] (word / 0x100)),
    {
        self.phase = wrap_phase(self.phase, self.phase_scale, self.frequency, self.sample_rate);
        self.phase_scale = self.frequency;
        let position: u64 = self.phase;
        let cycle: u64 = 100 * (self.sample_rate as u64);
        match self.wave_type {
            WaveType::Sine => Sample::Partials { position, cycle, step: 1, count: 1, rolloff: 1 },
            WaveType::Square => {
                let count = harmonics_below_nyquist(self.frequency, self.sample_rate, 2);
                Sample::Partials { position, cycle, step: 2, count, rolloff: 1 }
            },
            WaveType::SquareClassic => Sample::Level { high: 2 * position > cycle },
            WaveType::Sawtooth => {
                let count = harmonics_below_nyquist(self.frequency, self.sample_rate, 1);
                Sample::Partials { position, cycle, step: 1, count, rolloff: 1 }
            },
            WaveType::Triangle => {
                let count = harmonics_below_nyquist(self.frequency, self.sample_rate, 2);
                Sample::Partials { position, cycle, step: 2, count, rolloff: 2 }
            },
            WaveType::Noise => {
                let word = draw_word(&mut self.rng);
                Sample::Noise { value: noise_value(word) }
            },
        }
    }

    /// Replaces the frequency from the next tick on; a zero frequency is refused
    /// and leaves the oscillator as it was. The phase index is kept as it is.
    pub fn set_frequency(&mut self, frequency: u32)
        ensures
            final(self)@ == with_frequency(old(self)@, frequency as nat),
            final(self).rng == old(self).rng,
    {
        if frequency > 0 {
            self.frequency = frequency;
        }
    }

    /// Replaces the waveform from the next tick on, with no reset of the phase.
    pub fn set_wave(&mut self, wave: WaveType)
        ensures
            final(self)@ == (OscState { wave, ..old(self)@ }),
            final(self).rng == old(self).rng,
    {
        self.wave_type = wave;
    }
}

/// Ticks change neither the waveform, the sample rate nor the frequency.
proof fn lemma_advance_n_keeps(s: OscState, n: nat)
    ensures
        advance_n(s, n).wave == s.wave,
        advance_n(s, n).sample_rate == s.sample_rate,
        advance_n(s, n).frequency == s.frequency,
    decreases n,
{
    if n > 0 {
        lemma_advance_n_keeps(s, (n - 1) as nat);
    }
}

/// Scaling a number and its modulus by the same factor scales the remainder.
proof fn lemma_scaled_mod(x: int, f: int, m: int)
    requires
        x >= 0,
        f > 0,
        m > 0,
    ensures
        ((x * f) % (m * f)) / f == x % m,
{
    vstd::arithmetic::div_mod::lemma_mod_breakdown(x * f, f, m);
    assert(x * f == f * x && m * f == f * m) by (nonlinear_arith);
    vstd::arithmetic::div_mod::lemma_div_multiples_vanish(x, f);
    vstd::arithmetic::div_mod::lemma_mod_multiples_basic(x, f);
    vstd::arithmetic::div_mod::lemma_div_multiples_vanish(x % m, f);
}

/// While the frequency stays as it was at the last tick, each tick moves the
/// phase on by the frequency, modulo the cycle.
proof fn lemma_phase_after(s: OscState, n: nat)
    requires
        s.valid(),
        s.scale == s.frequency,
    ensures
        advance_n(s, n) == (OscState {
            phase: ((s.phase + n * s.frequency) as int % cycle(s.sample_rate) as int) as nat,
            ..s
        }),
    decreases n,
{
    let m = cycle(s.sample_rate) as int;
    let f = s.frequency as int;
    if n == 0 {
        vstd::arithmetic::div_mod::lemma_small_mod(s.phase, m as nat);
        assert(n * s.frequency == 0) by (nonlinear_arith)
            requires
                n == 0,
        ;
    } else {
        lemma_phase_after(s, (n - 1) as nat);
        let y = s.phase + (n - 1) * f;
        assert(y >= 0 && (n - 1) * f + f == n * f) by (nonlinear_arith)
            requires
                n >= 1,
                f > 0,
                y == s.phase + (n - 1) * f,
        ;
        vstd::arithmetic::div_mod::lemma_mod_bound(y, m);
        lemma_scaled_mod(y % m + f, f, m);
        vstd::arithmetic::div_mod::lemma_add_mod_noop_right(f, y, m);
    }
}

/// With a period of a whole number of samples, the state repeats after that
/// many ticks, and with it the sample of every waveform but noise.
pub proof fn lemma_periodic(s: OscState, n: nat)
    requires
        s.valid(),
        s.scale == s.frequency,
        cycle(s.sample_rate) % s.frequency == 0,
    ensures
        advance_n(s, n + cycle(s.sample_rate) / s.frequency) == advance_n(s, n),
        tone(advance_n(s, n + cycle(s.sample_rate) / s.frequency)) == tone(advance_n(s, n)),
{
    let m = cycle(s.sample_rate) as int;
    let f = s.frequency as int;
    let p = m / f;
    vstd::arithmetic::div_mod::lemma_fundamental_div_mod(m, f);
    vstd::arithmetic::div_mod::lemma_div_pos_is_pos(m, f);
    lemma_phase_after(s, (n + p) as nat);
    lemma_phase_after(s, n);
    assert(s.phase + (n + p) * f == m + (s.phase + n * f)) by (nonlinear_arith)
        requires
            m == f * p,
    ;
    assert(s.phase + n * f >= 0) by (nonlinear_arith)
        requires
            f > 0,
    ;
    vstd::arithmetic::div_mod::lemma_mod_add_multiples_vanish(s.phase + n * f, m);
}

/// At or above half the sample rate no harmonic passes, so the band-limited
/// waveforms sum no partial at all on any tick.
pub proof fn lemma_silent_from_nyquist(s: OscState, n: nat)
    requires
        s.valid(),
        s.wave == WaveType::Square || s.wave == WaveType::Sawtooth || s.wave == WaveType::Triangle,
        2 * s.frequency >= cycle(s.sample_rate),
    ensures
        tone(advance_n(s, n)) matches Some(Sample::Partials { count, .. }) && count == 0,
{
    lemma_advance_n_keeps(s, n);
}

/// The phase index `phase / scale` plus one, wrapped modulo the period of
/// frequency `hz`, exactly, in units of `1 / (hz * scale)` samples.
pub open spec fn carried_index(s: OscState, hz: nat) -> int {
    ((s.phase + s.scale) * hz) as int % (cycle(s.sample_rate) * s.scale) as int
}

/// A new frequency changes nothing but the frequency before the next tick; that
/// tick carries the phase index reached so far, plus one, over to the new period,
/// rounded down to a whole step of `1 / hz` samples, and exact where the
/// carried index falls on such a step.
pub proof fn lemma_retune(s: OscState, hz: nat)
    requires
        s.valid(),
        0 < hz <= u32::MAX,
    ensures
        with_frequency(s, hz) == (OscState { frequency: hz, ..s }),
        advance(with_frequency(s, hz)).scale == hz,
        advance(with_frequency(s, hz)).phase * s.scale <= carried_index(s, hz),
        carried_index(s, hz) < (advance(with_frequency(s, hz)).phase + 1) * s.scale,
        carried_index(s, hz) % s.scale as int == 0 ==> advance(with_frequency(s, hz)).phase
            * s.scale == carried_index(s, hz),
{
    let x: int = ((s.phase + s.scale) * hz) as int;
    let m: int = (cycle(s.sample_rate) * s.scale) as int;
    assert(x >= 0 && m > 0) by (nonlinear_arith)
        requires
            x == (s.phase + s.scale) * hz,
            m == cycle(s.sample_rate) * s.scale,
            s.scale > 0,
            s.sample_rate > 0,
    ;
    let w: int = x % m;
    vstd::arithmetic::div_mod::lemma_mod_bound(x, m);
    vstd::arithmetic::div_mod::lemma_fundamental_div_mod(w, s.scale as int);
    vstd::arithmetic::div_mod::lemma_mod_bound(w, s.scale as int);
    vstd::arithmetic::div_mod::lemma_div_pos_is_pos(w, s.scale as int);
    let d: int = s.scale as int;
    let q: int = w / d;
    assert(q * d <= w < (q + 1) * d) by (nonlinear_arith)
        requires
            w == d * q + w % d,
            0 <= w % d < d,
    ;
}

} // verus!
