//! The parameters that a control thread changes while a render thread ticks.
//!
//! Waveform and frequency travel together in one 64-bit word held by an atomic,
//! so the render thread never waits and never reads half of an update.

use vstd::prelude::*;

use crate::oscillator::{with_frequency, OscState, Synth};
use crate::wave::WaveType;

verus! {

/// The parameters of an oscillator that may change while it runs.
#[derive(Clone, Copy, Debug, PartialEq, Eq, Structural)]
pub struct Params {
    pub wave_type: WaveType,
    /// Oscillation rate, in centihertz.
    pub frequency: u32,
}

/// The number by which the waveform is carried in a packed word.
pub open spec fn wave_code(w: WaveType) -> nat {
    match w {
        WaveType::Sine => 0,
        WaveType::Square => 1,
        WaveType::SquareClassic => 2,
        WaveType::Sawtooth => 3,
        WaveType::Triangle => 4,
        WaveType::Noise => 5,
    }
}

/// The waveform that a code stands for, if any.
pub open spec fn wave_of_code(c: nat) -> Option<WaveType> {
    if c == 0 {
        Some(WaveType::Sine)
    } else if c == 1 {
        Some(WaveType::Square)
    } else if c == 2 {
        Some(WaveType::SquareClassic)
    } else if c == 3 {
        Some(WaveType::Sawtooth)
    } else if c == 4 {
        Some(WaveType::Triangle)
    } else if c == 5 {
        Some(WaveType::Noise)
    } else {
        None
    }
}

/// The frequency in the low 32 bits, the waveform's code above them.
pub open spec fn pack_spec(p: Params) -> nat {
    p.frequency as nat + 0x1_0000_0000 * wave_code(p.wave_type)
}

/// The parameters a word holds: `None` for a zero frequency or an unknown code.
pub open spec fn unpack_spec(w: nat) -> Option<Params> {
    let frequency = w % 0x1_0000_0000;
    match wave_of_code(w / 0x1_0000_0000) {
        Some(wave_type) => if frequency > 0 {
            Some(Params { wave_type, frequency: frequency as u32 })
        } else {
            None
        },
        None => None,
    }
}

/// Packs waveform and frequency into one word.
pub fn pack(p: Params) -> (r: u64)
    ensures
        r == pack_spec(p),
{
    let code: u64 = match p.wave_type {
        WaveType::Sine => 0,
        WaveType::Square => 1,
        WaveType::SquareClassic => 2,
        WaveType::Sawtooth => 3,
        WaveType::Triangle => 4,
        WaveType::Noise => 5,
    };
    (p.frequency as u64) + 0x1_0000_0000 * code
}

/// Reads waveform and frequency back from a word.
pub fn unpack(w: u64) -> (r: Option<Params>)
    ensures
        r == unpack_spec(w as nat),
{
    let frequency: u64 = w % 0x1_0000_0000;
    let code: u64 = w / 0x1_0000_0000;
    if frequency == 0 {
        return None;
    }
    let wave_type = if code == 0 {
        WaveType::Sine
    } else if code == 1 {
        WaveType::Square
    } else if code == 2 {
        WaveType::SquareClassic
    } else if code == 3 {
        WaveType::Sawtooth
    } else if code == 4 {
        WaveType::Triangle
    } else if code == 5 {
        WaveType::Noise
    } else {
        return None;
    };
    Some(Params { wave_type, frequency: frequency as u32 })
}

/// Unpacking a packed word gives back every parameter set with a positive
/// frequency, whole: a reader of the word sees all of one update or none of it.
pub proof fn lemma_pack_round_trip(p: Params)
    requires
        p.frequency > 0,
    ensures
        unpack_spec(pack_spec(p)) == Some(p),
{
    let w = pack_spec(p);
    vstd::arithmetic::div_mod::lemma_fundamental_div_mod_converse(
        w as int,
        0x1_0000_0000,
        wave_code(p.wave_type) as int,
        p.frequency as int,
    );
}

/// Parameters shared between a control thread, which publishes them, and a
/// render thread, which reads them once per tick without waiting.
pub struct SharedParams {
    word: std::sync::atomic::AtomicU64,
}

impl SharedParams {
    /// Shared parameters that hold `p` until the first publication.
    pub fn new(p: Params) -> SharedParams {
        SharedParams { word: std::sync::atomic::AtomicU64::new(pack(p)) }
    }

    /// Makes `p` the parameters that the next read sees.
    pub fn publish(&self, p: Params) {
        self.word.store(pack(p), std::sync::atomic::Ordering::Release);
    }

    /// The parameters last published, read in one load; `None` only for a word
    /// that holds no valid parameters.
    pub fn snapshot(&self) -> (r: Option<Params>)
        ensures
            exists|w: u64| r == unpack_spec(w as nat),
            r matches Some(p) ==> p.frequency > 0,
    {
        let w = self.word.load(std::sync::atomic::Ordering::Acquire);
        unpack(w)
    }
}

impl Synth {
    /// Takes over a parameter set from the next tick on, as `set_wave` followed
    /// by `set_frequency` would.
    pub fn apply(&mut self, p: Params)
        ensures
            final(self)@ == with_frequency(
                OscState { wave: p.wave_type, ..old(self)@ },
                p.frequency as nat,
            ),
            final(self).rng == old(self).rng,
    {
        self.set_wave(p.wave_type);
        self.set_frequency(p.frequency);
    }

    /// Takes over the parameters that a packed word holds, or keeps its own when
    /// the word holds none.
    pub fn follow_word(&mut self, w: u64)
        ensures
            final(self)@ == match unpack_spec(w as nat) {
                Some(p) => with_frequency(OscState { wave: p.wave_type, ..old(self)@ }, p.frequency as nat),
                None => old(self)@,
            },
            final(self).rng == old(self).rng,
    {
        if let Some(p) = unpack(w) {
            self.apply(p);
        }
    }

    /// Takes over the parameters last published in `shared`, or keeps its own
    /// when the shared word holds none.
    pub fn follow(&mut self, shared: &SharedParams)
        requires
            old(self)@.valid(),
        ensures
            final(self)@.valid(),
            final(self)@.phase == old(self)@.phase,
            final(self)@.scale == old(self)@.scale,
            final(self)@.sample_rate == old(self)@.sample_rate,
            final(self).rng == old(self).rng,
    {
        let w = shared.word.load(std::sync::atomic::Ordering::Acquire);
        self.follow_word(w);
    }
}

} // verus!
