use vstd::prelude::*;

verus! {

/// The waveform an oscillator generates.
#[derive(Clone, Copy, Debug, PartialEq, Eq, Structural)]
pub enum WaveType {
    Sine,
    Square,
    SquareClassic,
    Sawtooth,
    Triangle,
    Noise,
}

/// An exact description of one output sample.
#[derive(Clone, Copy, Debug, PartialEq, Eq, Structural)]
pub enum Sample {
    /// The sum, over the harmonics `k = 1, 1 + step, 1 + 2 * step, ...` (`count` of
    /// them), of `sin(2 * pi * k * position / cycle) / k^rolloff`.
    Partials { position: u64, cycle: u64, step: u64, count: u64, rolloff: u32 },
    /// A two-level square: `-1/2` when `high` is false, `+1/2` when it is true.
    Level { high: bool },
    /// White noise: `2 * value / 2^24 - 1`, with `value < 2^24`.
    Noise { value: u32 },
}

/// The `j`-th harmonic number of a series that starts at 1 and grows by `step`.
pub open spec fn harmonic(step: int, j: int) -> int {
    1 + step * j
}

/// What `Sample::partial` returns: the harmonic number of partial `j` and its
/// position within the cycle, `k * position mod cycle`.
pub open spec fn partial_spec(s: Sample, j: int) -> Option<(int, int)> {
    match s {
        Sample::Partials { position, cycle, step, count, .. } => {
            if cycle > 0 && 0 <= j < count {
                let k = harmonic(step as int, j);
                Some((k, (k * position) % (cycle as int)))
            } else {
                None
            }
        },
        _ => None,
    }
}

impl Sample {
    /// The harmonic number of partial `j` and the numerator of its phase in turns
    /// over `cycle`; `None` past the last partial or for a sample of another kind.
    pub fn partial(&self, j: u64) -> (r: Option<(u128, u64)>)
        ensures
            match r {
                Some((k, turn)) => partial_spec(*self, j as int) == Some((k as int, turn as int)),
                None => partial_spec(*self, j as int) is None,
            },
    {
        match *self {
            Sample::Partials { position, cycle, step, count, .. } => {
                if cycle == 0 || j >= count {
                    return None;
                }
                assert(step as int * j as int <= u64::MAX as int * u64::MAX as int) by (nonlinear_arith);
                let k: u128 = 1 + (step as u128) * (j as u128);
                let kr: u128 = k % (cycle as u128);
                assert(position as int * kr as int <= u64::MAX as int * u64::MAX as int) by (nonlinear_arith)
                    requires kr < cycle as int, cycle <= u64::MAX;
                let turn: u128 = ((position as u128) * kr) % (cycle as u128);
                proof {
                    vstd::arithmetic::div_mod::lemma_mul_mod_noop_right(
                        position as int, k as int, cycle as int);
                    assert(k as int * position as int == position as int * k as int) by (nonlinear_arith);
                }
                Some((k, turn as u64))
            },
            _ => None,
        }
    }
}

} // verus!
