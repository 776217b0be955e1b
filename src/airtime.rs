//! Symbol timing of a modulation setting, and what follows from it.
use crate::types::{Bandwidth, SpreadingFactor};
use vstd::prelude::*;

verus! {

/// Symbols longer than this many microseconds need low-data-rate optimization.
pub const LDO_SYMBOL_THRESHOLD_MICROS: u64 = 16_000;

/// The number of chips `2^SF` in one symbol.
pub open spec fn chips(sf: SpreadingFactor) -> u64 {
    match sf {
        SpreadingFactor::S7 => 128,
        SpreadingFactor::S8 => 256,
        SpreadingFactor::S9 => 512,
        SpreadingFactor::S10 => 1024,
        SpreadingFactor::S11 => 2048,
        SpreadingFactor::S12 => 4096,
    }
}

/// The duration of one symbol, `2^SF / BW`, in microseconds.
///
/// With `BW = 500 kHz / d` this is `2^SF * d / 500_000` s, that is `2 * 2^SF * d` µs exactly.
pub open spec fn spec_symbol_airtime_micros(sf: SpreadingFactor, bw: Bandwidth) -> int {
    2 * chips(sf) * bw.spec_divisor()
}

/// Whether the pair has symbols long enough to need low-data-rate optimization.
pub open spec fn spec_needs_ldo(sf: SpreadingFactor, bw: Bandwidth) -> bool {
    spec_symbol_airtime_micros(sf, bw) > LDO_SYMBOL_THRESHOLD_MICROS
}

/// The longest symbol of any setting: spreading factor 12 at 7.8 kHz.
pub proof fn lemma_symbol_airtime_bounds(sf: SpreadingFactor, bw: Bandwidth)
    ensures
        256 <= spec_symbol_airtime_micros(sf, bw) <= 524_288,
        spec_symbol_airtime_micros(sf, bw) == 2 * chips(sf) * bw.spec_divisor(),
{
    let c = chips(sf) as int;
    let d = bw.spec_divisor() as int;
    assert(256 <= 2 * c * d <= 524_288) by (nonlinear_arith)
        requires
            128 <= c <= 4096,
            1 <= d <= 64,
    ;
}

/// The duration of one symbol in microseconds.
pub fn symbol_airtime_micros(sf: SpreadingFactor, bw: Bandwidth) -> (r: u64)
    ensures
        r == spec_symbol_airtime_micros(sf, bw),
{
    let chips: u64 = match sf {
        SpreadingFactor::S7 => 128,
        SpreadingFactor::S8 => 256,
        SpreadingFactor::S9 => 512,
        SpreadingFactor::S10 => 1024,
        SpreadingFactor::S11 => 2048,
        SpreadingFactor::S12 => 4096,
    };
    2 * chips * bw.divisor()
}

/// Whether low-data-rate optimization must be enabled for this pair.
pub fn needs_ldo(sf: SpreadingFactor, bw: Bandwidth) -> (r: bool)
    ensures
        r == spec_needs_ldo(sf, bw),
{
    symbol_airtime_micros(sf, bw) > LDO_SYMBOL_THRESHOLD_MICROS
}

/// `a / b`, rounded up.
pub fn ceil_div(a: u64, b: u64) -> (r: u64)
    requires
        b > 0,
        a + b <= u64::MAX,
    ensures
        r as int == (a as int + b as int - 1) / (b as int),
        r * b >= a,
        r == 0 || (r - 1) * b < a,
{
    let r = (a + b - 1) / b;
    proof {
        let q = (a as int + b as int - 1) / (b as int);
        let m = (a as int + b as int - 1) % (b as int);
        assert(q * b + m == a as int + b as int - 1 && 0 <= m < b) by (nonlinear_arith)
            requires
                b > 0,
                q == (a as int + b as int - 1) / (b as int),
                m == (a as int + b as int - 1) % (b as int),
        ;
        assert(q * b >= a) by (nonlinear_arith)
            requires
                q * b + m == a as int + b as int - 1,
                m < b,
        ;
        assert(q == 0 || (q - 1) * b < a) by (nonlinear_arith)
            requires
                q * b + m == a as int + b as int - 1,
                0 <= m,
        ;
    }
    r
}

} // verus!
