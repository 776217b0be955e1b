//! Fixed-point conversion between Hz and the chip's 24-bit carrier frequency value.
use vstd::prelude::*;

verus! {

/// One step of the carrier frequency register, in milli-Hz: 32 MHz / 2^19, rounded down.
pub const FREQUENCY_STEP_MILLIHZ: u64 = 61_035;
/// The boundary between the low-frequency band (below) and the high-frequency band.
pub const HIGH_FREQUENCY_THRESHOLD_HZ: u32 = 652_000_000;
/// One more than the largest value that the three frequency registers hold.
pub const FREQUENCY_RAW_LIMIT: u64 = 0x100_0000;

/// The register value for `hz`: `hz * 1000 / step`.
pub open spec fn spec_hz_to_raw(hz: u32) -> int {
    (hz as int * 1000) / (FREQUENCY_STEP_MILLIHZ as int)
}

/// The frequency in Hz of the register value `raw`: `raw * step / 1000`.
pub open spec fn spec_raw_to_hz(raw: int) -> int {
    (raw * FREQUENCY_STEP_MILLIHZ as int) / 1000
}

/// A frequency whose register value fits into the three frequency registers.
pub open spec fn is_valid_frequency(hz: u32) -> bool {
    spec_hz_to_raw(hz) < FREQUENCY_RAW_LIMIT as int
}

/// Whether `hz` fits the frequency registers: at most 1,023,997,378 Hz.
pub fn frequency_in_range(hz: u32) -> (r: bool)
    ensures
        r == is_valid_frequency(hz),
{
    (hz as u64 * 1000) / FREQUENCY_STEP_MILLIHZ < FREQUENCY_RAW_LIMIT
}

/// The 24-bit value held by the three frequency registers, most significant first.
pub open spec fn raw_of_bytes(msb: u8, mid: u8, lsb: u8) -> int {
    msb as int * 65536 + mid as int * 256 + lsb as int
}

/// Whether `hz` lies in the low-frequency band.
pub open spec fn is_low_frequency(hz: u32) -> bool {
    hz < HIGH_FREQUENCY_THRESHOLD_HZ
}

/// Byte `i` (most significant first) of the three frequency register bytes of `hz`.
pub open spec fn frequency_byte(hz: u32, i: int) -> u8 {
    let raw = spec_hz_to_raw(hz) % (FREQUENCY_RAW_LIMIT as int);
    if i == 0 {
        (raw / 65536) as u8
    } else if i == 1 {
        ((raw / 256) % 256) as u8
    } else {
        (raw % 256) as u8
    }
}

/// The register bytes (most significant first) of the lower 24 bits of `hz`'s register value.
pub fn frequency_to_bytes(hz: u32) -> (r: (u8, u8, u8))
    ensures
        r.0 == frequency_byte(hz, 0),
        r.1 == frequency_byte(hz, 1),
        r.2 == frequency_byte(hz, 2),
        raw_of_bytes(r.0, r.1, r.2) == spec_hz_to_raw(hz) % (FREQUENCY_RAW_LIMIT as int),
{
    let raw: u64 = (hz as u64 * 1000) / FREQUENCY_STEP_MILLIHZ;
    let low: u64 = raw % FREQUENCY_RAW_LIMIT;
    let msb = (low / 65536) as u8;
    let mid = ((low / 256) % 256) as u8;
    let lsb = (low % 256) as u8;
    proof {
        let l = low as int;
        assert(l < 0x100_0000);
        assert(l == (l / 65536) * 65536 + ((l / 256) % 256) * 256 + l % 256) by (nonlinear_arith)
            requires
                0 <= l,
        ;
        assert(l / 65536 < 256) by (nonlinear_arith)
            requires
                0 <= l < 0x100_0000,
        ;
    }
    (msb, mid, lsb)
}

/// The frequency in Hz held by the three register bytes.
pub fn frequency_from_bytes(msb: u8, mid: u8, lsb: u8) -> (r: u32)
    ensures
        r == spec_raw_to_hz(raw_of_bytes(msb, mid, lsb)),
{
    let raw: u64 = msb as u64 * 65536 + mid as u64 * 256 + lsb as u64;
    let hz = raw * FREQUENCY_STEP_MILLIHZ / 1000;
    assert(hz <= 1_024_000_000) by (nonlinear_arith)
        requires
            raw < 0x100_0000,
            hz == raw * 61035 / 1000,
    ;
    hz as u32
}

/// Writing a valid frequency and reading it back loses less than one register step: the
/// result is at most 62 Hz below the original and never above it.
pub proof fn lemma_frequency_round_trip(hz: u32)
    requires
        is_valid_frequency(hz),
    ensures
        hz as int - 62 <= spec_raw_to_hz(spec_hz_to_raw(hz)) <= hz as int,
{
    let a = hz as int * 1000;
    let raw = spec_hz_to_raw(hz);
    let back = spec_raw_to_hz(raw);
    assert(raw * 61035 <= a < raw * 61035 + 61035) by (nonlinear_arith)
        requires
            raw == a / 61035,
            a >= 0,
    ;
    assert(back * 1000 <= raw * 61035 < back * 1000 + 1000) by (nonlinear_arith)
        requires
            back == (raw * 61035) / 1000,
            raw >= 0,
    ;
}

} // verus!
