//! Signal quality figures from the raw RSSI and SNR register bytes.
use vstd::prelude::*;

verus! {

/// RSSI register offset in the high-frequency band.
pub const HF_RSSI_OFFSET: i16 = -157;
/// RSSI register offset in the low-frequency band.
pub const LF_RSSI_OFFSET: i16 = -164;

/// The SNR in dB of the raw SNR register byte: a two's complement value in quarter dB,
/// divided by 4 with truncation toward zero.
pub open spec fn spec_snr_of_raw(raw: u8) -> int {
    let q = signed_of_raw(raw);
    if q >= 0 {
        q / 4
    } else {
        -((-q) / 4)
    }
}

/// The two's complement value of a register byte.
pub open spec fn signed_of_raw(raw: u8) -> int {
    if raw < 128 {
        raw as int
    } else {
        raw as int - 256
    }
}

/// The RSSI in dBm of the raw RSSI register byte, in the low-frequency band or the
/// high-frequency band.
pub open spec fn spec_rssi_of_raw(raw: u8, low_band: bool) -> int {
    signed_of_raw(raw) + if low_band {
        LF_RSSI_OFFSET as int
    } else {
        HF_RSSI_OFFSET as int
    }
}

/// The signal strength: the RSSI, lowered by a negative SNR.
pub open spec fn spec_packet_strength(rssi: int, snr: int) -> int {
    rssi as int + if snr < 0 {
        snr as int
    } else {
        0
    }
}

/// The signal strength of a packet received with `rssi` dBm and an SNR of `snr` dB.
///
/// Below the noise floor a negative SNR lowers the estimate; a positive SNR adds nothing.
pub fn packet_strength(rssi: i16, snr: i8) -> (r: i16)
    requires
        i16::MIN - i8::MIN <= rssi,
    ensures
        r == spec_packet_strength(rssi as int, snr as int),
{
    if snr < 0 {
        rssi + snr as i16
    } else {
        rssi
    }
}

/// The two's complement value of a register byte.
pub fn signed_of_byte(raw: u8) -> (r: i16)
    ensures
        r == signed_of_raw(raw),
{
    if raw < 128 {
        raw as i16
    } else {
        raw as i16 - 256
    }
}

/// The SNR in dB of the raw SNR register byte.
pub fn snr_of_raw(raw: u8) -> (r: i8)
    ensures
        r == spec_snr_of_raw(raw),
        -32 <= r <= 31,
{
    let q = signed_of_byte(raw);
    if q >= 0 {
        (q / 4) as i8
    } else {
        let m: i16 = -q;
        -((m / 4) as i8)
    }
}

} // verus!
