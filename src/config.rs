//! The full set of modem settings, applied together.
use crate::types::{
    Bandwidth, CodingRate, CrcMode, Frequency, HeaderMode, Polarity, PreambleLength,
    SpreadingFactor, SyncWord,
};
use vstd::prelude::*;

verus! {

/// Every tunable setting of the modem.
#[derive(Clone, Copy, Debug, PartialEq, Eq, Structural)]
pub struct Config {
    pub spreading_factor: SpreadingFactor,
    pub bandwidth: Bandwidth,
    pub coding_rate: CodingRate,
    pub polarity: Polarity,
    pub header_mode: HeaderMode,
    pub crc_mode: CrcMode,
    pub sync_word: SyncWord,
    pub preamble_len: PreambleLength,
    pub frequency: Frequency,
}

} // verus!
