//! The settings of the modem and their raw register encodings.
use crate::error::IoError;
use vstd::prelude::*;

verus! {

/// The LoRa spreading factor: `2^n` chips per symbol.
#[derive(Clone, Copy, Debug, PartialEq, Eq, Structural)]
pub enum SpreadingFactor {
    S7,
    S8,
    S9,
    S10,
    S11,
    S12,
}

impl SpreadingFactor {
    /// The exponent `n` of `2^n` chips per symbol, which is also the raw field value.
    pub open spec fn spec_raw(self) -> u8 {
        match self {
            SpreadingFactor::S7 => 7,
            SpreadingFactor::S8 => 8,
            SpreadingFactor::S9 => 9,
            SpreadingFactor::S10 => 10,
            SpreadingFactor::S11 => 11,
            SpreadingFactor::S12 => 12,
        }
    }

    /// Whether `raw` encodes a spreading factor.
    pub open spec fn is_raw(raw: u8) -> bool {
        7 <= raw <= 12
    }

    /// The spreading factor that `raw` encodes (meaningful where `is_raw(raw)`).
    pub open spec fn spec_from_raw(raw: u8) -> Self {
        if raw <= 7 {
            SpreadingFactor::S7
        } else if raw == 8 {
            SpreadingFactor::S8
        } else if raw == 9 {
            SpreadingFactor::S9
        } else if raw == 10 {
            SpreadingFactor::S10
        } else if raw == 11 {
            SpreadingFactor::S11
        } else {
            SpreadingFactor::S12
        }
    }

    #[verifier::when_used_as_spec(spec_raw)]
    pub fn raw(self) -> (r: u8)
        ensures
            r == self.spec_raw(),
    {
        match self {
            SpreadingFactor::S7 => 7,
            SpreadingFactor::S8 => 8,
            SpreadingFactor::S9 => 9,
            SpreadingFactor::S10 => 10,
            SpreadingFactor::S11 => 11,
            SpreadingFactor::S12 => 12,
        }
    }

    /// Decodes the raw field value.
    pub fn parse(raw: u8) -> (r: Result<Self, IoError>)
        ensures
            r is Ok <==> Self::is_raw(raw),
            r matches Ok(v) ==> v.spec_raw() == raw && v == Self::spec_from_raw(raw),
            r matches Err(e) ==> e == IoError::InvalidValue,
    {
        match raw {
            7 => Ok(SpreadingFactor::S7),
            8 => Ok(SpreadingFactor::S8),
            9 => Ok(SpreadingFactor::S9),
            10 => Ok(SpreadingFactor::S10),
            11 => Ok(SpreadingFactor::S11),
            12 => Ok(SpreadingFactor::S12),
            _ => Err(IoError::InvalidValue),
        }
    }
}

/// The channel bandwidth.
///
/// Every bandwidth is 500 kHz divided by an integer divisor, so durations measured in symbols
/// are whole numbers of microseconds.
#[derive(Clone, Copy, Debug, PartialEq, Eq, Structural)]
pub enum Bandwidth {
    B7_8,
    B10_4,
    B15_6,
    B20_8,
    B31_25,
    B41_7,
    B62_5,
    B125,
    B250,
    B500,
}

impl Bandwidth {
    pub open spec fn spec_raw(self) -> u8 {
        match self {
            Bandwidth::B7_8 => 0,
            Bandwidth::B10_4 => 1,
            Bandwidth::B15_6 => 2,
            Bandwidth::B20_8 => 3,
            Bandwidth::B31_25 => 4,
            Bandwidth::B41_7 => 5,
            Bandwidth::B62_5 => 6,
            Bandwidth::B125 => 7,
            Bandwidth::B250 => 8,
            Bandwidth::B500 => 9,
        }
    }

    /// The bandwidth is `500 kHz / divisor`.
    pub open spec fn spec_divisor(self) -> u64 {
        match self {
            Bandwidth::B7_8 => 64,
            Bandwidth::B10_4 => 48,
            Bandwidth::B15_6 => 32,
            Bandwidth::B20_8 => 24,
            Bandwidth::B31_25 => 16,
            Bandwidth::B41_7 => 12,
            Bandwidth::B62_5 => 8,
            Bandwidth::B125 => 4,
            Bandwidth::B250 => 2,
            Bandwidth::B500 => 1,
        }
    }

    pub open spec fn is_raw(raw: u8) -> bool {
        raw <= 9
    }

    /// The bandwidth that `raw` encodes (meaningful where `is_raw(raw)`).
    pub open spec fn spec_from_raw(raw: u8) -> Self {
        if raw == 0 {
            Bandwidth::B7_8
        } else if raw == 1 {
            Bandwidth::B10_4
        } else if raw == 2 {
            Bandwidth::B15_6
        } else if raw == 3 {
            Bandwidth::B20_8
        } else if raw == 4 {
            Bandwidth::B31_25
        } else if raw == 5 {
            Bandwidth::B41_7
        } else if raw == 6 {
            Bandwidth::B62_5
        } else if raw == 7 {
            Bandwidth::B125
        } else if raw == 8 {
            Bandwidth::B250
        } else {
            Bandwidth::B500
        }
    }

    #[verifier::when_used_as_spec(spec_raw)]
    pub fn raw(self) -> (r: u8)
        ensures
            r == self.spec_raw(),
    {
        match self {
            Bandwidth::B7_8 => 0,
            Bandwidth::B10_4 => 1,
            Bandwidth::B15_6 => 2,
            Bandwidth::B20_8 => 3,
            Bandwidth::B31_25 => 4,
            Bandwidth::B41_7 => 5,
            Bandwidth::B62_5 => 6,
            Bandwidth::B125 => 7,
            Bandwidth::B250 => 8,
            Bandwidth::B500 => 9,
        }
    }

    #[verifier::when_used_as_spec(spec_divisor)]
    pub fn divisor(self) -> (r: u64)
        ensures
            r == self.spec_divisor(),
    {
        match self {
            Bandwidth::B7_8 => 64,
            Bandwidth::B10_4 => 48,
            Bandwidth::B15_6 => 32,
            Bandwidth::B20_8 => 24,
            Bandwidth::B31_25 => 16,
            Bandwidth::B41_7 => 12,
            Bandwidth::B62_5 => 8,
            Bandwidth::B125 => 4,
            Bandwidth::B250 => 2,
            Bandwidth::B500 => 1,
        }
    }

    /// Decodes the raw field value.
    pub fn parse(raw: u8) -> (r: Result<Self, IoError>)
        ensures
            r is Ok <==> Self::is_raw(raw),
            r matches Ok(v) ==> v.spec_raw() == raw && v == Self::spec_from_raw(raw),
            r matches Err(e) ==> e == IoError::InvalidValue,
    {
        match raw {
            0 => Ok(Bandwidth::B7_8),
            1 => Ok(Bandwidth::B10_4),
            2 => Ok(Bandwidth::B15_6),
            3 => Ok(Bandwidth::B20_8),
            4 => Ok(Bandwidth::B31_25),
            5 => Ok(Bandwidth::B41_7),
            6 => Ok(Bandwidth::B62_5),
            7 => Ok(Bandwidth::B125),
            8 => Ok(Bandwidth::B250),
            9 => Ok(Bandwidth::B500),
            _ => Err(IoError::InvalidValue),
        }
    }
}

/// Decoding the encoding of a spreading factor or a bandwidth gives it back.
pub proof fn lemma_from_raw_of_raw(sf: SpreadingFactor, bw: Bandwidth)
    ensures
        SpreadingFactor::is_raw(sf.spec_raw()),
        SpreadingFactor::spec_from_raw(sf.spec_raw()) == sf,
        Bandwidth::is_raw(bw.spec_raw()),
        Bandwidth::spec_from_raw(bw.spec_raw()) == bw,
{
}

/// The forward error correction rate `4/(4+n)`.
#[derive(Clone, Copy, Debug, PartialEq, Eq, Structural)]
pub enum CodingRate {
    C4_5,
    C4_6,
    C4_7,
    C4_8,
}

impl CodingRate {
    pub open spec fn spec_raw(self) -> u8 {
        match self {
            CodingRate::C4_5 => 1,
            CodingRate::C4_6 => 2,
            CodingRate::C4_7 => 3,
            CodingRate::C4_8 => 4,
        }
    }

    pub open spec fn is_raw(raw: u8) -> bool {
        1 <= raw <= 4
    }

    #[verifier::when_used_as_spec(spec_raw)]
    pub fn raw(self) -> (r: u8)
        ensures
            r == self.spec_raw(),
    {
        match self {
            CodingRate::C4_5 => 1,
            CodingRate::C4_6 => 2,
            CodingRate::C4_7 => 3,
            CodingRate::C4_8 => 4,
        }
    }

    /// Decodes the raw field value.
    pub fn parse(raw: u8) -> (r: Result<Self, IoError>)
        ensures
            r is Ok <==> Self::is_raw(raw),
            r matches Ok(v) ==> v.spec_raw() == raw,
            r matches Err(e) ==> e == IoError::InvalidValue,
    {
        match raw {
            1 => Ok(CodingRate::C4_5),
            2 => Ok(CodingRate::C4_6),
            3 => Ok(CodingRate::C4_7),
            4 => Ok(CodingRate::C4_8),
            _ => Err(IoError::InvalidValue),
        }
    }
}

/// The IQ polarity of received chirps.
#[derive(Clone, Copy, Debug, PartialEq, Eq, Structural)]
pub enum Polarity {
    Normal,
    Inverted,
}

/// Whether packets carry an explicit header.
#[derive(Clone, Copy, Debug, PartialEq, Eq, Structural)]
pub enum HeaderMode {
    Explicit,
    Implicit,
}

/// Whether the payload CRC is generated and checked.
#[derive(Clone, Copy, Debug, PartialEq, Eq, Structural)]
pub enum CrcMode {
    Disabled,
    Enabled,
}

impl Polarity {
    pub open spec fn spec_raw(self) -> u8 {
        match self {
            Polarity::Normal => 0,
            Polarity::Inverted => 1,
        }
    }

    #[verifier::when_used_as_spec(spec_raw)]
    pub fn raw(self) -> (r: u8)
        ensures
            r == self.spec_raw(),
    {
        match self {
            Polarity::Normal => 0,
            Polarity::Inverted => 1,
        }
    }

    /// Decodes the raw one-bit field value.
    pub fn parse(raw: u8) -> (r: Result<Self, IoError>)
        ensures
            r is Ok <==> raw <= 1,
            r matches Ok(v) ==> v.spec_raw() == raw,
            r matches Err(e) ==> e == IoError::InvalidValue,
    {
        match raw {
            0 => Ok(Polarity::Normal),
            1 => Ok(Polarity::Inverted),
            _ => Err(IoError::InvalidValue),
        }
    }
}

impl HeaderMode {
    pub open spec fn spec_raw(self) -> u8 {
        match self {
            HeaderMode::Explicit => 0,
            HeaderMode::Implicit => 1,
        }
    }

    #[verifier::when_used_as_spec(spec_raw)]
    pub fn raw(self) -> (r: u8)
        ensures
            r == self.spec_raw(),
    {
        match self {
            HeaderMode::Explicit => 0,
            HeaderMode::Implicit => 1,
        }
    }

    /// Decodes the raw one-bit field value.
    pub fn parse(raw: u8) -> (r: Result<Self, IoError>)
        ensures
            r is Ok <==> raw <= 1,
            r matches Ok(v) ==> v.spec_raw() == raw,
            r matches Err(e) ==> e == IoError::InvalidValue,
    {
        match raw {
            0 => Ok(HeaderMode::Explicit),
            1 => Ok(HeaderMode::Implicit),
            _ => Err(IoError::InvalidValue),
        }
    }
}

impl CrcMode {
    pub open spec fn spec_raw(self) -> u8 {
        match self {
            CrcMode::Disabled => 0,
            CrcMode::Enabled => 1,
        }
    }

    #[verifier::when_used_as_spec(spec_raw)]
    pub fn raw(self) -> (r: u8)
        ensures
            r == self.spec_raw(),
    {
        match self {
            CrcMode::Disabled => 0,
            CrcMode::Enabled => 1,
        }
    }

    /// Decodes the raw one-bit field value.
    pub fn parse(raw: u8) -> (r: Result<Self, IoError>)
        ensures
            r is Ok <==> raw <= 1,
            r matches Ok(v) ==> v.spec_raw() == raw,
            r matches Err(e) ==> e == IoError::InvalidValue,
    {
        match raw {
            0 => Ok(CrcMode::Disabled),
            1 => Ok(CrcMode::Enabled),
            _ => Err(IoError::InvalidValue),
        }
    }
}

/// The network sync word.
#[derive(Clone, Copy, Debug, PartialEq, Eq, Structural)]
pub struct SyncWord {
    pub value: u8,
}

impl SyncWord {
    pub fn new(value: u8) -> (r: Self)
        ensures
            r.value == value,
    {
        SyncWord { value }
    }
}

/// The preamble length in symbols.
#[derive(Clone, Copy, Debug, PartialEq, Eq, Structural)]
pub struct PreambleLength {
    pub value: u16,
}

impl PreambleLength {
    pub fn new(value: u16) -> (r: Self)
        ensures
            r.value == value,
    {
        PreambleLength { value }
    }
}

/// A carrier frequency in Hz.
#[derive(Clone, Copy, Debug, PartialEq, Eq, Structural)]
pub struct Frequency {
    pub hz: u32,
}

impl Frequency {
    pub fn hz(hz: u32) -> (r: Self)
        ensures
            r.hz == hz,
    {
        Frequency { hz }
    }
}

} // verus!
