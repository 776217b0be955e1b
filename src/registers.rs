//! The register map: every bit field the driver touches, with its address and position.
use vstd::prelude::*;

verus! {

/// The highest register address of the chip.
pub const REGISTER_MAX: u8 = 0x7F;

/// One bit field of one 8-bit register.
///
/// A field is `mask` wide (a mask of the form `2^w - 1`) and starts at bit `shift` of the
/// register at `address`. Whole-byte registers are fields with shift 0 and mask `0xFF`.
#[derive(Clone, Copy, Debug, PartialEq, Eq, Structural)]
pub enum Register {
    Fifo,
    OpModeLongRangeMode,
    OpModeAccessSharedReg,
    OpModeLowFrequencyModeOn,
    OpModeMode,
    FrMsb,
    FrMid,
    FrLsb,
    PaConfig,
    FifoAddrPtr,
    FifoTxBaseAddr,
    FifoRxBaseAddr,
    FifoRxCurrentAddr,
    IrqFlagsMaskRxTimeoutMask,
    IrqFlagsMaskRxDoneMask,
    IrqFlagsMaskPayloadCrcErrorMask,
    IrqFlagsMaskTxDoneMask,
    IrqFlagsRxTimeout,
    IrqFlagsRxDone,
    IrqFlagsPayloadCrcError,
    IrqFlagsTxDone,
    RxNbBytes,
    PktSnrValue,
    PktRssiValue,
    ModemConfig1Bw,
    ModemConfig1CodingRate,
    ModemConfig1ImplicitHeaderModeOn,
    ModemConfig2SpreadingFactor,
    ModemConfig2RxPayloadCrcOn,
    ModemConfig2SymbTimeout98,
    SymbTimeoutLsb,
    PreambleMsb,
    PreambleLsb,
    PayloadLength,
    ModemConfig3LowDataRateOptimize,
    InvertIQ,
    SyncWord,
    Version,
    /// The whole byte at an arbitrary address (for diagnostics).
    Raw(u8),
}

impl Register {
    pub open spec fn spec_address(self) -> u8 {
        match self {
            Register::Fifo => 0x00,
            Register::OpModeLongRangeMode => 0x01,
            Register::OpModeAccessSharedReg => 0x01,
            Register::OpModeLowFrequencyModeOn => 0x01,
            Register::OpModeMode => 0x01,
            Register::FrMsb => 0x06,
            Register::FrMid => 0x07,
            Register::FrLsb => 0x08,
            Register::PaConfig => 0x09,
            Register::FifoAddrPtr => 0x0D,
            Register::FifoTxBaseAddr => 0x0E,
            Register::FifoRxBaseAddr => 0x0F,
            Register::FifoRxCurrentAddr => 0x10,
            Register::IrqFlagsMaskRxTimeoutMask => 0x11,
            Register::IrqFlagsMaskRxDoneMask => 0x11,
            Register::IrqFlagsMaskPayloadCrcErrorMask => 0x11,
            Register::IrqFlagsMaskTxDoneMask => 0x11,
            Register::IrqFlagsRxTimeout => 0x12,
            Register::IrqFlagsRxDone => 0x12,
            Register::IrqFlagsPayloadCrcError => 0x12,
            Register::IrqFlagsTxDone => 0x12,
            Register::RxNbBytes => 0x13,
            Register::PktSnrValue => 0x19,
            Register::PktRssiValue => 0x1A,
            Register::ModemConfig1Bw => 0x1D,
            Register::ModemConfig1CodingRate => 0x1D,
            Register::ModemConfig1ImplicitHeaderModeOn => 0x1D,
            Register::ModemConfig2SpreadingFactor => 0x1E,
            Register::ModemConfig2RxPayloadCrcOn => 0x1E,
            Register::ModemConfig2SymbTimeout98 => 0x1E,
            Register::SymbTimeoutLsb => 0x1F,
            Register::PreambleMsb => 0x20,
            Register::PreambleLsb => 0x21,
            Register::PayloadLength => 0x22,
            Register::ModemConfig3LowDataRateOptimize => 0x26,
            Register::InvertIQ => 0x33,
            Register::SyncWord => 0x39,
            Register::Version => 0x42,
            Register::Raw(address) => address,
        }
    }

    pub open spec fn spec_shift(self) -> u8 {
        match self {
            Register::OpModeLongRangeMode => 7,
            Register::OpModeAccessSharedReg => 6,
            Register::OpModeLowFrequencyModeOn => 3,
            Register::IrqFlagsMaskRxTimeoutMask => 7,
            Register::IrqFlagsMaskRxDoneMask => 6,
            Register::IrqFlagsMaskPayloadCrcErrorMask => 5,
            Register::IrqFlagsMaskTxDoneMask => 3,
            Register::IrqFlagsRxTimeout => 7,
            Register::IrqFlagsRxDone => 6,
            Register::IrqFlagsPayloadCrcError => 5,
            Register::IrqFlagsTxDone => 3,
            Register::ModemConfig1Bw => 4,
            Register::ModemConfig1CodingRate => 1,
            Register::ModemConfig2SpreadingFactor => 4,
            Register::ModemConfig2RxPayloadCrcOn => 2,
            Register::ModemConfig3LowDataRateOptimize => 3,
            Register::InvertIQ => 6,
            _ => 0,
        }
    }

    pub open spec fn spec_mask(self) -> u8 {
        match self {
            Register::OpModeMode => 0b111,
            Register::ModemConfig1Bw => 0b1111,
            Register::ModemConfig1CodingRate => 0b111,
            Register::ModemConfig2SpreadingFactor => 0b1111,
            Register::ModemConfig2SymbTimeout98 => 0b11,
            Register::OpModeLongRangeMode
            | Register::OpModeAccessSharedReg
            | Register::OpModeLowFrequencyModeOn
            | Register::IrqFlagsMaskRxTimeoutMask
            | Register::IrqFlagsMaskRxDoneMask
            | Register::IrqFlagsMaskPayloadCrcErrorMask
            | Register::IrqFlagsMaskTxDoneMask
            | Register::IrqFlagsRxTimeout
            | Register::IrqFlagsRxDone
            | Register::IrqFlagsPayloadCrcError
            | Register::IrqFlagsTxDone
            | Register::ModemConfig1ImplicitHeaderModeOn
            | Register::ModemConfig2RxPayloadCrcOn
            | Register::ModemConfig3LowDataRateOptimize
            | Register::InvertIQ => 0b1,
            _ => 0xFF,
        }
    }

    /// A register is well formed when its address fits the chip's 7-bit address space.
    pub open spec fn wf(self) -> bool {
        self.spec_address() <= REGISTER_MAX
    }

    /// Whether the field covers the whole byte, so that writing it needs no read first.
    pub open spec fn spec_is_whole(self) -> bool {
        self.spec_mask() == 0xFF
    }

    /// The field's value within the register byte `b`.
    pub open spec fn field_of(self, b: u8) -> u8 {
        (b >> self.spec_shift()) & self.spec_mask()
    }

    /// The register byte `b` with this field replaced by `v`, the other bits unchanged.
    pub open spec fn merge(self, b: u8, v: u8) -> u8 {
        (b & !(self.spec_mask() << self.spec_shift())) | ((v & self.spec_mask()) << self.spec_shift())
    }

    #[verifier::when_used_as_spec(spec_address)]
    pub fn address(self) -> (r: u8)
        ensures
            r == self.spec_address(),
    {
        match self {
            Register::Fifo => 0x00,
            Register::OpModeLongRangeMode => 0x01,
            Register::OpModeAccessSharedReg => 0x01,
            Register::OpModeLowFrequencyModeOn => 0x01,
            Register::OpModeMode => 0x01,
            Register::FrMsb => 0x06,
            Register::FrMid => 0x07,
            Register::FrLsb => 0x08,
            Register::PaConfig => 0x09,
            Register::FifoAddrPtr => 0x0D,
            Register::FifoTxBaseAddr => 0x0E,
            Register::FifoRxBaseAddr => 0x0F,
            Register::FifoRxCurrentAddr => 0x10,
            Register::IrqFlagsMaskRxTimeoutMask => 0x11,
            Register::IrqFlagsMaskRxDoneMask => 0x11,
            Register::IrqFlagsMaskPayloadCrcErrorMask => 0x11,
            Register::IrqFlagsMaskTxDoneMask => 0x11,
            Register::IrqFlagsRxTimeout => 0x12,
            Register::IrqFlagsRxDone => 0x12,
            Register::IrqFlagsPayloadCrcError => 0x12,
            Register::IrqFlagsTxDone => 0x12,
            Register::RxNbBytes => 0x13,
            Register::PktSnrValue => 0x19,
            Register::PktRssiValue => 0x1A,
            Register::ModemConfig1Bw => 0x1D,
            Register::ModemConfig1CodingRate => 0x1D,
            Register::ModemConfig1ImplicitHeaderModeOn => 0x1D,
            Register::ModemConfig2SpreadingFactor => 0x1E,
            Register::ModemConfig2RxPayloadCrcOn => 0x1E,
            Register::ModemConfig2SymbTimeout98 => 0x1E,
            Register::SymbTimeoutLsb => 0x1F,
            Register::PreambleMsb => 0x20,
            Register::PreambleLsb => 0x21,
            Register::PayloadLength => 0x22,
            Register::ModemConfig3LowDataRateOptimize => 0x26,
            Register::InvertIQ => 0x33,
            Register::SyncWord => 0x39,
            Register::Version => 0x42,
            Register::Raw(address) => address,
        }
    }

    #[verifier::when_used_as_spec(spec_shift)]
    pub fn shift(self) -> (r: u8)
        ensures
            r == self.spec_shift(),
            r < 8,
    {
        match self {
            Register::OpModeLongRangeMode => 7,
            Register::OpModeAccessSharedReg => 6,
            Register::OpModeLowFrequencyModeOn => 3,
            Register::IrqFlagsMaskRxTimeoutMask => 7,
            Register::IrqFlagsMaskRxDoneMask => 6,
            Register::IrqFlagsMaskPayloadCrcErrorMask => 5,
            Register::IrqFlagsMaskTxDoneMask => 3,
            Register::IrqFlagsRxTimeout => 7,
            Register::IrqFlagsRxDone => 6,
            Register::IrqFlagsPayloadCrcError => 5,
            Register::IrqFlagsTxDone => 3,
            Register::ModemConfig1Bw => 4,
            Register::ModemConfig1CodingRate => 1,
            Register::ModemConfig2SpreadingFactor => 4,
            Register::ModemConfig2RxPayloadCrcOn => 2,
            Register::ModemConfig3LowDataRateOptimize => 3,
            Register::InvertIQ => 6,
            _ => 0,
        }
    }

    #[verifier::when_used_as_spec(spec_mask)]
    pub fn mask(self) -> (r: u8)
        ensures
            r == self.spec_mask(),
    {
        match self {
            Register::OpModeMode => 0b111,
            Register::ModemConfig1Bw => 0b1111,
            Register::ModemConfig1CodingRate => 0b111,
            Register::ModemConfig2SpreadingFactor => 0b1111,
            Register::ModemConfig2SymbTimeout98 => 0b11,
            Register::OpModeLongRangeMode
            | Register::OpModeAccessSharedReg
            | Register::OpModeLowFrequencyModeOn
            | Register::IrqFlagsMaskRxTimeoutMask
            | Register::IrqFlagsMaskRxDoneMask
            | Register::IrqFlagsMaskPayloadCrcErrorMask
            | Register::IrqFlagsMaskTxDoneMask
            | Register::IrqFlagsRxTimeout
            | Register::IrqFlagsRxDone
            | Register::IrqFlagsPayloadCrcError
            | Register::IrqFlagsTxDone
            | Register::ModemConfig1ImplicitHeaderModeOn
            | Register::ModemConfig2RxPayloadCrcOn
            | Register::ModemConfig3LowDataRateOptimize
            | Register::InvertIQ => 0b1,
            _ => 0xFF,
        }
    }
}

/// Extracting a field from a register byte yields at most the field's mask.
pub proof fn lemma_field_bounded(reg: Register, b: u8)
    ensures
        reg.field_of(b) <= reg.spec_mask(),
{
    let s = reg.spec_shift();
    let m = reg.spec_mask();
    assert((b >> s) & m <= m) by (bit_vector);
}

/// Every field fits into its byte: its mask is `2^w - 1` with `shift + w <= 8`.
pub proof fn lemma_field_fits(reg: Register)
    ensures
        (reg.spec_mask() == 1 && reg.spec_shift() <= 7) || (reg.spec_mask() == 3
            && reg.spec_shift() <= 6) || (reg.spec_mask() == 7 && reg.spec_shift() <= 5) || (
        reg.spec_mask() == 15 && reg.spec_shift() <= 4) || (reg.spec_mask() == 255
            && reg.spec_shift() == 0),
{
}

/// Writing a field value into a register byte and extracting the field again gives the value
/// back, and the bits outside the field are those of the original byte.
pub proof fn lemma_field_of_merge(reg: Register, b: u8, v: u8)
    requires
        v <= reg.spec_mask(),
    ensures
        reg.field_of(reg.merge(b, v)) == v,
        reg.merge(b, v) & !(reg.spec_mask() << reg.spec_shift()) == b & !(reg.spec_mask()
            << reg.spec_shift()),
{
    lemma_field_fits(reg);
    let s = reg.spec_shift();
    let m = reg.spec_mask();
    assert(((((b & !(m << s)) | ((v & m) << s)) >> s) & m) == v) by (bit_vector)
        requires
            v <= m,
            (m == 1 && s <= 7) || (m == 3 && s <= 6) || (m == 7 && s <= 5) || (m == 15 && s <= 4)
                || (m == 255 && s == 0),
    ;
    assert((((b & !(m << s)) | ((v & m) << s)) & !(m << s)) == (b & !(m << s))) by (bit_vector)
        requires
            v <= m,
            (m == 1 && s <= 7) || (m == 3 && s <= 6) || (m == 7 && s <= 5) || (m == 15 && s <= 4)
                || (m == 255 && s == 0),
    ;
}

} // verus!
