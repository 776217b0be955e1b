//! The RFM95 driver: initialization, settings, transmit and receive, signal quality.
use crate::airtime::{
    lemma_symbol_airtime_bounds,
    ceil_div, needs_ldo, spec_needs_ldo, spec_symbol_airtime_micros, symbol_airtime_micros,
};
use crate::config::Config;
use crate::connection::{read_value, RegOp, RegisterConnection, Rfm95Connection};
use crate::error::{IoError, InvalidArgumentError, RxCompleteError, RxStartError, TxStartError};
use crate::frequency::{
    frequency_from_bytes, frequency_to_bytes, is_low_frequency, raw_of_bytes, spec_hz_to_raw,
    spec_raw_to_hz, frequency_byte, is_valid_frequency, FREQUENCY_RAW_LIMIT, HIGH_FREQUENCY_THRESHOLD_HZ,
};
use crate::oplog::{
    decodes, extends, failed_during, io_failure, lemma_failed_after, lemma_failed_longer, lemma_failed_read,
    lemma_since_one, reg_of, lemma_extends_trans, lemma_push, lemma_since, read_outcome,
    since, write_ops, write_outcome,
};
use crate::registers::{Register, REGISTER_MAX};
use crate::signal::{
    packet_strength, signed_of_byte, snr_of_raw, spec_packet_strength, spec_rssi_of_raw,
    spec_snr_of_raw, HF_RSSI_OFFSET, LF_RSSI_OFFSET,
};
use crate::types::{lemma_from_raw_of_raw,
    Bandwidth, CodingRate, CrcMode, Frequency, HeaderMode, Polarity, PreambleLength,
    SpreadingFactor, SyncWord,
};
use vstd::prelude::*;

verus! {

/// A silicon revision whose register protocol this driver speaks.
pub const SUPPORTED_SILICON_REVISION_A: u8 = 0x11;
/// The other silicon revision whose register protocol this driver speaks.
pub const SUPPORTED_SILICON_REVISION_B: u8 = 0x12;
/// The largest packet: the payload length register is 8 bits wide.
pub const FIFO_SIZE: usize = 255;
/// The number of addressable FIFO bytes.
pub const FIFO_ADDRESSES: usize = 256;
/// The largest symbol count of the 10-bit RX timeout counter.
pub const MAX_TIMEOUT_SYMBOLS: u64 = 1023;
/// Operation mode: sleep.
pub const MODE_SLEEP: u8 = 0b000;
/// Operation mode: standby.
pub const MODE_STANDBY: u8 = 0b001;
/// Operation mode: transmit one packet.
pub const MODE_TX_SINGLE: u8 = 0b011;
/// Operation mode: receive one packet.
pub const MODE_RX_SINGLE: u8 = 0b110;

/// Whether `revision` is a silicon revision this driver supports.
pub open spec fn is_supported_revision(revision: u8) -> bool {
    revision == SUPPORTED_SILICON_REVISION_A || revision == SUPPORTED_SILICON_REVISION_B
}

/// Accepts the silicon revisions this driver supports.
pub fn check_silicon_revision(revision: u8) -> (r: Result<(), IoError>)
    ensures
        r is Ok <==> is_supported_revision(revision),
        r matches Err(e) ==> e == IoError::UnsupportedRevision,
{
    if revision == SUPPORTED_SILICON_REVISION_A || revision == SUPPORTED_SILICON_REVISION_B {
        Ok(())
    } else {
        Err(IoError::UnsupportedRevision)
    }
}

/// Setting up the chip, where reading the silicon revision (if checked) gave `revision`.
pub open spec fn setup_ops(check_revision: bool, revision: u8) -> Seq<RegOp> {
    if check_revision {
        seq![RegOp::Read { reg: Register::Version, value: revision }] + setup_writes()
    } else {
        setup_writes()
    }
}

/// The writes that put a freshly reset chip into LoRa standby with the whole FIFO in use.
pub open spec fn setup_writes() -> Seq<RegOp> {
    seq![
        RegOp::Write { reg: Register::OpModeMode, value: MODE_SLEEP },
        RegOp::Write { reg: Register::OpModeLongRangeMode, value: 1 },
        RegOp::Write { reg: Register::OpModeMode, value: MODE_STANDBY },
        RegOp::Write { reg: Register::OpModeAccessSharedReg, value: 0 },
        RegOp::Write { reg: Register::FifoTxBaseAddr, value: 0 },
        RegOp::Write { reg: Register::FifoRxBaseAddr, value: 0 },
        RegOp::Write { reg: Register::PaConfig, value: 0xFF },
    ]
}

/// The value of the low-data-rate-optimization bit for a setting.
pub open spec fn ldo_bit(sf: SpreadingFactor, bw: Bandwidth) -> u8 {
    if spec_needs_ldo(sf, bw) {
        1
    } else {
        0
    }
}

/// Setting the spreading factor, where reading the bandwidth field gave `bw_raw`.
pub open spec fn set_spreading_factor_ops(sf: SpreadingFactor, bw_raw: u8) -> Seq<RegOp> {
    seq![
        RegOp::Read { reg: Register::ModemConfig1Bw, value: bw_raw },
        RegOp::Write { reg: Register::ModemConfig2SpreadingFactor, value: sf.spec_raw() },
        RegOp::Write {
            reg: Register::ModemConfig3LowDataRateOptimize,
            value: ldo_bit(sf, Bandwidth::spec_from_raw(bw_raw)),
        },
    ]
}

/// Setting the bandwidth, where reading the spreading factor field gave `sf_raw`.
pub open spec fn set_bandwidth_ops(bw: Bandwidth, sf_raw: u8) -> Seq<RegOp> {
    seq![
        RegOp::Read { reg: Register::ModemConfig2SpreadingFactor, value: sf_raw },
        RegOp::Write { reg: Register::ModemConfig1Bw, value: bw.spec_raw() },
        RegOp::Write {
            reg: Register::ModemConfig3LowDataRateOptimize,
            value: ldo_bit(SpreadingFactor::spec_from_raw(sf_raw), bw),
        },
    ]
}

/// Setting the preamble length: most significant byte first.
pub open spec fn set_preamble_len_ops(len: u16) -> Seq<RegOp> {
    seq![
        RegOp::Write { reg: Register::PreambleMsb, value: (len / 256) as u8 },
        RegOp::Write { reg: Register::PreambleLsb, value: (len % 256) as u8 },
    ]
}

/// Setting the frequency: the band bit first, then the three frequency bytes.
pub open spec fn set_frequency_ops(hz: u32) -> Seq<RegOp> {
    seq![
        RegOp::Write {
            reg: Register::OpModeLowFrequencyModeOn,
            value: if is_low_frequency(hz) { 1u8 } else { 0u8 },
        },
        RegOp::Write { reg: Register::FrMsb, value: frequency_byte(hz, 0) },
        RegOp::Write { reg: Register::FrMid, value: frequency_byte(hz, 1) },
        RegOp::Write { reg: Register::FrLsb, value: frequency_byte(hz, 2) },
    ]
}

/// Reading the frequency: the three frequency bytes, most significant first.
pub open spec fn read_frequency_ops(msb: u8, mid: u8, lsb: u8) -> Seq<RegOp> {
    seq![
        RegOp::Read { reg: Register::FrMsb, value: msb },
        RegOp::Read { reg: Register::FrMid, value: mid },
        RegOp::Read { reg: Register::FrLsb, value: lsb },
    ]
}

/// Applying a whole configuration, where reading the bandwidth field gave `bw_raw` and reading
/// the spreading factor field afterwards gave `sf_raw`.
pub open spec fn set_config_ops(config: Config, bw_raw: u8, sf_raw: u8) -> Seq<RegOp> {
    set_spreading_factor_ops(config.spreading_factor, bw_raw) + set_bandwidth_ops(
        config.bandwidth,
        sf_raw,
    ) + seq![
        RegOp::Write { reg: Register::ModemConfig1CodingRate, value: config.coding_rate.spec_raw() },
        RegOp::Write { reg: Register::InvertIQ, value: config.polarity.spec_raw() },
        RegOp::Write {
            reg: Register::ModemConfig1ImplicitHeaderModeOn,
            value: config.header_mode.spec_raw(),
        },
        RegOp::Write { reg: Register::ModemConfig2RxPayloadCrcOn, value: config.crc_mode.spec_raw() },
        RegOp::Write { reg: Register::SyncWord, value: config.sync_word.value },
    ] + set_preamble_len_ops(config.preamble_len.value) + set_frequency_ops(config.frequency.hz)
}

/// Writing `data` into the FIFO byte by byte: the address pointer, then the byte.
pub open spec fn fifo_write_ops(data: Seq<u8>) -> Seq<RegOp> {
    Seq::new(
        (2 * data.len()) as nat,
        |j: int|
            if j % 2 == 0 {
                RegOp::Write { reg: Register::FifoAddrPtr, value: (j / 2) as u8 }
            } else {
                RegOp::Write { reg: Register::Fifo, value: data[j / 2] }
            },
    )
}

/// Scheduling the transmission of `data`.
pub open spec fn start_tx_ops(data: Seq<u8>) -> Seq<RegOp> {
    fifo_write_ops(data) + seq![
        RegOp::Write { reg: Register::PayloadLength, value: data.len() as u8 },
        RegOp::Write { reg: Register::IrqFlagsMaskTxDoneMask, value: 0 },
        RegOp::Write { reg: Register::IrqFlagsTxDone, value: 1 },
        RegOp::Write { reg: Register::OpModeMode, value: MODE_TX_SINGLE },
    ]
}

/// Reading the spreading factor and the bandwidth, which gave `sf_raw` and `bw_raw`.
pub open spec fn modulation_read_ops(sf_raw: u8, bw_raw: u8) -> Seq<RegOp> {
    seq![
        RegOp::Read { reg: Register::ModemConfig2SpreadingFactor, value: sf_raw },
        RegOp::Read { reg: Register::ModemConfig1Bw, value: bw_raw },
    ]
}

/// `ops` starts with valid reads of the spreading factor and the bandwidth.
pub open spec fn modulation_reads(ops: Seq<RegOp>) -> bool {
    &&& ops.len() >= 2
    &&& ops[0] matches RegOp::Read { reg, value } && reg == Register::ModemConfig2SpreadingFactor
        && SpreadingFactor::is_raw(value)
    &&& ops[1] matches RegOp::Read { reg, value } && reg == Register::ModemConfig1Bw
        && Bandwidth::is_raw(value)
}

/// The symbol duration in microseconds of the setting that `ops` starts by reading.
pub open spec fn logged_symbol_airtime(ops: Seq<RegOp>) -> int {
    spec_symbol_airtime_micros(
        SpreadingFactor::spec_from_raw(read_value(ops[0])),
        Bandwidth::spec_from_raw(read_value(ops[1])),
    )
}

/// The number of whole symbols that cover `timeout` microseconds.
pub open spec fn timeout_symbols(timeout: int, symbol: int) -> int {
    (timeout + symbol - 1) / symbol
}

/// Scheduling a reception with a timeout of `symbols` symbols.
pub open spec fn start_rx_writes(symbols: int) -> Seq<RegOp> {
    seq![
        RegOp::Write { reg: Register::ModemConfig2SymbTimeout98, value: (symbols / 256) as u8 },
        RegOp::Write { reg: Register::SymbTimeoutLsb, value: (symbols % 256) as u8 },
        RegOp::Write { reg: Register::FifoAddrPtr, value: 0 },
        RegOp::Write { reg: Register::IrqFlagsMaskRxDoneMask, value: 0 },
        RegOp::Write { reg: Register::IrqFlagsMaskRxTimeoutMask, value: 0 },
        RegOp::Write { reg: Register::IrqFlagsMaskPayloadCrcErrorMask, value: 0 },
        RegOp::Write { reg: Register::IrqFlagsRxDone, value: 1 },
        RegOp::Write { reg: Register::IrqFlagsRxTimeout, value: 1 },
        RegOp::Write { reg: Register::IrqFlagsPayloadCrcError, value: 1 },
        RegOp::Write { reg: Register::OpModeMode, value: MODE_RX_SINGLE },
    ]
}

/// Reading `values` out of the FIFO from address `start` on, wrapping at the end of the
/// FIFO's 8-bit address space.
pub open spec fn fifo_read_ops(start: u8, values: Seq<u8>) -> Seq<RegOp> {
    Seq::new(
        (2 * values.len()) as nat,
        |j: int|
            if j % 2 == 0 {
                RegOp::Write { reg: Register::FifoAddrPtr, value: ((start + j / 2) % 256) as u8 }
            } else {
                RegOp::Read { reg: Register::Fifo, value: values[j / 2] }
            },
    )
}

/// The polls of a finished reception: no timeout, no CRC error, done; then the packet's start
/// address and length.
pub open spec fn rx_done_ops(start: u8, len: u8) -> Seq<RegOp> {
    seq![
        RegOp::Read { reg: Register::IrqFlagsRxTimeout, value: 0 },
        RegOp::Read { reg: Register::IrqFlagsPayloadCrcError, value: 0 },
        RegOp::Read { reg: Register::IrqFlagsRxDone, value: 1 },
        RegOp::Read { reg: Register::FifoRxCurrentAddr, value: start },
        RegOp::Read { reg: Register::RxNbBytes, value: len },
    ]
}

/// The frequency in Hz that a logged frequency read (three reads) reports.
pub open spec fn logged_frequency(ops: Seq<RegOp>) -> int {
    spec_raw_to_hz(raw_of_bytes(read_value(ops[0]), read_value(ops[1]), read_value(ops[2])))
}

/// Reading the frequency back from registers that hold what [`Rfm95Driver::set_frequency`]
/// wrote gives, for a valid frequency, at most 62 Hz less than was set (one register step of
/// about 61.035 Hz, plus the rounding of the read-back), and never more.
pub proof fn lemma_frequency_read_back(hz: u32)
    requires
        crate::frequency::is_valid_frequency(hz),
    ensures
        ({
            let written = set_frequency_ops(hz);
            let read = read_frequency_ops(
                written[1]->Write_value,
                written[2]->Write_value,
                written[3]->Write_value,
            );
            hz as int - 62 <= logged_frequency(read) <= hz as int
        }),
{
    let raw = spec_hz_to_raw(hz);
    let l = raw % (FREQUENCY_RAW_LIMIT as int);
    assert(0 <= raw < 0x100_0000) by (nonlinear_arith)
        requires
            raw == (hz as int * 1000) / 61035,
            raw < 0x100_0000,
    ;
    assert(l == raw);
    assert(l == (l / 65536) * 65536 + ((l / 256) % 256) * 256 + l % 256) by (nonlinear_arith)
        requires
            0 <= l,
    ;
    assert(l / 65536 < 256) by (nonlinear_arith)
        requires
            0 <= l < 0x100_0000,
    ;
    assert(raw_of_bytes(frequency_byte(hz, 0), frequency_byte(hz, 1), frequency_byte(hz, 2)) == raw);
    crate::frequency::lemma_frequency_round_trip(hz);
}

/// A timeout fits the 10-bit symbol counter exactly when it is at most 1023 symbols long: the
/// timeouts that [`Rfm95Driver::start_rx`] accepts are those up to
/// [`Rfm95Driver::rx_timeout_max`] (and up to `i32::MAX` microseconds).
pub proof fn lemma_timeout_symbols_limit(timeout: nat, symbol: nat)
    requires
        symbol > 0,
    ensures
        timeout_symbols(timeout as int, symbol as int) < 1024 <==> timeout <= MAX_TIMEOUT_SYMBOLS
            * symbol,
{
    let q = (timeout + symbol - 1) / (symbol as int);
    assert(q * symbol <= timeout + symbol - 1 < q * symbol + symbol) by (nonlinear_arith)
        requires
            symbol > 0,
            q == (timeout + symbol - 1) / (symbol as int),
    ;
    if q < 1024 {
        assert(q * symbol <= 1023 * symbol) by (nonlinear_arith)
            requires
                q <= 1023,
                symbol > 0,
        ;
    } else {
        assert(q * symbol >= 1024 * symbol) by (nonlinear_arith)
            requires
                q >= 1024,
                symbol > 0,
        ;
    }
}

/// A register-level driver for an RFM95 LoRa transceiver.
///
/// The driver holds no state of its own besides the connection: every getter reads the chip,
/// and transmit and receive progress lives in the chip's interrupt flags.
pub struct Rfm95Driver<C: RegisterConnection> {
    spi: Rfm95Connection<C>,
}

impl<C: RegisterConnection> Rfm95Driver<C> {
    /// The register operations this driver has performed, oldest first.
    pub closed spec fn log(&self) -> Seq<RegOp> {
        self.spi.log()
    }

    /// Wraps a transport to a freshly reset chip; nothing is sent to the chip yet.
    ///
    /// Call [`Self::setup`] before any other operation.
    pub fn new(bus: C) -> (r: Self)
        ensures
            r.log() == Seq::<RegOp>::empty(),
    {
        Rfm95Driver { spi: Rfm95Connection::init(bus) }
    }

    /// Puts a freshly reset chip into LoRa standby mode with the whole FIFO in use.
    ///
    /// With `check_revision`, the silicon revision is read first and a chip this driver does
    /// not support is refused before anything is written. The other settings are left as they
    /// are (see [`Self::set_config`]).
    pub fn setup(&mut self, check_revision: bool) -> (r: Result<(), IoError>)
        ensures
            extends(old(self).log(), final(self).log()),
            ({
                let ops = since(old(self).log(), final(self).log());
                let expected = setup_ops(check_revision, read_value(ops[0]));
                match r {
                    Ok(()) => ops == expected && (check_revision ==> is_supported_revision(
                        read_value(ops[0]),
                    )),
                    Err(IoError::UnsupportedRevision) => {
                        &&& check_revision
                        &&& ops.len() == 1
                        &&& ops[0] matches RegOp::Read { reg, value } && reg == Register::Version
                            && !is_supported_revision(value)
                    },
                    Err(e) => e == IoError::Transport && failed_during(ops, expected, e),
                }
            }),
    {
        let ghost l0 = self.log();
        proof { lemma_since(l0, Seq::empty()); assert(l0 + Seq::<RegOp>::empty() =~= l0); }
        let ghost mut pre: Seq<RegOp> = Seq::empty();
        if check_revision {
            let revision = match self.read_reg(Register::Version, Ghost(l0)) {
                Ok(v) => v,
                Err(e) => {
                    assert(setup_ops(check_revision, read_value(since(l0, self.log())[0])).subrange(0, 0)
                        =~= since(l0, self.log()).subrange(0, 0));
                    return Err(e);
                },
            };
            if let Err(e) = check_silicon_revision(revision) {
                return Err(e);
            }
            proof { pre = seq![RegOp::Read { reg: Register::Version, value: revision }]; }
        }
        assert(since(l0, self.log()) =~= pre);
        let ghost l1 = self.log();
        let writes: [(Register, u8); 7] = [
            (Register::OpModeMode, MODE_SLEEP),
            (Register::OpModeLongRangeMode, 1),
            (Register::OpModeMode, MODE_STANDBY),
            (Register::OpModeAccessSharedReg, 0),
            (Register::FifoTxBaseAddr, 0),
            (Register::FifoRxBaseAddr, 0),
            (Register::PaConfig, 0xFF),
        ];
        let r = self.write_sequence(&writes, Ghost(l0));
        proof {
            assert(write_ops(writes@) =~= setup_writes());
            lemma_extends_trans(l0, l1, self.log());
            assert(pre + setup_writes() == setup_ops(check_revision, read_value(since(l0, self.log())[0])));
        }
        if let Err(e) = r {
            proof {
                lemma_failed_after(pre, since(l1, self.log()), setup_writes(), e);
            }
            return Err(e);
        }
        Ok(())
    }

    /// The current spreading factor.
    pub fn spreading_factor(&mut self) -> (r: Result<SpreadingFactor, IoError>)
        ensures
            extends(old(self).log(), final(self).log()),
            read_outcome(
                since(old(self).log(), final(self).log()),
                Register::ModemConfig2SpreadingFactor,
                r,
                |v: u8| SpreadingFactor::is_raw(v),
                |x: SpreadingFactor| x.spec_raw(),
            ),
    {
        let raw = self.spi.read(Register::ModemConfig2SpreadingFactor);
        let r = match raw {
            Ok(v) => SpreadingFactor::parse(v),
            Err(e) => Err(e),
        };
        proof {
            lemma_since_one(old(self).log(), self.log());
        }
        r
    }

    /// Writes each `(register, value)` pair of `writes` in turn, tracking the operations
    /// performed since `base`; stops at the first failure.
    fn write_sequence(&mut self, writes: &[(Register, u8)], Ghost(base): Ghost<Seq<RegOp>>) -> (r: Result<(), IoError>)
        requires
            extends(base, old(self).log()),
            forall|i: int| 0 <= i < writes@.len() ==> (#[trigger] writes@[i]).0.wf() && writes@[i].1 <= writes@[i].0.spec_mask(),
        ensures
            extends(base, final(self).log()),
            extends(old(self).log(), final(self).log()),
            since(base, final(self).log()) == since(base, old(self).log()) + since(old(self).log(), final(self).log()),
            match r {
                Ok(()) => since(old(self).log(), final(self).log()) == write_ops(writes@),
                Err(e) => e == IoError::Transport && failed_during(
                    since(old(self).log(), final(self).log()),
                    write_ops(writes@),
                    e,
                ),
            },
    {
        let ghost l0 = self.log();
        proof { lemma_since(l0, Seq::empty()); assert(l0 + Seq::<RegOp>::empty() =~= l0); }
        let mut i: usize = 0;
        assert(write_ops(writes@).subrange(0, 0) =~= Seq::<RegOp>::empty());
        while i < writes.len()
            invariant
                l0 == old(self).log(),
                extends(base, l0),
                0 <= i <= writes@.len(),
                forall|i: int| 0 <= i < writes@.len() ==> (#[trigger] writes@[i]).0.wf() && writes@[i].1 <= writes@[i].0.spec_mask(),
                extends(l0, self.log()),
                since(l0, self.log()) == write_ops(writes@).subrange(0, i as int),
            decreases writes@.len() - i,
        {
            let (reg, value) = writes[i];
            if let Err(e) = self.write_reg(reg, value, Ghost(l0)) {
                proof {
                    let ops = since(l0, self.log());
                    assert(ops.subrange(0, i as int) =~= write_ops(writes@).subrange(0, i as int));
                    assert forall|j: int| 0 <= j < i implies decodes(#[trigger] ops[j]) by {
                        assert(ops[j] == write_ops(writes@)[j]);
                    }
                    lemma_extends_trans(base, l0, self.log());
                }
                return Err(e);
            }
            assert(write_ops(writes@).subrange(0, i + 1) =~= write_ops(writes@).subrange(0, i as int).push(
                RegOp::Write { reg, value },
            ));
            i = i + 1;
        }
        assert(write_ops(writes@).subrange(0, i as int) =~= write_ops(writes@));
        proof { lemma_extends_trans(base, l0, self.log()); }
        Ok(())
    }

    /// Reads the field `reg`, tracking the operations performed since `base`.
    fn read_reg(&mut self, reg: Register, Ghost(base): Ghost<Seq<RegOp>>) -> (r: Result<u8, IoError>)
        requires
            reg.wf(),
            extends(base, old(self).log()),
        ensures
            extends(base, final(self).log()),
            match r {
                Ok(v) => since(base, final(self).log()) == since(base, old(self).log()).push(
                    RegOp::Read { reg, value: v },
                ) && v <= reg.spec_mask(),
                Err(e) => e == IoError::Transport && since(base, final(self).log()) == since(
                    base,
                    old(self).log(),
                ).push(RegOp::Fault { reg }),
            },
    {
        let r = self.spi.read(reg);
        proof {
            lemma_push(base, old(self).log(), self.log().last());
        }
        r
    }

    /// Writes `v` to the field `reg`, tracking the operations performed since `base`.
    fn write_reg(&mut self, reg: Register, v: u8, Ghost(base): Ghost<Seq<RegOp>>) -> (r: Result<(), IoError>)
        requires
            reg.wf(),
            v <= reg.spec_mask(),
            extends(base, old(self).log()),
        ensures
            extends(base, final(self).log()),
            match r {
                Ok(()) => since(base, final(self).log()) == since(base, old(self).log()).push(
                    RegOp::Write { reg, value: v },
                ),
                Err(e) => e == IoError::Transport && since(base, final(self).log()) == since(
                    base,
                    old(self).log(),
                ).push(RegOp::Fault { reg }),
            },
    {
        let r = self.spi.write(reg, v);
        proof {
            lemma_push(base, old(self).log(), self.log().last());
        }
        r
    }

    /// The current bandwidth.
    pub fn bandwidth(&mut self) -> (r: Result<Bandwidth, IoError>)
        ensures
            extends(old(self).log(), final(self).log()),
            read_outcome(
                since(old(self).log(), final(self).log()),
                Register::ModemConfig1Bw,
                r,
                |v: u8| Bandwidth::is_raw(v),
                |x: Bandwidth| x.spec_raw(),
            ),
    {
        let raw = self.spi.read(Register::ModemConfig1Bw);
        let r = match raw {
            Ok(v) => Bandwidth::parse(v),
            Err(e) => Err(e),
        };
        proof {
            lemma_since_one(old(self).log(), self.log());
        }
        r
    }

    /// The current coding rate.
    pub fn coding_rate(&mut self) -> (r: Result<CodingRate, IoError>)
        ensures
            extends(old(self).log(), final(self).log()),
            read_outcome(
                since(old(self).log(), final(self).log()),
                Register::ModemConfig1CodingRate,
                r,
                |v: u8| CodingRate::is_raw(v),
                |x: CodingRate| x.spec_raw(),
            ),
    {
        let raw = self.spi.read(Register::ModemConfig1CodingRate);
        let r = match raw {
            Ok(v) => CodingRate::parse(v),
            Err(e) => Err(e),
        };
        proof {
            lemma_since_one(old(self).log(), self.log());
        }
        r
    }

    /// Sets the coding rate.
    pub fn set_coding_rate(&mut self, coding_rate: CodingRate) -> (r: Result<(), IoError>)
        ensures
            extends(old(self).log(), final(self).log()),
            write_outcome(since(old(self).log(), final(self).log()), Register::ModemConfig1CodingRate, coding_rate.spec_raw(), r),
    {
        let r = self.spi.write(Register::ModemConfig1CodingRate, coding_rate.raw());
        proof {
            lemma_since_one(old(self).log(), self.log());
        }
        r
    }

    /// The current IQ polarity.
    pub fn polarity(&mut self) -> (r: Result<Polarity, IoError>)
        ensures
            extends(old(self).log(), final(self).log()),
            read_outcome(
                since(old(self).log(), final(self).log()),
                Register::InvertIQ,
                r,
                |v: u8| v <= 1,
                |x: Polarity| x.spec_raw(),
            ),
    {
        let raw = self.spi.read(Register::InvertIQ);
        let r = match raw {
            Ok(v) => Polarity::parse(v),
            Err(e) => Err(e),
        };
        proof {
            lemma_since_one(old(self).log(), self.log());
        }
        r
    }

    /// Sets the IQ polarity.
    pub fn set_polarity(&mut self, polarity: Polarity) -> (r: Result<(), IoError>)
        ensures
            extends(old(self).log(), final(self).log()),
            write_outcome(since(old(self).log(), final(self).log()), Register::InvertIQ, polarity.spec_raw(), r),
    {
        let r = self.spi.write(Register::InvertIQ, polarity.raw());
        proof {
            lemma_since_one(old(self).log(), self.log());
        }
        r
    }

    /// The current header mode.
    pub fn header_mode(&mut self) -> (r: Result<HeaderMode, IoError>)
        ensures
            extends(old(self).log(), final(self).log()),
            read_outcome(
                since(old(self).log(), final(self).log()),
                Register::ModemConfig1ImplicitHeaderModeOn,
                r,
                |v: u8| v <= 1,
                |x: HeaderMode| x.spec_raw(),
            ),
    {
        let raw = self.spi.read(Register::ModemConfig1ImplicitHeaderModeOn);
        let r = match raw {
            Ok(v) => HeaderMode::parse(v),
            Err(e) => Err(e),
        };
        proof {
            lemma_since_one(old(self).log(), self.log());
        }
        r
    }

    /// Sets the header mode.
    pub fn set_header_mode(&mut self, header_mode: HeaderMode) -> (r: Result<(), IoError>)
        ensures
            extends(old(self).log(), final(self).log()),
            write_outcome(since(old(self).log(), final(self).log()), Register::ModemConfig1ImplicitHeaderModeOn, header_mode.spec_raw(), r),
    {
        let r = self.spi.write(Register::ModemConfig1ImplicitHeaderModeOn, header_mode.raw());
        proof {
            lemma_since_one(old(self).log(), self.log());
        }
        r
    }

    /// The current CRC mode.
    pub fn crc_mode(&mut self) -> (r: Result<CrcMode, IoError>)
        ensures
            extends(old(self).log(), final(self).log()),
            read_outcome(
                since(old(self).log(), final(self).log()),
                Register::ModemConfig2RxPayloadCrcOn,
                r,
                |v: u8| v <= 1,
                |x: CrcMode| x.spec_raw(),
            ),
    {
        let raw = self.spi.read(Register::ModemConfig2RxPayloadCrcOn);
        let r = match raw {
            Ok(v) => CrcMode::parse(v),
            Err(e) => Err(e),
        };
        proof {
            lemma_since_one(old(self).log(), self.log());
        }
        r
    }

    /// Sets the CRC mode.
    pub fn set_crc_mode(&mut self, crc: CrcMode) -> (r: Result<(), IoError>)
        ensures
            extends(old(self).log(), final(self).log()),
            write_outcome(since(old(self).log(), final(self).log()), Register::ModemConfig2RxPayloadCrcOn, crc.spec_raw(), r),
    {
        let r = self.spi.write(Register::ModemConfig2RxPayloadCrcOn, crc.raw());
        proof {
            lemma_since_one(old(self).log(), self.log());
        }
        r
    }

    /// Applies a whole configuration: spreading factor, then bandwidth, then the rest.
    ///
    /// This order makes the low-data-rate-optimization bit, which both of the first two
    /// setters write, agree with the final pair. A failure stops the sequence at once.
    #[verifier::rlimit(100)]
    pub fn set_config(&mut self, config: &Config) -> (r: Result<(), IoError>)
        requires
            is_valid_frequency(config.frequency.hz),
        ensures
            extends(old(self).log(), final(self).log()),
            ({
                let ops = since(old(self).log(), final(self).log());
                let expected = set_config_ops(*config, read_value(ops[0]), read_value(ops[3]));
                match r {
                    Ok(()) => {
                        &&& ops.len() > 3
                        &&& Bandwidth::is_raw(read_value(ops[0]))
                        &&& SpreadingFactor::is_raw(read_value(ops[3]))
                        &&& ops == expected
                    },
                    Err(e) => failed_during(ops, expected, e),
                }
            }),
    {
        let ghost l0 = self.log();
        let hz = config.frequency.hz;
        let mode: u8 = if hz < HIGH_FREQUENCY_THRESHOLD_HZ { 1 } else { 0 };
        let (msb, mid, lsb) = frequency_to_bytes(hz);
        let len = config.preamble_len.value;
        let writes: [(Register, u8); 11] = [
            (Register::ModemConfig1CodingRate, config.coding_rate.raw()),
            (Register::InvertIQ, config.polarity.raw()),
            (Register::ModemConfig1ImplicitHeaderModeOn, config.header_mode.raw()),
            (Register::ModemConfig2RxPayloadCrcOn, config.crc_mode.raw()),
            (Register::SyncWord, config.sync_word.value),
            (Register::PreambleMsb, (len / 256) as u8),
            (Register::PreambleLsb, (len % 256) as u8),
            (Register::OpModeLowFrequencyModeOn, mode),
            (Register::FrMsb, msb),
            (Register::FrMid, mid),
            (Register::FrLsb, lsb),
        ];
        let ghost tail = write_ops(writes@);
        assert(tail =~= seq![
            RegOp::Write { reg: Register::ModemConfig1CodingRate, value: config.coding_rate.spec_raw() },
            RegOp::Write { reg: Register::InvertIQ, value: config.polarity.spec_raw() },
            RegOp::Write {
                reg: Register::ModemConfig1ImplicitHeaderModeOn,
                value: config.header_mode.spec_raw(),
            },
            RegOp::Write { reg: Register::ModemConfig2RxPayloadCrcOn, value: config.crc_mode.spec_raw() },
            RegOp::Write { reg: Register::SyncWord, value: config.sync_word.value },
        ] + set_preamble_len_ops(len) + set_frequency_ops(hz));
        let r = self.set_spreading_factor(config.spreading_factor);
        let ghost l1 = self.log();
        if let Err(e) = r {
            proof {
                let ops1 = since(l0, l1);
                let e1 = set_spreading_factor_ops(config.spreading_factor, read_value(ops1[0]));
                lemma_failed_longer(ops1, e1, set_bandwidth_ops(config.bandwidth, read_value(ops1[3])) + tail, e);
                assert(e1 + (set_bandwidth_ops(config.bandwidth, read_value(ops1[3])) + tail) =~= set_config_ops(
                    *config,
                    read_value(ops1[0]),
                    read_value(ops1[3]),
                ));
            }
            return Err(e);
        }
        let r = self.set_bandwidth(config.bandwidth);
        let ghost l2 = self.log();
        proof { lemma_extends_trans(l0, l1, l2); }
        let ghost ops1 = since(l0, l1);
        let ghost ops2 = since(l1, l2);
        proof {
            assert forall|i: int| 0 <= i < ops1.len() implies decodes(#[trigger] ops1[i]) by {}
        }
        if let Err(e) = r {
            proof {
                let e2 = set_bandwidth_ops(config.bandwidth, read_value(ops2[0]));
                lemma_failed_longer(ops2, e2, tail, e);
                lemma_failed_after(ops1, ops2, e2 + tail, e);
                assert((ops1 + ops2)[0] == ops1[0]);
                assert((ops1 + ops2)[3] == ops2[0]);
                assert(ops1 + (e2 + tail) =~= set_config_ops(*config, read_value(ops1[0]), read_value(ops2[0])));
            }
            return Err(e);
        }
        let r = self.write_sequence(&writes, Ghost(l0));
        let ghost l3 = self.log();
        proof {
            lemma_extends_trans(l0, l2, l3);
            let ops12 = ops1 + ops2;
            assert(ops12[0] == ops1[0]);
            assert(ops12[3] == ops2[0]);
            assert(since(l0, l3) == ops12 + since(l2, l3));
            assert((ops12 + since(l2, l3))[0] == ops1[0]);
            assert((ops12 + since(l2, l3))[3] == ops2[0]);
            assert(ops12 + tail =~= set_config_ops(*config, read_value(ops1[0]), read_value(ops2[0])));
            assert forall|i: int| 0 <= i < ops12.len() implies decodes(#[trigger] ops12[i]) by {
                if i < 3 {
                    assert(ops12[i] == ops1[i]);
                } else {
                    assert(ops12[i] == ops2[i - 3]);
                }
            }
            if let Err(e) = r {
                lemma_failed_after(ops12, since(l2, l3), tail, e);
            }
        }
        r
    }

    /// Sets the spreading factor, and the low-data-rate-optimization bit for it together with
    /// the bandwidth the chip currently has.
    ///
    /// The bandwidth is read before anything is written.
    pub fn set_spreading_factor(&mut self, spreading_factor: SpreadingFactor) -> (r: Result<(), IoError>)
        ensures
            extends(old(self).log(), final(self).log()),
            ({
                let ops = since(old(self).log(), final(self).log());
                let expected = set_spreading_factor_ops(spreading_factor, read_value(ops[0]));
                match r {
                    Ok(()) => {
                        &&& ops.len() == 3
                        &&& Bandwidth::is_raw(read_value(ops[0]))
                        &&& ops == expected
                    },
                    Err(e) => failed_during(ops, expected, e),
                }
            }),
    {
        let ghost l0 = self.log();
        let bandwidth = self.bandwidth();
        let ghost l1 = self.log();
        let bandwidth = match bandwidth {
            Ok(b) => b,
            Err(e) => {
                proof {
                    lemma_failed_read(
                        since(l0, l1),
                        Register::ModemConfig1Bw,
                        Err::<Bandwidth, IoError>(e),
                        |v: u8| Bandwidth::is_raw(v),
                        |x: Bandwidth| x.spec_raw(),
                        set_spreading_factor_ops(spreading_factor, read_value(since(l0, l1)[0])),
                    );
                }
                return Err(e);
            },
        };
        let ldo: u8 = if needs_ldo(spreading_factor, bandwidth) { 1 } else { 0 };
        let writes: [(Register, u8); 2] = [
            (Register::ModemConfig2SpreadingFactor, spreading_factor.raw()),
            (Register::ModemConfig3LowDataRateOptimize, ldo),
        ];
        let r = self.write_sequence(&writes, Ghost(l0));
        proof {
            lemma_from_raw_of_raw(spreading_factor, bandwidth);
            let pre = since(l0, l1);
            assert(pre == seq![RegOp::Read { reg: Register::ModemConfig1Bw, value: bandwidth.spec_raw() }]);
            assert(set_spreading_factor_ops(spreading_factor, bandwidth.spec_raw()) =~= pre + write_ops(writes@));
            assert(decodes(pre[0]));
            if let Err(e) = r {
                lemma_failed_after(pre, since(l1, self.log()), write_ops(writes@), e);
            }
        }
        r
    }

    /// Sets the bandwidth, and the low-data-rate-optimization bit for it together with
    /// the spreading factor the chip currently has.
    ///
    /// The spreading factor is read before anything is written.
    pub fn set_bandwidth(&mut self, bandwidth: Bandwidth) -> (r: Result<(), IoError>)
        ensures
            extends(old(self).log(), final(self).log()),
            ({
                let ops = since(old(self).log(), final(self).log());
                let expected = set_bandwidth_ops(bandwidth, read_value(ops[0]));
                match r {
                    Ok(()) => {
                        &&& ops.len() == 3
                        &&& SpreadingFactor::is_raw(read_value(ops[0]))
                        &&& ops == expected
                    },
                    Err(e) => failed_during(ops, expected, e),
                }
            }),
    {
        let ghost l0 = self.log();
        let spreading_factor = self.spreading_factor();
        let ghost l1 = self.log();
        let spreading_factor = match spreading_factor {
            Ok(b) => b,
            Err(e) => {
                proof {
                    lemma_failed_read(
                        since(l0, l1),
                        Register::ModemConfig2SpreadingFactor,
                        Err::<SpreadingFactor, IoError>(e),
                        |v: u8| SpreadingFactor::is_raw(v),
                        |x: SpreadingFactor| x.spec_raw(),
                        set_bandwidth_ops(bandwidth, read_value(since(l0, l1)[0])),
                    );
                }
                return Err(e);
            },
        };
        let ldo: u8 = if needs_ldo(spreading_factor, bandwidth) { 1 } else { 0 };
        let writes: [(Register, u8); 2] = [
            (Register::ModemConfig1Bw, bandwidth.raw()),
            (Register::ModemConfig3LowDataRateOptimize, ldo),
        ];
        let r = self.write_sequence(&writes, Ghost(l0));
        proof {
            lemma_from_raw_of_raw(spreading_factor, bandwidth);
            let pre = since(l0, l1);
            assert(pre == seq![RegOp::Read { reg: Register::ModemConfig2SpreadingFactor, value: spreading_factor.spec_raw() }]);
            assert(set_bandwidth_ops(bandwidth, spreading_factor.spec_raw()) =~= pre + write_ops(writes@));
            assert(decodes(pre[0]));
            if let Err(e) = r {
                lemma_failed_after(pre, since(l1, self.log()), write_ops(writes@), e);
            }
        }
        r
    }

    /// The current sync word.
    pub fn sync_word(&mut self) -> (r: Result<SyncWord, IoError>)
        ensures
            extends(old(self).log(), final(self).log()),
            read_outcome(
                since(old(self).log(), final(self).log()),
                Register::SyncWord,
                r,
                |v: u8| true,
                |x: SyncWord| x.value,
            ),
    {
        let r = match self.spi.read(Register::SyncWord) {
            Ok(v) => Ok(SyncWord::new(v)),
            Err(e) => Err(e),
        };
        proof {
            lemma_since_one(old(self).log(), self.log());
        }
        r
    }

    /// Sets the sync word.
    pub fn set_sync_word(&mut self, sync_word: SyncWord) -> (r: Result<(), IoError>)
        ensures
            extends(old(self).log(), final(self).log()),
            write_outcome(since(old(self).log(), final(self).log()), Register::SyncWord, sync_word.value, r),
    {
        let r = self.spi.write(Register::SyncWord, sync_word.value);
        proof {
            lemma_since_one(old(self).log(), self.log());
        }
        r
    }

    /// The current preamble length.
    pub fn preamble_len(&mut self) -> (r: Result<PreambleLength, IoError>)
        ensures
            extends(old(self).log(), final(self).log()),
            ({
                let ops = since(old(self).log(), final(self).log());
                match r {
                    Ok(p) => ops == seq![
                        RegOp::Read { reg: Register::PreambleMsb, value: (p.value / 256) as u8 },
                        RegOp::Read { reg: Register::PreambleLsb, value: (p.value % 256) as u8 },
                    ],
                    Err(e) => e == IoError::Transport && io_failure(ops, e),
                }
            }),
    {
        let ghost l0 = self.log();
        proof { lemma_since(l0, Seq::empty()); assert(l0 + Seq::<RegOp>::empty() =~= l0); }
        let msb = match self.read_reg(Register::PreambleMsb, Ghost(l0)) {
            Ok(v) => v,
            Err(e) => return Err(e),
        };
        let lsb = match self.read_reg(Register::PreambleLsb, Ghost(l0)) {
            Ok(v) => v,
            Err(e) => return Err(e),
        };
        let value: u16 = msb as u16 * 256 + lsb as u16;
        assert(value / 256 == msb && value % 256 == lsb);
        proof {
            assert(since(l0, self.log()) =~= seq![
                RegOp::Read { reg: Register::PreambleMsb, value: msb },
                RegOp::Read { reg: Register::PreambleLsb, value: lsb },
            ]);
        }
        Ok(PreambleLength::new(value))
    }

    /// Sets the preamble length.
    pub fn set_preamble_len(&mut self, len: PreambleLength) -> (r: Result<(), IoError>)
        ensures
            extends(old(self).log(), final(self).log()),
            ({
                let ops = since(old(self).log(), final(self).log());
                match r {
                    Ok(()) => ops == set_preamble_len_ops(len.value),
                    Err(e) => e == IoError::Transport && io_failure(ops, e),
                }
            }),
    {
        let ghost l0 = self.log();
        proof { lemma_since(l0, Seq::empty()); assert(l0 + Seq::<RegOp>::empty() =~= l0); }
        if let Err(e) = self.write_reg(Register::PreambleMsb, (len.value / 256) as u8, Ghost(l0)) {
            return Err(e);
        }
        if let Err(e) = self.write_reg(Register::PreambleLsb, (len.value % 256) as u8, Ghost(l0)) {
            return Err(e);
        }
        proof {
            assert(since(l0, self.log()) =~= set_preamble_len_ops(len.value));
        }
        Ok(())
    }

    /// The current carrier frequency.
    pub fn frequency(&mut self) -> (r: Result<Frequency, IoError>)
        ensures
            extends(old(self).log(), final(self).log()),
            ({
                let ops = since(old(self).log(), final(self).log());
                match r {
                    Ok(f) => {
                        &&& ops.len() == 3
                        &&& ops == read_frequency_ops(
                            read_value(ops[0]),
                            read_value(ops[1]),
                            read_value(ops[2]),
                        )
                        &&& f.hz == logged_frequency(ops)
                    },
                    Err(e) => e == IoError::Transport && io_failure(ops, e),
                }
            }),
    {
        let ghost l0 = self.log();
        proof { lemma_since(l0, Seq::empty()); assert(l0 + Seq::<RegOp>::empty() =~= l0); }
        let msb = match self.read_reg(Register::FrMsb, Ghost(l0)) {
            Ok(v) => v,
            Err(e) => return Err(e),
        };
        let mid = match self.read_reg(Register::FrMid, Ghost(l0)) {
            Ok(v) => v,
            Err(e) => return Err(e),
        };
        let lsb = match self.read_reg(Register::FrLsb, Ghost(l0)) {
            Ok(v) => v,
            Err(e) => return Err(e),
        };
        proof {
            assert(since(l0, self.log()) =~= read_frequency_ops(msb, mid, lsb));
        }
        Ok(Frequency::hz(frequency_from_bytes(msb, mid, lsb)))
    }

    /// Sets the carrier frequency, and the band bit: low-frequency mode below 652 MHz.
    ///
    /// The frequency must fit the 24-bit register value (see
    /// [`crate::frequency::frequency_in_range`]).
    pub fn set_frequency(&mut self, frequency: Frequency) -> (r: Result<(), IoError>)
        requires
            is_valid_frequency(frequency.hz),
        ensures
            extends(old(self).log(), final(self).log()),
            ({
                let ops = since(old(self).log(), final(self).log());
                match r {
                    Ok(()) => ops == set_frequency_ops(frequency.hz),
                    Err(e) => e == IoError::Transport && io_failure(ops, e),
                }
            }),
    {
        let ghost l0 = self.log();
        proof { lemma_since(l0, Seq::empty()); assert(l0 + Seq::<RegOp>::empty() =~= l0); }
        let mode: u8 = if frequency.hz < HIGH_FREQUENCY_THRESHOLD_HZ { 1 } else { 0 };
        if let Err(e) = self.write_reg(Register::OpModeLowFrequencyModeOn, mode, Ghost(l0)) {
            return Err(e);
        }
        let (msb, mid, lsb) = frequency_to_bytes(frequency.hz);
        if let Err(e) = self.write_reg(Register::FrMsb, msb, Ghost(l0)) {
            return Err(e);
        }
        if let Err(e) = self.write_reg(Register::FrMid, mid, Ghost(l0)) {
            return Err(e);
        }
        if let Err(e) = self.write_reg(Register::FrLsb, lsb, Ghost(l0)) {
            return Err(e);
        }
        proof {
            assert(since(l0, self.log()) =~= set_frequency_ops(frequency.hz));
        }
        Ok(())
    }

    /// Schedules the transmission of one packet and returns at once.
    ///
    /// The packet is copied into the FIFO from address 0; completion is polled with
    /// [`Self::complete_tx`]. An empty packet or one longer than the FIFO is refused before any
    /// register is touched.
    pub fn start_tx(&mut self, data: &[u8]) -> (r: Result<(), TxStartError>)
        ensures
            extends(old(self).log(), final(self).log()),
            (data@.len() == 0 || data@.len() > FIFO_SIZE) <==> r matches Err(
                TxStartError::InvalidArgument(_),
            ),
            r matches Err(TxStartError::InvalidArgument(a)) ==> a
                == InvalidArgumentError::InvalidTxLength,
            ({
                let ops = since(old(self).log(), final(self).log());
                match r {
                    Ok(()) => ops == start_tx_ops(data@),
                    Err(TxStartError::InvalidArgument(_)) => ops.len() == 0,
                    Err(TxStartError::Io(e)) => e == IoError::Transport && io_failure(ops, e),
                }
            }),
    {
        let ghost l0 = self.log();
        proof { lemma_since(l0, Seq::empty()); assert(l0 + Seq::<RegOp>::empty() =~= l0); }
        if data.len() == 0 || data.len() > FIFO_SIZE {
            return Err(TxStartError::InvalidArgument(InvalidArgumentError::InvalidTxLength));
        }
        let mut i: usize = 0;
        while i < data.len()
            invariant
                l0 == old(self).log(),
                0 <= i <= data@.len() <= FIFO_SIZE,
                extends(l0, self.log()),
                since(l0, self.log()) == fifo_write_ops(data@.subrange(0, i as int)),
            decreases data@.len() - i,
        {
            if let Err(e) = self.write_reg(Register::FifoAddrPtr, i as u8, Ghost(l0)) {
                return Err(TxStartError::Io(e));
            }
            if let Err(e) = self.write_reg(Register::Fifo, data[i], Ghost(l0)) {
                return Err(TxStartError::Io(e));
            }
            assert(fifo_write_ops(data@.subrange(0, i + 1)) =~= fifo_write_ops(data@.subrange(0, i as int)).push(
                RegOp::Write { reg: Register::FifoAddrPtr, value: i as u8 },
            ).push(RegOp::Write { reg: Register::Fifo, value: data@[i as int] }));
            i = i + 1;
        }
        assert(data@.subrange(0, i as int) =~= data@);
        let tail: [(Register, u8); 4] = [
            (Register::PayloadLength, data.len() as u8),
            (Register::IrqFlagsMaskTxDoneMask, 0),
            (Register::IrqFlagsTxDone, 1),
            (Register::OpModeMode, MODE_TX_SINGLE),
        ];
        if let Err(e) = self.write_sequence(&tail, Ghost(l0)) {
            return Err(TxStartError::Io(e));
        }
        assert(start_tx_ops(data@) =~= fifo_write_ops(data@) + write_ops(tail@));
        assert(since(l0, self.log()) =~= start_tx_ops(data@));
        Ok(())
    }

    /// Polls a scheduled transmission: `None` while it is running, else the number of bytes
    /// sent.
    pub fn complete_tx(&mut self) -> (r: Result<Option<usize>, IoError>)
        ensures
            extends(old(self).log(), final(self).log()),
            ({
                let ops = since(old(self).log(), final(self).log());
                match r {
                    Ok(None) => ops == seq![RegOp::Read { reg: Register::IrqFlagsTxDone, value: 0 }],
                    Ok(Some(n)) => n < 256 && ops == seq![
                        RegOp::Read { reg: Register::IrqFlagsTxDone, value: 1 },
                        RegOp::Read { reg: Register::PayloadLength, value: n as u8 },
                    ],
                    Err(e) => e == IoError::Transport && io_failure(ops, e),
                }
            }),
    {
        let ghost l0 = self.log();
        proof { lemma_since(l0, Seq::empty()); assert(l0 + Seq::<RegOp>::empty() =~= l0); }
        let done = match self.read_reg(Register::IrqFlagsTxDone, Ghost(l0)) {
            Ok(v) => v,
            Err(e) => return Err(e),
        };
        if done != 1 {
            assert(since(l0, self.log()) =~= seq![RegOp::Read { reg: Register::IrqFlagsTxDone, value: 0 }]);
            return Ok(None);
        }
        let written = match self.read_reg(Register::PayloadLength, Ghost(l0)) {
            Ok(v) => v,
            Err(e) => return Err(e),
        };
        assert(since(l0, self.log()) =~= seq![
            RegOp::Read { reg: Register::IrqFlagsTxDone, value: 1 },
            RegOp::Read { reg: Register::PayloadLength, value: written },
        ]);
        Ok(Some(written as usize))
    }

    /// Reads the spreading factor and the bandwidth, and gives the symbol duration.
    fn symbol_airtime(&mut self) -> (r: Result<u64, IoError>)
        ensures
            extends(old(self).log(), final(self).log()),
            ({
                let ops = since(old(self).log(), final(self).log());
                match r {
                    Ok(t) => ops.len() == 2 && modulation_reads(ops) && t == logged_symbol_airtime(ops),
                    Err(e) => failed_during(
                        ops,
                        modulation_read_ops(read_value(ops[0]), read_value(ops[1])),
                        e,
                    ),
                }
            }),
    {
        let ghost l0 = self.log();
        let spreading_factor = self.spreading_factor();
        let ghost l1 = self.log();
        let spreading_factor = match spreading_factor {
            Ok(v) => v,
            Err(e) => {
                proof {
                    let ops = since(l0, l1);
                    lemma_failed_read(
                        ops,
                        Register::ModemConfig2SpreadingFactor,
                        Err::<SpreadingFactor, IoError>(e),
                        |v: u8| SpreadingFactor::is_raw(v),
                        |x: SpreadingFactor| x.spec_raw(),
                        modulation_read_ops(read_value(ops[0]), read_value(ops[1])),
                    );
                }
                return Err(e);
            },
        };
        let bandwidth = self.bandwidth();
        let ghost l2 = self.log();
        proof { lemma_extends_trans(l0, l1, l2); }
        let bandwidth = match bandwidth {
            Ok(v) => v,
            Err(e) => {
                proof {
                    let ops1 = since(l0, l1);
                    let ops2 = since(l1, l2);
                    let ex = seq![RegOp::Read { reg: Register::ModemConfig1Bw, value: read_value(ops2[0]) }];
                    lemma_failed_read(
                        ops2,
                        Register::ModemConfig1Bw,
                        Err::<Bandwidth, IoError>(e),
                        |v: u8| Bandwidth::is_raw(v),
                        |x: Bandwidth| x.spec_raw(),
                        ex,
                    );
                    lemma_from_raw_of_raw(spreading_factor, Bandwidth::B125);
                    assert(decodes(ops1[0]));
                    lemma_failed_after(ops1, ops2, ex, e);
                    assert((ops1 + ops2)[0] == ops1[0]);
                    assert((ops1 + ops2)[1] == ops2[0]);
                    assert(ops1 + ex =~= modulation_read_ops(read_value(ops1[0]), read_value(ops2[0])));
                }
                return Err(e);
            },
        };
        proof {
            lemma_from_raw_of_raw(spreading_factor, bandwidth);
        }
        Ok(symbol_airtime_micros(spreading_factor, bandwidth))
    }

    /// The longest RX timeout, in microseconds, that [`Self::start_rx`] accepts with the
    /// current spreading factor and bandwidth: 1023 symbols.
    pub fn rx_timeout_max(&mut self) -> (r: Result<u64, IoError>)
        ensures
            extends(old(self).log(), final(self).log()),
            ({
                let ops = since(old(self).log(), final(self).log());
                match r {
                    Ok(t) => ops.len() == 2 && modulation_reads(ops) && t == MAX_TIMEOUT_SYMBOLS
                        * logged_symbol_airtime(ops),
                    Err(e) => failed_during(
                        ops,
                        modulation_read_ops(read_value(ops[0]), read_value(ops[1])),
                        e,
                    ),
                }
            }),
    {
        let symbol = match self.symbol_airtime() {
            Ok(v) => v,
            Err(e) => return Err(e),
        };
        proof {
            lemma_symbol_airtime_bounds(
                SpreadingFactor::spec_from_raw(read_value(since(old(self).log(), self.log())[0])),
                Bandwidth::spec_from_raw(read_value(since(old(self).log(), self.log())[1])),
            );
        }
        Ok(symbol * MAX_TIMEOUT_SYMBOLS)
    }

    /// Schedules the reception of one packet and returns at once.
    ///
    /// The timeout, in microseconds, is rounded up to whole symbols of the current setting.
    /// A timeout beyond `i32::MAX` microseconds or of 1024 symbols or more is refused before
    /// any register is written. Completion is polled with [`Self::complete_rx`].
    pub fn start_rx(&mut self, timeout_micros: u64) -> (r: Result<(), RxStartError>)
        ensures
            extends(old(self).log(), final(self).log()),
            ({
                let ops = since(old(self).log(), final(self).log());
                let symbols = timeout_symbols(timeout_micros as int, logged_symbol_airtime(ops) as int);
                match r {
                    Ok(()) => {
                        &&& modulation_reads(ops)
                        &&& timeout_micros <= i32::MAX
                        &&& symbols < 1024
                        &&& ops == ops.subrange(0, 2) + start_rx_writes(symbols)
                    },
                    Err(RxStartError::InvalidArgument(InvalidArgumentError::TimeoutTooLong)) => {
                        &&& ops.len() == 2
                        &&& modulation_reads(ops)
                        &&& timeout_micros > i32::MAX
                    },
                    Err(RxStartError::InvalidArgument(InvalidArgumentError::TimeoutTooManySymbols)) => {
                        &&& ops.len() == 2
                        &&& modulation_reads(ops)
                        &&& timeout_micros <= i32::MAX
                        &&& symbols >= 1024
                    },
                    Err(RxStartError::InvalidArgument(InvalidArgumentError::InvalidTxLength)) => false,
                    Err(RxStartError::Io(e)) => failed_during(
                        ops,
                        modulation_read_ops(read_value(ops[0]), read_value(ops[1])) + start_rx_writes(
                            symbols,
                        ),
                        e,
                    ),
                }
            }),
    {
        let ghost l0 = self.log();
        let symbol = self.symbol_airtime();
        let ghost l1 = self.log();
        let symbol = match symbol {
            Ok(v) => v,
            Err(e) => {
                proof {
                    let ops = since(l0, l1);
                    lemma_failed_longer(
                        ops,
                        modulation_read_ops(read_value(ops[0]), read_value(ops[1])),
                        start_rx_writes(timeout_symbols(timeout_micros as int, logged_symbol_airtime(ops) as int)),
                        e,
                    );
                }
                return Err(RxStartError::Io(e));
            },
        };
        proof {
            lemma_symbol_airtime_bounds(
                SpreadingFactor::spec_from_raw(read_value(since(l0, l1)[0])),
                Bandwidth::spec_from_raw(read_value(since(l0, l1)[1])),
            );
        }
        if timeout_micros > i32::MAX as u64 {
            return Err(RxStartError::InvalidArgument(InvalidArgumentError::TimeoutTooLong));
        }
        let symbols = ceil_div(timeout_micros, symbol);
        if symbols >= 1024 {
            return Err(RxStartError::InvalidArgument(InvalidArgumentError::TimeoutTooManySymbols));
        }
        let writes: [(Register, u8); 10] = [
            (Register::ModemConfig2SymbTimeout98, (symbols / 256) as u8),
            (Register::SymbTimeoutLsb, (symbols % 256) as u8),
            (Register::FifoAddrPtr, 0),
            (Register::IrqFlagsMaskRxDoneMask, 0),
            (Register::IrqFlagsMaskRxTimeoutMask, 0),
            (Register::IrqFlagsMaskPayloadCrcErrorMask, 0),
            (Register::IrqFlagsRxDone, 1),
            (Register::IrqFlagsRxTimeout, 1),
            (Register::IrqFlagsPayloadCrcError, 1),
            (Register::OpModeMode, MODE_RX_SINGLE),
        ];
        let r = self.write_sequence(&writes, Ghost(l0));
        proof {
            let pre = since(l0, l1);
            assert(write_ops(writes@) =~= start_rx_writes(symbols as int));
            assert(pre =~= modulation_read_ops(read_value(pre[0]), read_value(pre[1])));
            assert(decodes(pre[0]) && decodes(pre[1]));
            assert forall|i: int| 0 <= i < pre.len() implies decodes(#[trigger] pre[i]) by {}
            let full = since(l0, self.log());
            assert(full[0] == pre[0]);
            assert(full[1] == pre[1]);
            if let Err(e) = r {
                lemma_failed_after(pre, since(l1, self.log()), start_rx_writes(symbols as int), e);
            }
        }
        if let Err(e) = r {
            return Err(RxStartError::Io(e));
        }
        assert(since(l0, self.log()) =~= since(l0, self.log()).subrange(0, 2) + start_rx_writes(symbols as int));
        Ok(())
    }

    /// Polls a scheduled reception.
    ///
    /// The timeout flag is checked first, then the CRC error flag; only when neither is set is
    /// the done flag checked (`None` while the reception runs). When done, the packet is copied
    /// from the FIFO into `buf` (as much of it as fits) and its full length is returned: a
    /// length above `buf.len()` means the copy was truncated.
    pub fn complete_rx(&mut self, buf: &mut [u8]) -> (r: Result<Option<usize>, RxCompleteError>)
        ensures
            extends(old(self).log(), final(self).log()),
            final(buf)@.len() == old(buf)@.len(),
            !(r matches Ok(Some(_))) && !(r matches Err(RxCompleteError::Io(_))) ==> final(buf)@ == old(buf)@,
            ({
                let ops = since(old(self).log(), final(self).log());
                match r {
                    Err(RxCompleteError::Timeout) => ops == seq![
                        RegOp::Read { reg: Register::IrqFlagsRxTimeout, value: 1 },
                    ],
                    Err(RxCompleteError::InvalidMessage) => ops == seq![
                        RegOp::Read { reg: Register::IrqFlagsRxTimeout, value: 0 },
                        RegOp::Read { reg: Register::IrqFlagsPayloadCrcError, value: 1 },
                    ],
                    Ok(None) => ops == seq![
                        RegOp::Read { reg: Register::IrqFlagsRxTimeout, value: 0 },
                        RegOp::Read { reg: Register::IrqFlagsPayloadCrcError, value: 0 },
                        RegOp::Read { reg: Register::IrqFlagsRxDone, value: 0 },
                    ],
                    Ok(Some(len)) => {
                        let n = if len < old(buf)@.len() { len as int } else { old(buf)@.len() as int };
                        let start = read_value(ops[3]);
                        &&& len < 256
                        &&& ops == rx_done_ops(start, len as u8) + fifo_read_ops(
                            start,
                            final(buf)@.subrange(0, n),
                        )
                        &&& final(buf)@.subrange(n, old(buf)@.len() as int) == old(buf)@.subrange(
                            n,
                            old(buf)@.len() as int,
                        )
                    },
                    Err(RxCompleteError::Io(e)) => e == IoError::Transport && io_failure(ops, e),
                }
            }),
    {
        let ghost l0 = self.log();
        proof { lemma_since(l0, Seq::empty()); assert(l0 + Seq::<RegOp>::empty() =~= l0); }
        let timeout = match self.read_reg(Register::IrqFlagsRxTimeout, Ghost(l0)) {
            Ok(v) => v,
            Err(e) => return Err(RxCompleteError::Io(e)),
        };
        if timeout != 0 {
            assert(since(l0, self.log()) =~= seq![RegOp::Read { reg: Register::IrqFlagsRxTimeout, value: 1 }]);
            return Err(RxCompleteError::Timeout);
        }
        let crc_error = match self.read_reg(Register::IrqFlagsPayloadCrcError, Ghost(l0)) {
            Ok(v) => v,
            Err(e) => return Err(RxCompleteError::Io(e)),
        };
        if crc_error != 0 {
            assert(since(l0, self.log()) =~= seq![
                RegOp::Read { reg: Register::IrqFlagsRxTimeout, value: 0 },
                RegOp::Read { reg: Register::IrqFlagsPayloadCrcError, value: 1 },
            ]);
            return Err(RxCompleteError::InvalidMessage);
        }
        let done = match self.read_reg(Register::IrqFlagsRxDone, Ghost(l0)) {
            Ok(v) => v,
            Err(e) => return Err(RxCompleteError::Io(e)),
        };
        if done != 1 {
            assert(since(l0, self.log()) =~= seq![
                RegOp::Read { reg: Register::IrqFlagsRxTimeout, value: 0 },
                RegOp::Read { reg: Register::IrqFlagsPayloadCrcError, value: 0 },
                RegOp::Read { reg: Register::IrqFlagsRxDone, value: 0 },
            ]);
            return Ok(None);
        }
        let start = match self.read_reg(Register::FifoRxCurrentAddr, Ghost(l0)) {
            Ok(v) => v,
            Err(e) => return Err(RxCompleteError::Io(e)),
        };
        let len = match self.read_reg(Register::RxNbBytes, Ghost(l0)) {
            Ok(v) => v,
            Err(e) => return Err(RxCompleteError::Io(e)),
        };
        assert(since(l0, self.log()) =~= rx_done_ops(start, len));
        let to_copy: usize = if (len as usize) < buf.len() { len as usize } else { buf.len() };
        let ghost buf0 = buf@;
        let mut i: usize = 0;
        assert(fifo_read_ops(start, buf@.subrange(0, 0)) =~= Seq::<RegOp>::empty());
        assert(rx_done_ops(start, len) + Seq::<RegOp>::empty() =~= rx_done_ops(start, len));
        while i < to_copy
            invariant
                l0 == old(self).log(),
                0 <= i <= to_copy <= buf@.len(),
                to_copy <= len,
                buf@.len() == buf0.len(),
                buf0 == old(buf)@,
                extends(l0, self.log()),
                since(l0, self.log()) == rx_done_ops(start, len) + fifo_read_ops(start, buf@.subrange(0, i as int)),
                buf@.subrange(i as int, buf@.len() as int) == buf0.subrange(i as int, buf0.len() as int),
            decreases to_copy - i,
        {
            let offset: u8 = ((start as usize + i) % 256) as u8;
            if let Err(e) = self.write_reg(Register::FifoAddrPtr, offset, Ghost(l0)) {
                return Err(RxCompleteError::Io(e));
            }
            let byte = match self.read_reg(Register::Fifo, Ghost(l0)) {
                Ok(v) => v,
                Err(e) => return Err(RxCompleteError::Io(e)),
            };
            let ghost before = buf@;
            buf[i] = byte;
            assert(fifo_read_ops(start, buf@.subrange(0, i + 1)) =~= fifo_read_ops(start, before.subrange(0, i as int)).push(
                RegOp::Write { reg: Register::FifoAddrPtr, value: offset },
            ).push(RegOp::Read { reg: Register::Fifo, value: byte }));
            assert(buf@.subrange(i + 1, buf@.len() as int) =~= buf0.subrange(i + 1, buf0.len() as int)) by {
                assert forall|k: int| i + 1 <= k < buf@.len() implies buf@[k] == buf0[k] by {
                    assert(before.subrange(i as int, before.len() as int)[k - i] == buf0.subrange(i as int, buf0.len() as int)[k - i]);
                }
            }
            i = i + 1;
        }
        Ok(Some(len as usize))
    }

    /// The RSSI, in dBm, of the last received packet.
    ///
    /// The raw register value is read as a signed byte and offset by a constant of the band
    /// the chip is set to: the low-frequency mode bit selects it.
    pub fn get_packet_rssi(&mut self) -> (r: Result<i16, IoError>)
        ensures
            extends(old(self).log(), final(self).log()),
            ({
                let ops = since(old(self).log(), final(self).log());
                let expected = seq![
                    RegOp::Read { reg: Register::PktRssiValue, value: read_value(ops[0]) },
                    RegOp::Read { reg: Register::OpModeLowFrequencyModeOn, value: read_value(ops[1]) },
                ];
                match r {
                    Ok(rssi) => {
                        &&& ops == expected
                        &&& rssi == spec_rssi_of_raw(read_value(ops[0]), read_value(ops[1]) == 1)
                    },
                    Err(e) => e == IoError::Transport && failed_during(ops, expected, e),
                }
            }),
    {
        let ghost l0 = self.log();
        proof { lemma_since(l0, Seq::empty()); assert(l0 + Seq::<RegOp>::empty() =~= l0); }
        let raw = match self.read_reg(Register::PktRssiValue, Ghost(l0)) {
            Ok(v) => v,
            Err(e) => {
                proof {
                    let ops = since(l0, self.log());
                    let ex = seq![
                        RegOp::Read { reg: Register::PktRssiValue, value: read_value(ops[0]) },
                        RegOp::Read { reg: Register::OpModeLowFrequencyModeOn, value: read_value(ops[1]) },
                    ];
                    assert(ops.subrange(0, 0) =~= ex.subrange(0, 0));
                    assert(reg_of(ex[0]) == Register::PktRssiValue);
                }
                return Err(e);
            },
        };
        let low_band = match self.read_reg(Register::OpModeLowFrequencyModeOn, Ghost(l0)) {
            Ok(v) => v,
            Err(e) => {
                proof {
                    let ops = since(l0, self.log());
                    let ex = seq![
                        RegOp::Read { reg: Register::PktRssiValue, value: read_value(ops[0]) },
                        RegOp::Read { reg: Register::OpModeLowFrequencyModeOn, value: read_value(ops[1]) },
                    ];
                    assert(ops[0] == (RegOp::Read { reg: Register::PktRssiValue, value: raw }));
                    assert(ops.subrange(0, 1) =~= ex.subrange(0, 1));
                    assert(reg_of(ex[1]) == Register::OpModeLowFrequencyModeOn);
                    assert(decodes(ops[0]));
                }
                return Err(e);
            },
        };
        let offset: i16 = if low_band == 1 { LF_RSSI_OFFSET } else { HF_RSSI_OFFSET };
        assert(since(l0, self.log()) =~= seq![
            RegOp::Read { reg: Register::PktRssiValue, value: raw },
            RegOp::Read { reg: Register::OpModeLowFrequencyModeOn, value: low_band },
        ]);
        Ok(signed_of_byte(raw) + offset)
    }

    /// The SNR, in dB, of the last received packet.
    pub fn get_packet_snr(&mut self) -> (r: Result<i8, IoError>)
        ensures
            extends(old(self).log(), final(self).log()),
            ({
                let ops = since(old(self).log(), final(self).log());
                match r {
                    Ok(snr) => {
                        &&& ops.len() == 1
                        &&& ops[0] matches RegOp::Read { reg, value } && reg == Register::PktSnrValue
                            && snr == spec_snr_of_raw(value)
                    },
                    Err(e) => e == IoError::Transport && ops == seq![RegOp::Fault { reg: Register::PktSnrValue }],
                }
            }),
    {
        let raw = self.spi.read(Register::PktSnrValue);
        proof {
            lemma_since_one(old(self).log(), self.log());
        }
        match raw {
            Ok(v) => Ok(snr_of_raw(v)),
            Err(e) => Err(e),
        }
    }

    /// The signal strength, in dBm, of the last received packet: its RSSI, lowered by its SNR
    /// where that is negative.
    pub fn get_packet_strength(&mut self) -> (r: Result<i16, IoError>)
        ensures
            extends(old(self).log(), final(self).log()),
            ({
                let ops = since(old(self).log(), final(self).log());
                match r {
                    Ok(strength) => {
                        &&& ops == seq![
                            RegOp::Read { reg: Register::PktSnrValue, value: read_value(ops[0]) },
                            RegOp::Read { reg: Register::PktRssiValue, value: read_value(ops[1]) },
                            RegOp::Read {
                                reg: Register::OpModeLowFrequencyModeOn,
                                value: read_value(ops[2]),
                            },
                        ]
                        &&& strength == spec_packet_strength(
                            spec_rssi_of_raw(read_value(ops[1]), read_value(ops[2]) == 1),
                            spec_snr_of_raw(read_value(ops[0])),
                        )
                    },
                    Err(e) => e == IoError::Transport && io_failure(ops, e),
                }
            }),
    {
        let ghost l0 = self.log();
        let snr = self.get_packet_snr();
        let ghost l1 = self.log();
        let snr = match snr {
            Ok(v) => v,
            Err(e) => return Err(e),
        };
        let rssi = self.get_packet_rssi();
        let ghost l2 = self.log();
        proof { lemma_extends_trans(l0, l1, l2); }
        let rssi = match rssi {
            Ok(v) => v,
            Err(e) => return Err(e),
        };
        proof {
            assert(since(l0, l2) =~= since(l0, l1) + since(l1, l2));
        }
        Ok(packet_strength(rssi, snr))
    }

    /// Returns the chip to standby, which aborts a scheduled transmission or reception.
    pub fn standby(&mut self) -> (r: Result<(), IoError>)
        ensures
            extends(old(self).log(), final(self).log()),
            write_outcome(since(old(self).log(), final(self).log()), Register::OpModeMode, MODE_STANDBY, r),
    {
        let r = self.spi.write(Register::OpModeMode, MODE_STANDBY);
        proof {
            lemma_since_one(old(self).log(), self.log());
        }
        r
    }

    /// Reads every register, by address.
    pub fn dump_registers(&mut self) -> (r: Result<Vec<u8>, IoError>)
        ensures
            extends(old(self).log(), final(self).log()),
            ({
                let ops = since(old(self).log(), final(self).log());
                match r {
                    Ok(d) => {
                        &&& d@.len() == REGISTER_MAX + 1
                        &&& ops == Seq::new(
                            d@.len(),
                            |i: int| RegOp::Read { reg: Register::Raw(i as u8), value: d@[i] },
                        )
                    },
                    Err(e) => e == IoError::Transport && io_failure(ops, e),
                }
            }),
    {
        let ghost l0 = self.log();
        proof { lemma_since(l0, Seq::empty()); assert(l0 + Seq::<RegOp>::empty() =~= l0); }
        let mut dump: Vec<u8> = Vec::new();
        let mut address: u16 = 0;
        while address <= REGISTER_MAX as u16
            invariant
                l0 == old(self).log(),
                address <= REGISTER_MAX + 1,
                dump@.len() == address,
                extends(l0, self.log()),
                since(l0, self.log()) == Seq::new(
                    dump@.len(),
                    |i: int| RegOp::Read { reg: Register::Raw(i as u8), value: dump@[i] },
                ),
            decreases REGISTER_MAX + 1 - address,
        {
            let value = match self.read_reg(Register::Raw(address as u8), Ghost(l0)) {
                Ok(v) => v,
                Err(e) => return Err(e),
            };
            let ghost before = dump@;
            dump.push(value);
            assert(Seq::new(
                dump@.len(),
                |i: int| RegOp::Read { reg: Register::Raw(i as u8), value: dump@[i] },
            ) =~= Seq::new(
                before.len(),
                |i: int| RegOp::Read { reg: Register::Raw(i as u8), value: before[i] },
            ).push(RegOp::Read { reg: Register::Raw(address as u8), value }));
            address = address + 1;
        }
        Ok(dump)
    }

    /// Reads the whole FIFO, restoring the FIFO address pointer afterwards.
    pub fn dump_fifo(&mut self) -> (r: Result<Vec<u8>, IoError>)
        ensures
            extends(old(self).log(), final(self).log()),
            ({
                let ops = since(old(self).log(), final(self).log());
                match r {
                    Ok(d) => {
                        let position = read_value(ops[0]);
                        &&& d@.len() == FIFO_ADDRESSES
                        &&& ops == seq![RegOp::Read { reg: Register::FifoAddrPtr, value: position }]
                            + fifo_read_ops(0, d@) + seq![
                            RegOp::Write { reg: Register::FifoAddrPtr, value: position },
                        ]
                    },
                    Err(e) => e == IoError::Transport && io_failure(ops, e),
                }
            }),
    {
        let ghost l0 = self.log();
        proof { lemma_since(l0, Seq::empty()); assert(l0 + Seq::<RegOp>::empty() =~= l0); }
        let position = match self.read_reg(Register::FifoAddrPtr, Ghost(l0)) {
            Ok(v) => v,
            Err(e) => return Err(e),
        };
        let ghost first = seq![RegOp::Read { reg: Register::FifoAddrPtr, value: position }];
        let mut dump: Vec<u8> = Vec::new();
        let mut i: usize = 0;
        assert(first + fifo_read_ops(0, dump@) =~= first);
        while i < FIFO_ADDRESSES
            invariant
                l0 == old(self).log(),
                i <= FIFO_ADDRESSES,
                dump@.len() == i,
                extends(l0, self.log()),
                since(l0, self.log()) == first + fifo_read_ops(0, dump@),
            decreases FIFO_ADDRESSES - i,
        {
            if let Err(e) = self.write_reg(Register::FifoAddrPtr, i as u8, Ghost(l0)) {
                return Err(e);
            }
            let value = match self.read_reg(Register::Fifo, Ghost(l0)) {
                Ok(v) => v,
                Err(e) => return Err(e),
            };
            let ghost before = dump@;
            dump.push(value);
            assert(fifo_read_ops(0, dump@) =~= fifo_read_ops(0, before).push(
                RegOp::Write { reg: Register::FifoAddrPtr, value: i as u8 },
            ).push(RegOp::Read { reg: Register::Fifo, value }));
            i = i + 1;
        }
        if let Err(e) = self.write_reg(Register::FifoAddrPtr, position, Ghost(l0)) {
            return Err(e);
        }
        Ok(dump)
    }

    /// The underlying transport.
    pub fn bus(&self) -> &C {
        self.spi.bus()
    }

    /// Gives the underlying transport back.
    pub fn into_bus(self) -> C {
        self.spi.into_bus()
    }
}

} // verus!
