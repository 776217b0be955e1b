use rfm95::airtime::{needs_ldo, symbol_airtime_micros};
use rfm95::config::Config;
use rfm95::connection::{BusFault, RegisterConnection};
use rfm95::driver::{check_silicon_revision, Rfm95Driver};
use rfm95::signal::{packet_strength, snr_of_raw};
use rfm95::error::{InvalidArgumentError, IoError, RxCompleteError, RxStartError, TxStartError};
use rfm95::frequency::{frequency_from_bytes, frequency_in_range, frequency_to_bytes};
use rfm95::types::{
    Bandwidth, CodingRate, CrcMode, Frequency, HeaderMode, Polarity, PreambleLength,
    SpreadingFactor, SyncWord,
};
use std::cell::RefCell;
use std::rc::Rc;

/// A simulated chip: a register file, a FIFO behind the FIFO data register, and
/// write-one-to-clear interrupt flags.
struct Chip {
    regs: [u8; 128],
    fifo: [u8; 256],
    writes: Vec<(u8, u8)>,
    fail: bool,
}

#[derive(Clone)]
struct MockBus(Rc<RefCell<Chip>>);

impl RegisterConnection for MockBus {
    fn read(&mut self, address: u8) -> Result<u8, BusFault> {
        let mut chip = self.0.borrow_mut();
        if chip.fail {
            return Err(BusFault);
        }
        if address == 0x00 {
            let ptr = chip.regs[0x0D];
            chip.regs[0x0D] = ptr.wrapping_add(1);
            return Ok(chip.fifo[ptr as usize]);
        }
        Ok(chip.regs[address as usize])
    }

    fn write(&mut self, address: u8, value: u8) -> Result<(), BusFault> {
        let mut chip = self.0.borrow_mut();
        if chip.fail {
            return Err(BusFault);
        }
        chip.writes.push((address, value));
        if address == 0x00 {
            let ptr = chip.regs[0x0D];
            chip.fifo[ptr as usize] = value;
            chip.regs[0x0D] = ptr.wrapping_add(1);
        } else if address == 0x12 {
            chip.regs[0x12] &= !value;
        } else {
            chip.regs[address as usize] = value;
        }
        Ok(())
    }
}

fn chip() -> Rc<RefCell<Chip>> {
    let mut regs = [0u8; 128];
    regs[0x42] = 0x12;
    // Bandwidth 125 kHz, coding rate 4/5; spreading factor 7.
    regs[0x1D] = 0x72;
    regs[0x1E] = 0x70;
    Rc::new(RefCell::new(Chip { regs, fifo: [0; 256], writes: Vec::new(), fail: false }))
}

fn driver(chip: &Rc<RefCell<Chip>>) -> Rfm95Driver<MockBus> {
    let mut d = Rfm95Driver::new(MockBus(chip.clone()));
    d.setup(true).unwrap();
    chip.borrow_mut().writes.clear();
    d
}

fn config(sf: SpreadingFactor, bw: Bandwidth) -> Config {
    Config {
        spreading_factor: sf,
        bandwidth: bw,
        coding_rate: CodingRate::C4_5,
        polarity: Polarity::Normal,
        header_mode: HeaderMode::Explicit,
        crc_mode: CrcMode::Enabled,
        sync_word: SyncWord::new(0x34),
        preamble_len: PreambleLength::new(8),
        frequency: Frequency::hz(868_100_000),
    }
}

#[test]
fn init_puts_chip_into_lora_standby() {
    let c = chip();
    let mut d = Rfm95Driver::new(MockBus(c.clone()));
    assert_eq!(d.setup(true), Ok(()));
    let chip = c.borrow();
    assert_eq!(chip.regs[0x01] & 0x80, 0x80);
    assert_eq!(chip.regs[0x01] & 0x40, 0);
    assert_eq!(chip.regs[0x01] & 0x07, 0b001);
    assert_eq!(chip.regs[0x0E], 0);
    assert_eq!(chip.regs[0x0F], 0);
    assert_eq!(chip.regs[0x09], 0xFF);
}

#[test]
fn init_rejects_unknown_revision() {
    let c = chip();
    c.borrow_mut().regs[0x42] = 0x22;
    let mut d = Rfm95Driver::new(MockBus(c.clone()));
    assert_eq!(d.setup(true), Err(IoError::UnsupportedRevision));
    assert!(c.borrow().writes.is_empty());
    assert_eq!(d.setup(false), Ok(()));
    assert_eq!(check_silicon_revision(0x11), Ok(()));
    assert_eq!(check_silicon_revision(0x12), Ok(()));
    assert_eq!(check_silicon_revision(0x13), Err(IoError::UnsupportedRevision));
}

#[test]
fn bus_fault_is_a_transport_error() {
    let c = chip();
    let mut d = driver(&c);
    c.borrow_mut().fail = true;
    assert_eq!(d.spreading_factor(), Err(IoError::Transport));
    assert_eq!(d.set_sync_word(SyncWord::new(1)), Err(IoError::Transport));
}

#[test]
fn frequency_round_trip_868_1_mhz() {
    let c = chip();
    let mut d = driver(&c);
    d.set_frequency(Frequency::hz(868_100_000)).unwrap();
    let f = d.frequency().unwrap().hz;
    // Within one register step of the frequency that was set.
    assert!(f <= 868_100_000 && f >= 868_100_000 - 62);
    assert_eq!(f, 868_099_950);
}

#[test]
fn frequency_codec_exact_values() {
    // 868.1 MHz * 1000 / 61035 = 14222986 = 0xD9068A
    assert_eq!(frequency_to_bytes(868_100_000), (0xD9, 0x06, 0x8A));
    assert_eq!(frequency_from_bytes(0xD9, 0x06, 0x8A), 868_099_950);
    assert_eq!(frequency_to_bytes(0), (0, 0, 0));
    assert!(frequency_in_range(1_023_997_378));
    assert!(!frequency_in_range(1_023_997_379));
    assert!(!frequency_in_range(1_100_000_000));
}

#[test]
fn frequency_mode_bit_follows_threshold() {
    let c = chip();
    let mut d = driver(&c);
    d.set_frequency(Frequency::hz(651_999_999)).unwrap();
    assert_eq!(c.borrow().regs[0x01] & 0x08, 0x08);
    d.set_frequency(Frequency::hz(652_000_000)).unwrap();
    assert_eq!(c.borrow().regs[0x01] & 0x08, 0);
    d.set_frequency(Frequency::hz(433_000_000)).unwrap();
    assert_eq!(c.borrow().regs[0x01] & 0x08, 0x08);
}

#[test]
fn ldo_coupling() {
    assert!(needs_ldo(SpreadingFactor::S12, Bandwidth::B125));
    assert!(!needs_ldo(SpreadingFactor::S7, Bandwidth::B500));
    let c = chip();
    let mut d = driver(&c);
    d.set_config(&config(SpreadingFactor::S12, Bandwidth::B125)).unwrap();
    assert_eq!(c.borrow().regs[0x26] & 0x08, 0x08);
    d.set_config(&config(SpreadingFactor::S7, Bandwidth::B500)).unwrap();
    assert_eq!(c.borrow().regs[0x26] & 0x08, 0);
}

#[test]
fn set_config_round_trips_settings() {
    let c = chip();
    let mut d = driver(&c);
    let cfg = Config {
        spreading_factor: SpreadingFactor::S9,
        bandwidth: Bandwidth::B250,
        coding_rate: CodingRate::C4_8,
        polarity: Polarity::Inverted,
        header_mode: HeaderMode::Implicit,
        crc_mode: CrcMode::Disabled,
        sync_word: SyncWord::new(0x12),
        preamble_len: PreambleLength::new(0x0102),
        frequency: Frequency::hz(915_000_000),
    };
    d.set_config(&cfg).unwrap();
    assert_eq!(d.spreading_factor(), Ok(SpreadingFactor::S9));
    assert_eq!(d.bandwidth(), Ok(Bandwidth::B250));
    assert_eq!(d.coding_rate(), Ok(CodingRate::C4_8));
    assert_eq!(d.polarity(), Ok(Polarity::Inverted));
    assert_eq!(d.header_mode(), Ok(HeaderMode::Implicit));
    assert_eq!(d.crc_mode(), Ok(CrcMode::Disabled));
    assert_eq!(d.sync_word(), Ok(SyncWord::new(0x12)));
    assert_eq!(d.preamble_len(), Ok(PreambleLength::new(0x0102)));
    assert_eq!(c.borrow().regs[0x20], 0x01);
    assert_eq!(c.borrow().regs[0x21], 0x02);
    // Field writes keep the neighbouring fields.
    assert_eq!(c.borrow().regs[0x1D], (8 << 4) | (4 << 1) | 1);
}

#[test]
fn undecodable_register_is_invalid_value() {
    let c = chip();
    let mut d = driver(&c);
    c.borrow_mut().regs[0x1E] = 0x30;
    assert_eq!(d.spreading_factor(), Err(IoError::InvalidValue));
    assert_eq!(d.set_bandwidth(Bandwidth::B125), Err(IoError::InvalidValue));
    c.borrow_mut().regs[0x1D] = 0xF2;
    assert_eq!(d.bandwidth(), Err(IoError::InvalidValue));
    c.borrow_mut().regs[0x1D] = 0x70;
    assert_eq!(d.coding_rate(), Err(IoError::InvalidValue));
}

#[test]
fn start_tx_rejects_bad_lengths_without_writes() {
    let c = chip();
    let mut d = driver(&c);
    let err = Err(TxStartError::InvalidArgument(InvalidArgumentError::InvalidTxLength));
    assert_eq!(d.start_tx(&[]), err);
    assert_eq!(d.start_tx(&[0u8; 256]), err);
    assert!(c.borrow().writes.is_empty());
    assert_eq!(d.start_tx(&[7u8; 255]), Ok(()));
}

#[test]
fn start_tx_fills_fifo_and_starts() {
    let c = chip();
    let mut d = driver(&c);
    c.borrow_mut().regs[0x12] = 0x08;
    d.start_tx(&[1, 2, 3]).unwrap();
    let chip = c.borrow();
    assert_eq!(&chip.fifo[0..3], &[1, 2, 3]);
    assert_eq!(chip.regs[0x22], 3);
    assert_eq!(chip.regs[0x12] & 0x08, 0);
    assert_eq!(chip.regs[0x01] & 0x07, 0b011);
    assert_eq!(&chip.writes[0..2], &[(0x0D, 0), (0x00, 1)]);
}

#[test]
fn complete_tx_pending_then_length() {
    let c = chip();
    let mut d = driver(&c);
    d.start_tx(&[9, 8, 7, 6]).unwrap();
    assert_eq!(d.complete_tx(), Ok(None));
    c.borrow_mut().regs[0x12] |= 0x08;
    assert_eq!(d.complete_tx(), Ok(Some(4)));
}

#[test]
fn rx_timeout_max_sf7_bw125() {
    assert_eq!(symbol_airtime_micros(SpreadingFactor::S7, Bandwidth::B125), 1024);
    assert_eq!(symbol_airtime_micros(SpreadingFactor::S12, Bandwidth::B7_8), 524_288);
    let c = chip();
    let mut d = driver(&c);
    assert_eq!(d.rx_timeout_max(), Ok(1023 * 1024));
}

#[test]
fn start_rx_limits() {
    let c = chip();
    let mut d = driver(&c);
    assert_eq!(
        d.start_rx(i32::MAX as u64 + 1),
        Err(RxStartError::InvalidArgument(InvalidArgumentError::TimeoutTooLong))
    );
    assert_eq!(
        d.start_rx(1023 * 1024 + 1),
        Err(RxStartError::InvalidArgument(InvalidArgumentError::TimeoutTooManySymbols))
    );
    assert!(c.borrow().writes.is_empty());
    assert_eq!(d.start_rx(1023 * 1024), Ok(()));
    let chip = c.borrow();
    assert_eq!(chip.regs[0x1E] & 0x03, 0x03);
    assert_eq!(chip.regs[0x1F], 0xFF);
    assert_eq!(chip.regs[0x01] & 0x07, 0b110);
    assert_eq!(chip.regs[0x11] & 0xE0, 0);
}

#[test]
fn start_rx_rounds_symbols_up() {
    let c = chip();
    let mut d = driver(&c);
    d.start_rx(1025).unwrap();
    assert_eq!(c.borrow().regs[0x1F], 2);
    assert_eq!(c.borrow().regs[0x1E] & 0x03, 0);
}

#[test]
fn complete_rx_flag_priority() {
    let c = chip();
    let mut d = driver(&c);
    let mut buf = [0u8; 4];
    c.borrow_mut().regs[0x12] = 0x80 | 0x40;
    assert_eq!(d.complete_rx(&mut buf), Err(RxCompleteError::Timeout));
    c.borrow_mut().regs[0x12] = 0x20 | 0x40;
    assert_eq!(d.complete_rx(&mut buf), Err(RxCompleteError::InvalidMessage));
    c.borrow_mut().regs[0x12] = 0;
    assert_eq!(d.complete_rx(&mut buf), Ok(None));
    assert_eq!(buf, [0; 4]);
}

#[test]
fn complete_rx_copies_and_reports_full_length() {
    let c = chip();
    let mut d = driver(&c);
    {
        let mut chip = c.borrow_mut();
        for i in 0..256 {
            chip.fifo[i] = i as u8;
        }
        chip.regs[0x12] = 0x40;
        chip.regs[0x10] = 254;
        chip.regs[0x13] = 6;
    }
    let mut buf = [0u8; 4];
    assert_eq!(d.complete_rx(&mut buf), Ok(Some(6)));
    assert_eq!(buf, [254, 255, 0, 1]);
    let mut big = [0xAAu8; 8];
    assert_eq!(d.complete_rx(&mut big), Ok(Some(6)));
    assert_eq!(big, [254, 255, 0, 1, 2, 3, 0xAA, 0xAA]);
}

#[test]
fn packet_strength_values() {
    assert_eq!(packet_strength(-80, -6), -86);
    assert_eq!(packet_strength(-80, 3), -80);
    assert_eq!(packet_strength(-80, 0), -80);
}

#[test]
fn packet_strength_from_registers() {
    let c = chip();
    let mut d = driver(&c);
    d.set_frequency(Frequency::hz(868_100_000)).unwrap();
    c.borrow_mut().regs[0x1A] = 77;
    c.borrow_mut().regs[0x19] = (-24i8) as u8;
    assert_eq!(d.get_packet_rssi(), Ok(-80));
    assert_eq!(d.get_packet_snr(), Ok(-6));
    assert_eq!(d.get_packet_strength(), Ok(-86));
    c.borrow_mut().regs[0x19] = 12;
    assert_eq!(d.get_packet_strength(), Ok(-80));
    d.set_frequency(Frequency::hz(433_000_000)).unwrap();
    assert_eq!(d.get_packet_rssi(), Ok(77 - 164));
}

#[test]
fn rssi_offset_follows_band_bit() {
    let c = chip();
    let mut d = driver(&c);
    // 652 MHz reads back just below the threshold, but the chip is in the high band.
    d.set_frequency(Frequency::hz(652_000_000)).unwrap();
    assert!(d.frequency().unwrap().hz < 652_000_000);
    c.borrow_mut().regs[0x1A] = 100;
    assert_eq!(d.get_packet_rssi(), Ok(-57));
    d.set_frequency(Frequency::hz(651_999_999)).unwrap();
    assert_eq!(d.get_packet_rssi(), Ok(-64));
}

#[test]
fn failed_bandwidth_read_writes_nothing() {
    let c = chip();
    let mut d = driver(&c);
    c.borrow_mut().regs[0x1D] = 0xF2;
    assert_eq!(d.set_spreading_factor(SpreadingFactor::S12), Err(IoError::InvalidValue));
    assert!(c.borrow().writes.is_empty());
    assert_eq!(c.borrow().regs[0x1E], 0x70);
}

#[test]
fn snr_truncates_toward_zero() {
    assert_eq!(snr_of_raw((-3i8) as u8), 0);
    assert_eq!(snr_of_raw((-7i8) as u8), -1);
    assert_eq!(snr_of_raw(7), 1);
    assert_eq!(snr_of_raw(0x80), -32);
}

#[test]
fn dumps_read_everything_and_restore_pointer() {
    let c = chip();
    let mut d = driver(&c);
    c.borrow_mut().regs[0x0D] = 42;
    c.borrow_mut().fifo[5] = 99;
    let fifo = d.dump_fifo().unwrap();
    assert_eq!(fifo.len(), 256);
    assert_eq!(fifo[5], 99);
    assert_eq!(c.borrow().regs[0x0D], 42);
    let regs = d.dump_registers().unwrap();
    assert_eq!(regs.len(), 128);
    assert_eq!(regs[0x42], 0x12);
}

#[test]
fn standby_aborts() {
    let c = chip();
    let mut d = driver(&c);
    d.start_rx(5000).unwrap();
    d.standby().unwrap();
    assert_eq!(c.borrow().regs[0x01] & 0x07, 0b001);
}
