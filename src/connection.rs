//! Field-level register access over a byte-level register transport.
use crate::error::IoError;
use crate::registers::Register;
use vstd::prelude::*;

verus! {

/// A failed bus transaction.
#[derive(Clone, Copy, Debug, PartialEq, Eq, Structural)]
pub struct BusFault;

/// A transport that reads or writes one whole register byte per call.
///
/// Each call is one bus transaction; the chip select line is asserted for that transaction
/// only. Addresses are 7 bits wide.
pub trait RegisterConnection {
    /// Reads the register byte at `address`.
    fn read(&mut self, address: u8) -> Result<u8, BusFault>;

    /// Writes `value` to the register byte at `address`.
    fn write(&mut self, address: u8, value: u8) -> Result<(), BusFault>;
}

/// One byte-level transaction, as performed on the transport.
#[derive(Clone, Copy, Debug, PartialEq, Eq, Structural)]
pub enum BusOp {
    Read { address: u8, value: u8 },
    Write { address: u8, value: u8 },
    Fault { address: u8 },
}

/// One field-level register operation, as the driver sees it.
///
/// `Fault` records an operation that failed on the bus.
#[derive(Clone, Copy, Debug, PartialEq, Eq, Structural)]
pub enum RegOp {
    Read { reg: Register, value: u8 },
    Write { reg: Register, value: u8 },
    Fault { reg: Register },
}

/// The value of a logged read.
pub open spec fn read_value(op: RegOp) -> u8 {
    match op {
        RegOp::Read { reg: _, value } => value,
        _ => 0,
    }
}

/// A register connection that accesses bit fields and logs what it does.
pub struct Rfm95Connection<C: RegisterConnection> {
    bus: C,
    ops: Ghost<Seq<RegOp>>,
    transactions: Ghost<Seq<BusOp>>,
}

impl<C: RegisterConnection> Rfm95Connection<C> {
    /// The field-level operations performed so far.
    pub closed spec fn log(&self) -> Seq<RegOp> {
        self.ops@
    }

    /// The byte-level transactions performed so far.
    pub closed spec fn bus_log(&self) -> Seq<BusOp> {
        self.transactions@
    }

    /// Wraps a transport; nothing has been performed yet.
    pub fn init(bus: C) -> (r: Self)
        ensures
            r.log() == Seq::<RegOp>::empty(),
            r.bus_log() == Seq::<BusOp>::empty(),
    {
        Rfm95Connection { bus, ops: Ghost(Seq::empty()), transactions: Ghost(Seq::empty()) }
    }

    /// The underlying transport.
    pub fn bus(&self) -> &C {
        &self.bus
    }

    /// Gives the underlying transport back.
    pub fn into_bus(self) -> C {
        self.bus
    }

    /// Reads the field `reg`, with one byte read.
    pub fn read(&mut self, reg: Register) -> (r: Result<u8, IoError>)
        requires
            reg.wf(),
        ensures
            match r {
                Ok(v) => {
                    &&& final(self).log() == old(self).log().push(RegOp::Read { reg, value: v })
                    &&& v <= reg.spec_mask()
                    &&& final(self).bus_log().len() == old(self).bus_log().len() + 1
                    &&& final(self).bus_log().drop_last() == old(self).bus_log()
                    &&& final(self).bus_log().last() matches BusOp::Read { address, value }
                        && address == reg.spec_address() && v == reg.field_of(value)
                },
                Err(e) => {
                    &&& e == IoError::Transport
                    &&& final(self).log() == old(self).log().push(RegOp::Fault { reg })
                    &&& final(self).bus_log() == old(self).bus_log().push(
                        BusOp::Fault { address: reg.spec_address() },
                    )
                },
            },
    {
        let address = reg.address();
        match self.bus.read(address) {
            Ok(b) => {
                let v = (b >> reg.shift()) & reg.mask();
                proof {
                    crate::registers::lemma_field_bounded(reg, b);
                }
                self.transactions = Ghost(self.transactions@.push(BusOp::Read { address, value: b }));
                self.ops = Ghost(self.ops@.push(RegOp::Read { reg, value: v }));
                Ok(v)
            },
            Err(_) => {
                self.transactions = Ghost(self.transactions@.push(BusOp::Fault { address }));
                self.ops = Ghost(self.ops@.push(RegOp::Fault { reg }));
                Err(IoError::Transport)
            },
        }
    }

    /// Writes `v` to the field `reg`, leaving the register's other bits unchanged.
    ///
    /// A whole-byte field is written directly; any other field is read, merged and written back.
    pub fn write(&mut self, reg: Register, v: u8) -> (r: Result<(), IoError>)
        requires
            reg.wf(),
            v <= reg.spec_mask(),
        ensures
            match r {
                Ok(()) => {
                    &&& final(self).log() == old(self).log().push(RegOp::Write { reg, value: v })
                    &&& reg.spec_is_whole() ==> final(self).bus_log() == old(self).bus_log().push(
                        BusOp::Write { address: reg.spec_address(), value: v },
                    )
                    &&& !reg.spec_is_whole() ==> {
                        let t = final(self).bus_log();
                        let n = old(self).bus_log().len() as int;
                        &&& t.len() == n + 2
                        &&& t.subrange(0, n) == old(self).bus_log()
                        &&& t[n] matches BusOp::Read { address, value: b }
                            && address == reg.spec_address()
                            && t[n + 1int] == (BusOp::Write { address, value: reg.merge(b, v) })
                    }
                },
                Err(e) => {
                    &&& e == IoError::Transport
                    &&& final(self).log() == old(self).log().push(RegOp::Fault { reg })
                    &&& final(self).bus_log().len() > old(self).bus_log().len()
                    &&& final(self).bus_log().subrange(0, old(self).bus_log().len() as int)
                        == old(self).bus_log()
                    &&& final(self).bus_log().last() == (BusOp::Fault { address: reg.spec_address() })
                },
            },
    {
        let address = reg.address();
        let mask = reg.mask();
        if mask == 0xFF {
            match self.bus.write(address, v) {
                Ok(()) => {
                    self.transactions = Ghost(self.transactions@.push(BusOp::Write { address, value: v }));
                    self.ops = Ghost(self.ops@.push(RegOp::Write { reg, value: v }));
                    Ok(())
                },
                Err(_) => {
                    self.transactions = Ghost(self.transactions@.push(BusOp::Fault { address }));
                    self.ops = Ghost(self.ops@.push(RegOp::Fault { reg }));
                    Err(IoError::Transport)
                },
            }
        } else {
            let b = match self.bus.read(address) {
                Ok(b) => b,
                Err(_) => {
                    self.transactions = Ghost(self.transactions@.push(BusOp::Fault { address }));
                    self.ops = Ghost(self.ops@.push(RegOp::Fault { reg }));
                    return Err(IoError::Transport);
                },
            };
            self.transactions = Ghost(self.transactions@.push(BusOp::Read { address, value: b }));
            let shift = reg.shift();
            let merged = (b & !(mask << shift)) | ((v & mask) << shift);
            match self.bus.write(address, merged) {
                Ok(()) => {
                    self.transactions = Ghost(
                        self.transactions@.push(BusOp::Write { address, value: merged }),
                    );
                    self.ops = Ghost(self.ops@.push(RegOp::Write { reg, value: v }));
                    Ok(())
                },
                Err(_) => {
                    self.transactions = Ghost(self.transactions@.push(BusOp::Fault { address }));
                    self.ops = Ghost(self.ops@.push(RegOp::Fault { reg }));
                    Err(IoError::Transport)
                },
            }
        }
    }
}

} // verus!
