//! The log of register operations, and the facts about it that the driver's proofs use.
use crate::connection::{read_value, RegOp};
use crate::error::IoError;
use crate::registers::Register;
use crate::types::{Bandwidth, CodingRate, SpreadingFactor};
use vstd::prelude::*;

verus! {

/// The operations performed since `old`, which `new` extends.
pub open spec fn since(old: Seq<RegOp>, new: Seq<RegOp>) -> Seq<RegOp> {
    new.subrange(old.len() as int, new.len() as int)
}

/// `new` is `old` followed by more operations.
pub open spec fn extends(old: Seq<RegOp>, new: Seq<RegOp>) -> bool {
    old.len() <= new.len() && new.subrange(0, old.len() as int) == old
}

/// Appending `ops` to `old` extends it, by exactly `ops`.
pub proof fn lemma_since(old: Seq<RegOp>, ops: Seq<RegOp>)
    ensures
        extends(old, old + ops),
        since(old, old + ops) == ops,
{
    assert((old + ops).subrange(0, old.len() as int) =~= old);
    assert(since(old, old + ops) =~= ops);
}

/// Extension is transitive.
pub proof fn lemma_extends_trans(a: Seq<RegOp>, b: Seq<RegOp>, c: Seq<RegOp>)
    requires
        extends(a, b),
        extends(b, c),
    ensures
        extends(a, c),
        since(a, c) == since(a, b) + since(b, c),
        forall|e: IoError| io_failure(since(b, c), e) ==> io_failure(since(a, c), e),
{
    assert(c.subrange(0, a.len() as int) =~= c.subrange(0, b.len() as int).subrange(0, a.len() as int));
    assert(since(a, c) =~= since(a, b) + since(b, c));
    assert forall|e: IoError| io_failure(since(b, c), e) implies io_failure(since(a, c), e) by {
        assert(since(a, c).last() == since(b, c).last());
    }
}

/// Extending by one more operation.
pub proof fn lemma_push(base: Seq<RegOp>, cur: Seq<RegOp>, op: RegOp)
    requires
        extends(base, cur),
    ensures
        extends(base, cur.push(op)),
        since(base, cur.push(op)) == since(base, cur).push(op),
{
    assert(cur.push(op).subrange(0, base.len() as int) =~= cur.subrange(0, base.len() as int));
    assert(since(base, cur.push(op)) =~= since(base, cur).push(op));
}

/// An operation sequence that ended in failure `e`: a bus fault, or a read of a value that
/// does not decode.
pub open spec fn io_failure(ops: Seq<RegOp>, e: IoError) -> bool {
    &&& ops.len() > 0
    &&& match e {
        IoError::Transport => ops.last() is Fault,
        IoError::InvalidValue => ops.last() is Read && !decodes(ops.last()),
        IoError::UnsupportedRevision => false,
    }
}

/// The register an operation is on.
pub open spec fn reg_of(op: RegOp) -> Register {
    match op {
        RegOp::Read { reg, value: _ } => reg,
        RegOp::Write { reg, value: _ } => reg,
        RegOp::Fault { reg } => reg,
    }
}

/// `ops` followed the operation sequence `expected` and stopped with failure `e` at its last
/// operation: every earlier operation is the expected one and decodes, and the last one is a
/// bus fault on the expected register (`Transport`) or the expected read, of a value that
/// does not decode (`InvalidValue`).
pub open spec fn failed_during(ops: Seq<RegOp>, expected: Seq<RegOp>, e: IoError) -> bool {
    let k = ops.len() - 1;
    &&& 1 <= ops.len() <= expected.len()
    &&& ops.subrange(0, k) == expected.subrange(0, k)
    &&& forall|i: int| 0 <= i < k ==> decodes(#[trigger] ops[i])
    &&& match e {
        IoError::Transport => ops[k] == (RegOp::Fault { reg: reg_of(expected[k]) }),
        IoError::InvalidValue => ops[k] == expected[k] && expected[k] is Read && !decodes(
            expected[k],
        ),
        IoError::UnsupportedRevision => false,
    }
}

/// A failure during `expected` is also one during any longer sequence that starts with it.
pub proof fn lemma_failed_longer(ops: Seq<RegOp>, expected: Seq<RegOp>, more: Seq<RegOp>, e: IoError)
    requires
        failed_during(ops, expected, e),
    ensures
        failed_during(ops, expected + more, e),
{
    let k = ops.len() - 1;
    assert((expected + more).subrange(0, k) =~= expected.subrange(0, k));
    assert((expected + more)[k] == expected[k]);
}

/// A failure after a completed prefix of decoding operations is a failure during the prefix
/// followed by the rest.
pub proof fn lemma_failed_after(pre: Seq<RegOp>, ops: Seq<RegOp>, expected: Seq<RegOp>, e: IoError)
    requires
        forall|i: int| 0 <= i < pre.len() ==> decodes(#[trigger] pre[i]),
        failed_during(ops, expected, e),
    ensures
        failed_during(pre + ops, pre + expected, e),
{
    let k = ops.len() - 1;
    let n = pre.len() as int;
    assert((pre + ops).subrange(0, n + k) =~= pre + ops.subrange(0, k));
    assert((pre + expected).subrange(0, n + k) =~= pre + expected.subrange(0, k));
    assert((pre + ops)[n + k] == ops[k]);
    assert((pre + expected)[n + k] == expected[k]);
    assert forall|i: int| 0 <= i < n + k implies decodes(#[trigger] (pre + ops)[i]) by {
        if i < n {
            assert((pre + ops)[i] == pre[i]);
        } else {
            assert((pre + ops)[i] == ops[i - n]);
        }
    }
}

/// A failed single read as a failure during any sequence that starts with that read.
pub proof fn lemma_failed_read<T>(
    ops: Seq<RegOp>,
    reg: Register,
    r: Result<T, IoError>,
    valid: spec_fn(u8) -> bool,
    raw_of: spec_fn(T) -> u8,
    expected: Seq<RegOp>,
)
    requires
        read_outcome(ops, reg, r, valid, raw_of),
        r is Err,
        expected.len() >= 1,
        expected[0] == (RegOp::Read { reg, value: read_value(ops[0]) }),
        forall|v: u8| #[trigger] valid(v) == decodes(RegOp::Read { reg, value: v }),
    ensures
        failed_during(ops, expected, r->Err_0),
{
    assert(ops.subrange(0, 0) =~= expected.subrange(0, 0));
}

/// One more operation since `old`.
pub proof fn lemma_since_one(old: Seq<RegOp>, new: Seq<RegOp>)
    requires
        new == old.push(new.last()),
    ensures
        extends(old, new),
        since(old, new) == seq![new.last()],
{
    assert(new =~= old + seq![new.last()]);
    lemma_since(old, seq![new.last()]);
}

/// Whether an operation is anything but a read of a value that its register's setting cannot
/// decode.
pub open spec fn decodes(op: RegOp) -> bool {
    match op {
        RegOp::Read { reg, value } => match reg {
            Register::ModemConfig2SpreadingFactor => SpreadingFactor::is_raw(value),
            Register::ModemConfig1Bw => Bandwidth::is_raw(value),
            Register::ModemConfig1CodingRate => CodingRate::is_raw(value),
            _ => value <= reg.spec_mask(),
        },
        _ => true,
    }
}

/// Writing each `(register, value)` pair of `writes` in turn.
pub open spec fn write_ops(writes: Seq<(Register, u8)>) -> Seq<RegOp> {
    Seq::new(writes.len(), |i: int| RegOp::Write { reg: writes[i].0, value: writes[i].1 })
}

/// `ops` is one attempted read of `reg` that yields `r`: a decoded value when the read gave a
/// valid raw value, an `InvalidValue` error when it gave another, a transport error on a fault.
pub open spec fn read_outcome<T>(
    ops: Seq<RegOp>,
    reg: Register,
    r: Result<T, IoError>,
    valid: spec_fn(u8) -> bool,
    raw_of: spec_fn(T) -> u8,
) -> bool {
    &&& ops.len() == 1
    &&& match r {
        Ok(x) => ops[0] == (RegOp::Read { reg, value: raw_of(x) }) && valid(raw_of(x)),
        Err(IoError::InvalidValue) => ops[0] matches RegOp::Read { reg: g, value } && g == reg
            && !valid(value),
        Err(IoError::Transport) => ops[0] == (RegOp::Fault { reg }),
        Err(IoError::UnsupportedRevision) => false,
    }
}

/// `ops` is one attempted write, with result `r`.
pub open spec fn write_outcome(ops: Seq<RegOp>, reg: Register, value: u8, r: Result<(), IoError>) -> bool {
    &&& ops.len() == 1
    &&& match r {
        Ok(()) => ops[0] == (RegOp::Write { reg, value }),
        Err(e) => e == IoError::Transport && ops[0] == (RegOp::Fault { reg }),
    }
}

} // verus!
