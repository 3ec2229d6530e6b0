//! The bus-device capability consumed by the transaction functions.
//!
//! A bus driver is modelled as a handle whose ghost state is the history of
//! atomic transactions it has committed. A transaction is an ordered run of
//! write and read operations issued as one uninterruptible unit; the history
//! records, for each operation, the bytes written or the bytes that came
//! back. The [`I2cDevice`] and [`SpiDevice`] traits state, over that
//! history, exactly what each successful call commits; a bus driver (or the
//! in-memory device of [`crate::mock`]) implements them.

use vstd::prelude::*;

verus! {

/// One operation requested within a bus transaction: write the given bytes,
/// or read the given number of bytes.
#[derive(Debug, Clone, PartialEq, Eq)]
pub enum BusOp {
    /// Write these bytes to the device.
    Write(Vec<u8>),
    /// Read this many bytes from the device.
    Read(usize),
}

/// One operation as the committed history records it: the bytes written, or
/// the bytes that were read back.
pub enum BusEvent {
    /// These bytes were written to the device.
    Write(Seq<u8>),
    /// These bytes were read from the device.
    Read(Seq<u8>),
}

/// A committed I2C transaction: the target device address and the run of
/// operations performed as one atomic unit.
pub struct I2cTransaction<A> {
    /// The device address the transaction addressed.
    pub addr: A,
    /// The operations performed, in order.
    pub ops: Seq<BusEvent>,
}

/// A committed SPI transaction: the run of operations performed as one
/// atomic unit. SPI device selection is implicit in chip select, so no
/// address is recorded.
pub struct SpiTransaction {
    /// The operations performed, in order.
    pub ops: Seq<BusEvent>,
}

/// Whether `reads` is a well-formed set of results for the requested run
/// `ops`: one byte string per read operation, in order, each of the
/// requested length.
pub open spec fn reads_match(ops: Seq<BusOp>, reads: Seq<Seq<u8>>) -> bool
    decreases ops.len(),
{
    if ops.len() == 0 {
        reads.len() == 0
    } else {
        match ops[0] {
            BusOp::Write(_) => reads_match(ops.skip(1), reads),
            BusOp::Read(n) => reads.len() > 0 && reads[0].len() == n && reads_match(
                ops.skip(1),
                reads.skip(1),
            ),
        }
    }
}

/// The committed form of a requested run: each write keeps its bytes, and
/// each read is filled with the result returned for it.
pub open spec fn events_of(ops: Seq<BusOp>, reads: Seq<Seq<u8>>) -> Seq<BusEvent>
    decreases ops.len(),
{
    if ops.len() == 0 {
        Seq::empty()
    } else {
        match ops[0] {
            BusOp::Write(b) => seq![BusEvent::Write(b@)] + events_of(ops.skip(1), reads),
            BusOp::Read(_) => seq![
                BusEvent::Read(if reads.len() > 0 {
                    reads[0]
                } else {
                    Seq::empty()
                }),
            ] + events_of(ops.skip(1), reads.skip(1)),
        }
    }
}

/// Whether `new_h` extends `old_h` by exactly one committed transaction.
pub open spec fn committed_one<T>(old_h: Seq<T>, new_h: Seq<T>) -> bool {
    &&& new_h.len() == old_h.len() + 1
    &&& new_h.drop_last() == old_h
}

/// Appending a write to a run leaves its read results well-formed.
pub proof fn lemma_reads_match_push_write(ops: Seq<BusOp>, reads: Seq<Seq<u8>>, op: BusOp)
    requires
        op is Write,
        reads_match(ops, reads),
    ensures
        reads_match(ops.push(op), reads),
    decreases ops.len(),
{
    let ops2 = ops.push(op);
    if ops.len() == 0 {
        assert(reads.len() == 0);
        assert(ops2[0] == op);
        assert(ops2.skip(1) =~= Seq::<BusOp>::empty());
        assert(reads_match(ops2.skip(1), reads));
        assert(reads_match(ops2, reads));
    } else {
        assert(ops2[0] == ops[0]);
        assert(ops2.skip(1) =~= ops.skip(1).push(op));
        match ops[0] {
            BusOp::Write(_) => {
                assert(reads_match(ops.skip(1), reads));
                lemma_reads_match_push_write(ops.skip(1), reads, op);
                assert(reads_match(ops2.skip(1), reads));
            },
            BusOp::Read(_) => {
                assert(reads_match(ops.skip(1), reads.skip(1)));
                lemma_reads_match_push_write(ops.skip(1), reads.skip(1), op);
                assert(reads_match(ops2.skip(1), reads.skip(1)));
            },
        }
        assert(reads_match(ops2, reads));
    }
}

/// Appending a read to a run, together with a result of exactly the
/// requested length, keeps its read results well-formed.
pub proof fn lemma_reads_match_push_read(ops: Seq<BusOp>, reads: Seq<Seq<u8>>, op: BusOp, d: Seq<u8>)
    requires
        op is Read,
        d.len() == op->Read_0,
        reads_match(ops, reads),
    ensures
        reads_match(ops.push(op), reads.push(d)),
    decreases ops.len(),
{
    let ops2 = ops.push(op);
    let reads2 = reads.push(d);
    if ops.len() == 0 {
        assert(reads.len() == 0);
        assert(ops2[0] == op);
        assert(reads2[0] == d);
        assert(ops2.skip(1) =~= Seq::<BusOp>::empty());
        assert(reads2.skip(1) =~= Seq::<Seq<u8>>::empty());
        assert(reads_match(ops2.skip(1), reads2.skip(1)));
        assert(reads_match(ops2, reads2));
    } else {
        assert(ops2[0] == ops[0]);
        assert(ops2.skip(1) =~= ops.skip(1).push(op));
        match ops[0] {
            BusOp::Write(_) => {
                assert(reads_match(ops.skip(1), reads));
                lemma_reads_match_push_read(ops.skip(1), reads, op, d);
                assert(reads_match(ops2.skip(1), reads2));
            },
            BusOp::Read(_) => {
                assert(reads_match(ops.skip(1), reads.skip(1)));
                assert(reads2[0] == reads[0]);
                assert(reads2.skip(1) =~= reads.skip(1).push(d));
                lemma_reads_match_push_read(ops.skip(1), reads.skip(1), op, d);
                assert(reads_match(ops2.skip(1), reads2.skip(1)));
            },
        }
        assert(reads_match(ops2, reads2));
    }
}

/// Appending a write to a run appends that write to its committed form.
pub proof fn lemma_events_push_write(ops: Seq<BusOp>, reads: Seq<Seq<u8>>, op: BusOp)
    requires
        op is Write,
        reads_match(ops, reads),
    ensures
        events_of(ops.push(op), reads) =~= events_of(ops, reads).push(
            BusEvent::Write((op->Write_0)@),
        ),
    decreases ops.len(),
{
    let ops2 = ops.push(op);
    if ops.len() == 0 {
        assert(ops2[0] == op);
        assert(ops2.skip(1) =~= Seq::<BusOp>::empty());
        assert(events_of(ops2.skip(1), reads) =~= Seq::<BusEvent>::empty());
        assert(events_of(ops, reads) =~= Seq::<BusEvent>::empty());
    } else {
        assert(ops2[0] == ops[0]);
        assert(ops2.skip(1) =~= ops.skip(1).push(op));
        match ops[0] {
            BusOp::Write(w) => {
                assert(reads_match(ops.skip(1), reads));
                lemma_events_push_write(ops.skip(1), reads, op);
                assert(events_of(ops2, reads) =~= seq![BusEvent::Write(w@)] + events_of(
                    ops2.skip(1),
                    reads,
                ));
                assert(events_of(ops, reads) =~= seq![BusEvent::Write(w@)] + events_of(
                    ops.skip(1),
                    reads,
                ));
            },
            BusOp::Read(_) => {
                assert(reads.len() > 0);
                assert(reads_match(ops.skip(1), reads.skip(1)));
                lemma_events_push_write(ops.skip(1), reads.skip(1), op);
                assert(events_of(ops2, reads) =~= seq![BusEvent::Read(reads[0])] + events_of(
                    ops2.skip(1),
                    reads.skip(1),
                ));
                assert(events_of(ops, reads) =~= seq![BusEvent::Read(reads[0])] + events_of(
                    ops.skip(1),
                    reads.skip(1),
                ));
            },
        }
    }
}

/// Appending a read to a run, with its result, appends that result to the
/// run's committed form.
pub proof fn lemma_events_push_read(ops: Seq<BusOp>, reads: Seq<Seq<u8>>, op: BusOp, d: Seq<u8>)
    requires
        op is Read,
        reads_match(ops, reads),
    ensures
        events_of(ops.push(op), reads.push(d)) =~= events_of(ops, reads).push(BusEvent::Read(d)),
    decreases ops.len(),
{
    let ops2 = ops.push(op);
    let reads2 = reads.push(d);
    if ops.len() == 0 {
        assert(reads.len() == 0);
        assert(ops2[0] == op);
        assert(reads2[0] == d);
        assert(ops2.skip(1) =~= Seq::<BusOp>::empty());
        assert(reads2.skip(1) =~= Seq::<Seq<u8>>::empty());
        assert(events_of(ops2.skip(1), reads2.skip(1)) =~= Seq::<BusEvent>::empty());
        assert(events_of(ops, reads) =~= Seq::<BusEvent>::empty());
    } else {
        assert(ops2[0] == ops[0]);
        assert(ops2.skip(1) =~= ops.skip(1).push(op));
        match ops[0] {
            BusOp::Write(w) => {
                assert(reads_match(ops.skip(1), reads));
                lemma_events_push_read(ops.skip(1), reads, op, d);
                assert(events_of(ops2, reads2) =~= seq![BusEvent::Write(w@)] + events_of(
                    ops2.skip(1),
                    reads2,
                ));
                assert(events_of(ops, reads) =~= seq![BusEvent::Write(w@)] + events_of(
                    ops.skip(1),
                    reads,
                ));
            },
            BusOp::Read(_) => {
                assert(reads.len() > 0);
                assert(reads_match(ops.skip(1), reads.skip(1)));
                assert(reads2[0] == reads[0]);
                assert(reads2.skip(1) =~= reads.skip(1).push(d));
                lemma_events_push_read(ops.skip(1), reads.skip(1), op, d);
                assert(events_of(ops2, reads2) =~= seq![BusEvent::Read(reads[0])] + events_of(
                    ops2.skip(1),
                    reads2.skip(1),
                ));
                assert(events_of(ops, reads) =~= seq![BusEvent::Read(reads[0])] + events_of(
                    ops.skip(1),
                    reads.skip(1),
                ));
            },
        }
    }
}

/// A run of two writes consumes no read results, and commits exactly the
/// two writes.
pub proof fn lemma_two_writes_run(ops: Seq<BusOp>, reads: Seq<Seq<u8>>)
    requires
        ops.len() == 2,
        ops[0] is Write,
        ops[1] is Write,
        reads_match(ops, reads),
    ensures
        reads =~= Seq::<Seq<u8>>::empty(),
        events_of(ops, reads) =~= seq![
            BusEvent::Write((ops[0]->Write_0)@),
            BusEvent::Write((ops[1]->Write_0)@),
        ],
{
    let t1 = ops.skip(1);
    let t2 = t1.skip(1);
    assert(t1[0] == ops[1]);
    assert(t1.skip(1) =~= t2);
    assert(t2.len() == 0);
    assert(reads_match(t1, reads));
    assert(reads_match(t2, reads));
    assert(reads.len() == 0);
    assert(reads =~= Seq::<Seq<u8>>::empty());
    assert(events_of(t2, reads) =~= Seq::<BusEvent>::empty());
    assert(events_of(t1, reads) =~= seq![BusEvent::Write((ops[1]->Write_0)@)]);
    assert(events_of(ops, reads) =~= seq![BusEvent::Write((ops[0]->Write_0)@)] + events_of(
        t1,
        reads,
    ));
}

/// A run of one write then one read consumes exactly one read result, of
/// the requested length, and commits the write and that result.
pub proof fn lemma_write_read_run(ops: Seq<BusOp>, reads: Seq<Seq<u8>>)
    requires
        ops.len() == 2,
        ops[0] is Write,
        ops[1] is Read,
        reads_match(ops, reads),
    ensures
        reads.len() == 1,
        reads[0].len() == ops[1]->Read_0,
        events_of(ops, reads) =~= seq![BusEvent::Write((ops[0]->Write_0)@), BusEvent::Read(
            reads[0],
        )],
{
    let t1 = ops.skip(1);
    let t2 = t1.skip(1);
    assert(t1[0] == ops[1]);
    assert(t1.skip(1) =~= t2);
    assert(t2.len() == 0);
    assert(reads_match(t1, reads));
    assert(reads_match(t2, reads.skip(1)));
    assert(reads.skip(1).len() == 0);
    assert(reads.len() == 1);
    assert(events_of(t2, reads.skip(1)) =~= Seq::<BusEvent>::empty());
    assert(events_of(t1, reads) =~= seq![BusEvent::Read(reads[0])]);
    assert(events_of(ops, reads) =~= seq![BusEvent::Write((ops[0]->Write_0)@)] + events_of(
        t1,
        reads,
    ));
}

/// A run of two writes then one read consumes exactly one read result, of
/// the requested length, and commits the two writes and that result.
pub proof fn lemma_two_writes_read_run(ops: Seq<BusOp>, reads: Seq<Seq<u8>>)
    requires
        ops.len() == 3,
        ops[0] is Write,
        ops[1] is Write,
        ops[2] is Read,
        reads_match(ops, reads),
    ensures
        reads.len() == 1,
        reads[0].len() == ops[2]->Read_0,
        events_of(ops, reads) =~= seq![
            BusEvent::Write((ops[0]->Write_0)@),
            BusEvent::Write((ops[1]->Write_0)@),
            BusEvent::Read(reads[0]),
        ],
{
    let t1 = ops.skip(1);
    assert(t1[0] == ops[1] && t1[1] == ops[2] && t1.len() == 2);
    assert(reads_match(t1, reads));
    lemma_write_read_run(t1, reads);
    assert(events_of(ops, reads) =~= seq![BusEvent::Write((ops[0]->Write_0)@)] + events_of(
        t1,
        reads,
    ));
}

/// An I2C bus handle: offers a combined write-then-read operation and an
/// atomic multi-operation transaction, both against an addressed device.
///
/// The ghost `history` is the sequence of transactions the handle has
/// committed. Each method either commits exactly one transaction and
/// reports it, or fails leaving the history unchanged. Implementations are
/// supplied by bus drivers; [`crate::mock::MockI2cDevice`] is a verified
/// in-memory one.
pub trait I2cDevice: Sized {
    /// The device address type of this bus (seven-bit or ten-bit).
    type Address: Copy;

    /// The bus driver's error type.
    type BusError;

    /// The transactions this handle has committed, in order.
    ///
    /// Implementations used from verified code give this a body; the
    /// default leaves the history unspecified, so unverified
    /// implementations need not mention it.
    open spec fn history(&self) -> Seq<I2cTransaction<Self::Address>> {
        vstd::pervasive::arbitrary()
    }

    /// Writes `out_bytes` to the device at `addr`, then reads exactly
    /// `read_len` bytes, as one atomic transaction.
    fn write_read(&mut self, addr: Self::Address, out_bytes: &Vec<u8>, read_len: usize) -> (r:
        Result<Vec<u8>, Self::BusError>)
        ensures
            match r {
                Ok(data) => data@.len() == read_len && final(self).history() == old(self).history().push(
                    (I2cTransaction {
                        addr,
                        ops: seq![BusEvent::Write(out_bytes@), BusEvent::Read(data@)],
                    }),
                ),
                Err(_) => final(self).history() == old(self).history(),
            },
    ;

    /// Performs the requested run of operations against the device at
    /// `addr` as one atomic transaction, returning the bytes read, one
    /// byte string per read operation, in order.
    fn transaction(&mut self, addr: Self::Address, ops: &Vec<BusOp>) -> (r: Result<
        Vec<Vec<u8>>,
        Self::BusError,
    >)
        ensures
            match r {
                Ok(reads) => reads_match(ops@, reads.deep_view()) && final(self).history() == old(
                    self,
                ).history().push(
                    (I2cTransaction { addr, ops: events_of(ops@, reads.deep_view()) }),
                ),
                Err(_) => final(self).history() == old(self).history(),
            },
    ;
}

/// A SPI bus handle: offers an atomic multi-operation transaction against
/// the selected device.
///
/// The ghost `history` is the sequence of transactions the handle has
/// committed. `transaction` either commits exactly one transaction and
/// reports it, or fails leaving the history unchanged. Implementations are
/// supplied by bus drivers; [`crate::mock::MockSpiDevice`] is a verified
/// in-memory one.
pub trait SpiDevice: Sized {
    /// The bus driver's error type.
    type BusError;

    /// The transactions this handle has committed, in order.
    ///
    /// Implementations used from verified code give this a body; the
    /// default leaves the history unspecified, so unverified
    /// implementations need not mention it.
    open spec fn history(&self) -> Seq<SpiTransaction> {
        vstd::pervasive::arbitrary()
    }

    /// Performs the requested run of operations as one atomic transaction,
    /// returning the bytes read, one byte string per read operation, in
    /// order.
    fn transaction(&mut self, ops: &Vec<BusOp>) -> (r: Result<Vec<Vec<u8>>, Self::BusError>)
        ensures
            match r {
                Ok(reads) => reads_match(ops@, reads.deep_view()) && final(self).history() == old(
                    self,
                ).history().push((SpiTransaction { ops: events_of(ops@, reads.deep_view()) })),
                Err(_) => final(self).history() == old(self).history(),
            },
    ;
}

} // verus!
