//! In-memory bus devices with scripted responses and a recorded call log.
//!
//! [`MockI2cDevice`] and [`MockSpiDevice`] implement the bus-device traits
//! without hardware: read operations are served from a scripted queue of
//! responses, every committed transaction is recorded in an inspectable
//! log, and a failure switch makes every bus call fail. The log is the
//! executable counterpart of the ghost transaction history, so a test can
//! observe exactly which bytes a transaction function put on the bus.

use crate::bus::{
    events_of, lemma_events_push_read, lemma_events_push_write, lemma_reads_match_push_read,
    lemma_reads_match_push_write, reads_match, BusEvent, BusOp, I2cDevice, I2cTransaction,
    SpiDevice, SpiTransaction,
};
use vstd::prelude::*;

verus! {

/// The error reported by the mock devices: the failure switch was set, a
/// read operation found no scripted response, or the scripted response had
/// the wrong length.
#[derive(Debug, Clone, Copy, PartialEq, Eq, Structural)]
pub struct MockBusError {}

/// One operation as the log records it: the bytes written, or the bytes
/// handed out for a read.
#[derive(Debug, Clone, PartialEq, Eq)]
pub enum RecordedOp {
    /// These bytes were written to the device.
    Write(Vec<u8>),
    /// These bytes were read from the device.
    Read(Vec<u8>),
}

impl View for RecordedOp {
    type V = BusEvent;

    open spec fn view(&self) -> BusEvent {
        match self {
            RecordedOp::Write(bytes) => BusEvent::Write(bytes@),
            RecordedOp::Read(bytes) => BusEvent::Read(bytes@),
        }
    }
}

/// One transaction as the I2C log records it.
#[derive(Debug, Clone, PartialEq, Eq)]
pub struct I2cRecord {
    /// The device address the transaction addressed.
    pub addr: u8,
    /// The operations performed, in order.
    pub ops: Vec<RecordedOp>,
}

impl View for I2cRecord {
    type V = I2cTransaction<u8>;

    open spec fn view(&self) -> I2cTransaction<u8> {
        I2cTransaction { addr: self.addr, ops: self.ops@.map_values(|op: RecordedOp| op@) }
    }
}

/// One transaction as the SPI log records it.
#[derive(Debug, Clone, PartialEq, Eq)]
pub struct SpiRecord {
    /// The operations performed, in order.
    pub ops: Vec<RecordedOp>,
}

impl View for SpiRecord {
    type V = SpiTransaction;

    open spec fn view(&self) -> SpiTransaction {
        SpiTransaction { ops: self.ops@.map_values(|op: RecordedOp| op@) }
    }
}

/// Whether the scripted queue `responses` can serve the run `ops`: one
/// response per read operation, in order, each of exactly the requested
/// length.
pub open spec fn serves(ops: Seq<BusOp>, responses: Seq<Seq<u8>>) -> bool
    decreases ops.len(),
{
    if ops.len() == 0 {
        true
    } else {
        match ops[0] {
            BusOp::Write(_) => serves(ops.skip(1), responses),
            BusOp::Read(n) => responses.len() > 0 && responses[0].len() == n && serves(
                ops.skip(1),
                responses.skip(1),
            ),
        }
    }
}

/// The responses the scripted queue hands out for the read operations of
/// the run `ops`, in order.
pub open spec fn served_reads(ops: Seq<BusOp>, responses: Seq<Seq<u8>>) -> Seq<Seq<u8>>
    decreases ops.len(),
{
    if ops.len() == 0 {
        Seq::empty()
    } else {
        match ops[0] {
            BusOp::Write(_) => served_reads(ops.skip(1), responses),
            BusOp::Read(_) => seq![
                if responses.len() > 0 {
                    responses[0]
                } else {
                    Seq::<u8>::empty()
                },
            ] + served_reads(ops.skip(1), responses.skip(1)),
        }
    }
}

/// What is left of the scripted queue after the run `ops` has consumed one
/// response per read operation.
pub open spec fn remaining_responses(ops: Seq<BusOp>, responses: Seq<Seq<u8>>) -> Seq<Seq<u8>>
    decreases ops.len(),
{
    if ops.len() == 0 {
        responses
    } else {
        match ops[0] {
            BusOp::Write(_) => remaining_responses(ops.skip(1), responses),
            BusOp::Read(_) => remaining_responses(ops.skip(1), responses.skip(1)),
        }
    }
}

/// Copies a byte buffer element by element.
fn clone_bytes(src: &Vec<u8>) -> (r: Vec<u8>)
    ensures
        r@ == src@,
{
    let mut r: Vec<u8> = Vec::new();
    let mut i: usize = 0;
    while i < src.len()
        invariant
            i <= src@.len(),
            r@ =~= src@.take(i as int),
        decreases src@.len() - i,
    {
        r.push(src[i]);
        i = i + 1;
    }
    proof {
        assert(src@.take(src@.len() as int) =~= src@);
    }
    r
}

/// Runs a requested operation run against the scripted `responses` queue:
/// writes are recorded as they stand, and each read consumes the front
/// response, which must have exactly the requested length. Succeeds if and
/// only if the queue serves the run; on success the read results are
/// exactly the responses consumed, in order.
fn run_ops(responses: &mut Vec<Vec<u8>>, ops: &Vec<BusOp>) -> (r: Result<
    (Vec<RecordedOp>, Vec<Vec<u8>>),
    MockBusError,
>)
    ensures
        match r {
            Ok((rec_ops, reads)) => {
                &&& serves(ops@, old(responses).deep_view())
                &&& reads_match(ops@, reads.deep_view())
                &&& rec_ops@.map_values(|op: RecordedOp| op@) == events_of(ops@, reads.deep_view())
                &&& reads.deep_view() == served_reads(ops@, old(responses).deep_view())
                &&& final(responses).deep_view() == remaining_responses(
                    ops@,
                    old(responses).deep_view(),
                )
            },
            Err(_) => !serves(ops@, old(responses).deep_view()),
        },
{
    let ghost resp0 = old(responses).deep_view();
    let mut rec_ops: Vec<RecordedOp> = Vec::new();
    let mut reads: Vec<Vec<u8>> = Vec::new();
    let mut i: usize = 0;
    proof {
        assert(ops@.take(0) =~= Seq::<BusOp>::empty());
        assert(ops@.skip(0) =~= ops@);
        assert(reads.deep_view() =~= Seq::<Seq<u8>>::empty());
        assert(rec_ops@.map_values(|op: RecordedOp| op@) =~= Seq::<BusEvent>::empty());
        assert(reads.deep_view() + served_reads(ops@, resp0) =~= served_reads(ops@, resp0));
    }
    while i < ops.len()
        invariant
            i <= ops@.len(),
            resp0 == old(responses).deep_view(),
            reads_match(ops@.take(i as int), reads.deep_view()),
            rec_ops@.map_values(|op: RecordedOp| op@) =~= events_of(
                ops@.take(i as int),
                reads.deep_view(),
            ),
            serves(ops@, resp0) <==> serves(ops@.skip(i as int), responses.deep_view()),
            serves(ops@, resp0) ==> served_reads(ops@, resp0) == reads.deep_view() + served_reads(
                ops@.skip(i as int),
                responses.deep_view(),
            ),
            serves(ops@, resp0) ==> remaining_responses(ops@, resp0) == remaining_responses(
                ops@.skip(i as int),
                responses.deep_view(),
            ),
        decreases ops@.len() - i,
    {
        let ghost prefix = ops@.take(i as int);
        let ghost tail = ops@.skip(i as int);
        let ghost tail2 = ops@.skip(i + 1);
        let ghost reads_pre = reads.deep_view();
        let ghost resp_pre = responses.deep_view();
        proof {
            assert(tail[0] == ops@[i as int]);
            assert(tail.skip(1) =~= tail2);
            assert(ops@.take(i + 1) =~= prefix.push(ops@[i as int]));
        }
        match &ops[i] {
            BusOp::Write(bytes) => {
                let copy = clone_bytes(bytes);
                proof {
                    lemma_reads_match_push_write(prefix, reads_pre, ops@[i as int]);
                    lemma_events_push_write(prefix, reads_pre, ops@[i as int]);
                    assert((ops@[i as int]->Write_0)@ == copy@);
                    assert(serves(tail, resp_pre) == serves(tail2, resp_pre));
                    assert(served_reads(tail, resp_pre) == served_reads(tail2, resp_pre));
                    assert(remaining_responses(tail, resp_pre) == remaining_responses(
                        tail2,
                        resp_pre,
                    ));
                }
                rec_ops.push(RecordedOp::Write(copy));
                proof {
                    assert(rec_ops@.map_values(|op: RecordedOp| op@) =~= events_of(
                        ops@.take(i + 1),
                        reads.deep_view(),
                    ));
                }
            },
            BusOp::Read(n) => {
                if responses.len() == 0 {
                    proof {
                        assert(!serves(tail, resp_pre));
                    }
                    return Err(MockBusError {  });
                }
                let data = responses.remove(0);
                if data.len() != *n {
                    proof {
                        assert(resp_pre[0].len() != ops@[i as int]->Read_0);
                        assert(!serves(tail, resp_pre));
                    }
                    return Err(MockBusError {  });
                }
                let copy = clone_bytes(&data);
                proof {
                    lemma_reads_match_push_read(prefix, reads_pre, ops@[i as int], data@);
                    lemma_events_push_read(prefix, reads_pre, ops@[i as int], data@);
                    assert(resp_pre.remove(0) =~= resp_pre.skip(1));
                    assert(responses.deep_view() =~~= resp_pre.skip(1));
                    assert(data@ == resp_pre[0]);
                    assert(serves(tail, resp_pre) == serves(tail2, responses.deep_view()));
                    assert(served_reads(tail, resp_pre) =~= seq![resp_pre[0]] + served_reads(
                        tail2,
                        responses.deep_view(),
                    ));
                    assert(remaining_responses(tail, resp_pre) == remaining_responses(
                        tail2,
                        responses.deep_view(),
                    ));
                }
                reads.push(copy);
                rec_ops.push(RecordedOp::Read(data));
                proof {
                    assert(reads.deep_view() =~~= reads_pre.push(resp_pre[0]));
                    assert(reads_match(ops@.take(i + 1), reads.deep_view()));
                    assert(rec_ops@.map_values(|op: RecordedOp| op@) =~= events_of(
                        ops@.take(i + 1),
                        reads.deep_view(),
                    ));
                    assert(reads_pre + served_reads(tail, resp_pre) =~= reads.deep_view()
                        + served_reads(tail2, responses.deep_view()));
                }
            },
        }
        i = i + 1;
    }
    proof {
        assert(ops@.take(ops@.len() as int) =~= ops@);
        assert(ops@.skip(ops@.len() as int) =~= Seq::<BusOp>::empty());
        assert(serves(ops@, resp0));
        assert(served_reads(ops@.skip(ops@.len() as int), responses.deep_view())
            =~= Seq::<Seq<u8>>::empty());
        assert(reads.deep_view() + Seq::<Seq<u8>>::empty() =~= reads.deep_view());
    }
    Ok((rec_ops, reads))
}

/// An in-memory I2C device: read operations are served from `responses`,
/// committed transactions are recorded in `log`, and setting `fail` makes
/// every bus call fail.
#[derive(Debug, Clone)]
pub struct MockI2cDevice {
    /// Scripted data handed out for successive read operations.
    pub responses: Vec<Vec<u8>>,
    /// When set, every bus call fails without committing anything.
    pub fail: bool,
    /// The committed transactions, oldest first.
    pub log: Vec<I2cRecord>,
}

impl MockI2cDevice {
    /// Returns a device with no scripted responses, an empty log and the
    /// failure switch off.
    pub fn new() -> (r: MockI2cDevice)
        ensures
            r.history() =~= Seq::<I2cTransaction<u8>>::empty(),
            r.responses.deep_view() =~= Seq::<Seq<u8>>::empty(),
            !r.fail,
    {
        MockI2cDevice { responses: Vec::new(), fail: false, log: Vec::new() }
    }

    /// Scripts `data` as the response for the next unanswered read
    /// operation.
    pub fn push_response(&mut self, data: Vec<u8>)
        ensures
            final(self).responses.deep_view() == old(self).responses.deep_view().push(data@),
            final(self).fail == old(self).fail,
            final(self).history() == old(self).history(),
            final(self).log == old(self).log,
    {
        self.responses.push(data);
        proof {
            assert(self.responses.deep_view() =~~= old(self).responses.deep_view().push(data@));
        }
    }

    /// Turns the failure switch on: every later bus call fails.
    pub fn set_fail(&mut self)
        ensures
            final(self).fail,
            final(self).responses == old(self).responses,
            final(self).history() == old(self).history(),
            final(self).log == old(self).log,
    {
        self.fail = true;
    }
}

impl I2cDevice for MockI2cDevice {
    type Address = u8;

    type BusError = MockBusError;

    open spec fn history(&self) -> Seq<I2cTransaction<u8>> {
        self.log@.map_values(|rec: I2cRecord| rec@)
    }

    fn write_read(&mut self, addr: u8, out_bytes: &Vec<u8>, read_len: usize) -> (r: Result<
        Vec<u8>,
        MockBusError,
    >)
        ensures
            r is Ok <==> {
                &&& !old(self).fail
                &&& old(self).responses.deep_view().len() > 0
                &&& old(self).responses.deep_view()[0].len() == read_len
            },
            r is Ok ==> r->Ok_0@ == old(self).responses.deep_view()[0]
                && final(self).responses.deep_view() == old(self).responses.deep_view().skip(1),
            final(self).fail == old(self).fail,
    {
        if self.fail {
            return Err(MockBusError {  });
        }
        if self.responses.len() == 0 {
            return Err(MockBusError {  });
        }
        let data = self.responses.remove(0);
        if data.len() != read_len {
            return Err(MockBusError {  });
        }
        let mut rec_ops: Vec<RecordedOp> = Vec::new();
        rec_ops.push(RecordedOp::Write(clone_bytes(out_bytes)));
        rec_ops.push(RecordedOp::Read(clone_bytes(&data)));
        let ghost rec_ops_seq = rec_ops@;
        self.log.push(I2cRecord { addr, ops: rec_ops });
        proof {
            assert(rec_ops_seq.map_values(|op: RecordedOp| op@) =~= seq![
                BusEvent::Write(out_bytes@),
                BusEvent::Read(data@),
            ]);
            assert(self.log@ =~= old(self).log@.push(self.log@.last()));
            assert(self.history() =~= old(self).history().push(
                (I2cTransaction {
                    addr,
                    ops: seq![BusEvent::Write(out_bytes@), BusEvent::Read(data@)],
                }),
            ));
        }
        Ok(data)
    }

    fn transaction(&mut self, addr: u8, ops: &Vec<BusOp>) -> (r: Result<
        Vec<Vec<u8>>,
        MockBusError,
    >)
        ensures
            r is Ok <==> !old(self).fail && serves(ops@, old(self).responses.deep_view()),
            r is Ok ==> (r->Ok_0).deep_view() == served_reads(
                ops@,
                old(self).responses.deep_view(),
            ) && final(self).responses.deep_view() == remaining_responses(
                ops@,
                old(self).responses.deep_view(),
            ),
            final(self).fail == old(self).fail,
    {
        if self.fail {
            return Err(MockBusError {  });
        }
        let (rec_ops, reads) = match run_ops(&mut self.responses, ops) {
            Ok(pair) => pair,
            Err(e) => {
                return Err(e);
            },
        };
        self.log.push(I2cRecord { addr, ops: rec_ops });
        proof {
            assert(self.log@ =~= old(self).log@.push(self.log@.last()));
            assert(self.history() =~= old(self).history().push(
                (I2cTransaction { addr, ops: events_of(ops@, reads.deep_view()) }),
            ));
        }
        Ok(reads)
    }
}

/// An in-memory SPI device: read operations are served from `responses`,
/// committed transactions are recorded in `log`, and setting `fail` makes
/// every bus call fail.
#[derive(Debug, Clone)]
pub struct MockSpiDevice {
    /// Scripted data handed out for successive read operations.
    pub responses: Vec<Vec<u8>>,
    /// When set, every bus call fails without committing anything.
    pub fail: bool,
    /// The committed transactions, oldest first.
    pub log: Vec<SpiRecord>,
}

impl MockSpiDevice {
    /// Returns a device with no scripted responses, an empty log and the
    /// failure switch off.
    pub fn new() -> (r: MockSpiDevice)
        ensures
            r.history() =~= Seq::<SpiTransaction>::empty(),
            r.responses.deep_view() =~= Seq::<Seq<u8>>::empty(),
            !r.fail,
    {
        MockSpiDevice { responses: Vec::new(), fail: false, log: Vec::new() }
    }

    /// Scripts `data` as the response for the next unanswered read
    /// operation.
    pub fn push_response(&mut self, data: Vec<u8>)
        ensures
            final(self).responses.deep_view() == old(self).responses.deep_view().push(data@),
            final(self).fail == old(self).fail,
            final(self).history() == old(self).history(),
            final(self).log == old(self).log,
    {
        self.responses.push(data);
        proof {
            assert(self.responses.deep_view() =~~= old(self).responses.deep_view().push(data@));
        }
    }

    /// Turns the failure switch on: every later bus call fails.
    pub fn set_fail(&mut self)
        ensures
            final(self).fail,
            final(self).responses == old(self).responses,
            final(self).history() == old(self).history(),
            final(self).log == old(self).log,
    {
        self.fail = true;
    }
}

impl SpiDevice for MockSpiDevice {
    type BusError = MockBusError;

    open spec fn history(&self) -> Seq<SpiTransaction> {
        self.log@.map_values(|rec: SpiRecord| rec@)
    }

    fn transaction(&mut self, ops: &Vec<BusOp>) -> (r: Result<Vec<Vec<u8>>, MockBusError>)
        ensures
            r is Ok <==> !old(self).fail && serves(ops@, old(self).responses.deep_view()),
            r is Ok ==> (r->Ok_0).deep_view() == served_reads(
                ops@,
                old(self).responses.deep_view(),
            ) && final(self).responses.deep_view() == remaining_responses(
                ops@,
                old(self).responses.deep_view(),
            ),
            final(self).fail == old(self).fail,
    {
        if self.fail {
            return Err(MockBusError {  });
        }
        let (rec_ops, reads) = match run_ops(&mut self.responses, ops) {
            Ok(pair) => pair,
            Err(e) => {
                return Err(e);
            },
        };
        self.log.push(SpiRecord { ops: rec_ops });
        proof {
            assert(self.log@ =~= old(self).log@.push(self.log@.last()));
            assert(self.history() =~= old(self).history().push(
                (SpiTransaction { ops: events_of(ops@, reads.deep_view()) }),
            ));
        }
        Ok(reads)
    }
}

} // verus!
