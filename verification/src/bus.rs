//! The port bus behind every Super I/O access.
//!
//! A `SioBus` hands out single byte/dword reads and writes on legacy I/O
//! ports and keeps a ghost log of every operation it completed, in order.
//! The chip decoders and the detector are verified against that log: their
//! contracts pin down exactly which ports are touched, in which order, and
//! how the returned sensor values derive from the bytes that came back.
//!
//! The embedding application implements `SioBus` on top of a kernel I/O
//! driver; `ScriptedBus` is an in-crate implementation that replays a
//! prepared sequence of read values and records the operation log for
//! inspection, so the protocol layers can be exercised without hardware.

use vstd::prelude::*;

use crate::error::NoCrateError;

verus! {

/// One completed bus operation. Reads record the value that came back.
#[derive(Debug, Clone, Copy, PartialEq, Eq, Structural)]
pub enum BusOp {
    /// A byte written to a port.
    WriteByte { port: u16, value: u8 },
    /// A byte read from a port, with the value returned.
    ReadByte { port: u16, value: u8 },
    /// A dword written to a port.
    WriteDword { port: u16, value: u32 },
    /// A dword read from a port, with the value returned.
    ReadDword { port: u16, value: u32 },
}

/// The byte carried by a byte-sized operation (0 for dword operations).
pub open spec fn op_byte(op: BusOp) -> u8 {
    match op {
        BusOp::WriteByte { value, .. } => value,
        BusOp::ReadByte { value, .. } => value,
        _ => 0u8,
    }
}

/// The dword carried by a dword-sized operation (0 for byte operations).
pub open spec fn op_dword(op: BusOp) -> u32 {
    match op {
        BusOp::WriteDword { value, .. } => value,
        BusOp::ReadDword { value, .. } => value,
        _ => 0u32,
    }
}

/// A byte-oriented legacy I/O port bus with a ghost log of completed
/// operations. Implementations append exactly one entry per successful
/// call and leave the log unchanged on failure; the value recorded for a
/// read is the value returned. Nothing is assumed about the values a read
/// returns: every decoder is verified for all of them.
pub trait SioBus: Sized {
    /// All operations completed so far, oldest first.
    spec fn log(&self) -> Seq<BusOp>;

    /// Write one byte to a port.
    fn write_byte(&mut self, port: u16, value: u8) -> (r: Result<(), NoCrateError>)
        ensures
            r is Ok ==> final(self).log() == old(self).log().push(
                BusOp::WriteByte { port, value },
            ),
            r is Err ==> final(self).log() == old(self).log(),
    ;

    /// Read one byte from a port.
    fn read_byte(&mut self, port: u16) -> (r: Result<u8, NoCrateError>)
        ensures
            r matches Ok(v) ==> final(self).log() == old(self).log().push(
                BusOp::ReadByte { port, value: v },
            ),
            r is Err ==> final(self).log() == old(self).log(),
    ;

    /// Write one dword to a port.
    fn write_dword(&mut self, port: u16, value: u32) -> (r: Result<(), NoCrateError>)
        ensures
            r is Ok ==> final(self).log() == old(self).log().push(
                BusOp::WriteDword { port, value },
            ),
            r is Err ==> final(self).log() == old(self).log(),
    ;

    /// Read one dword from a port.
    fn read_dword(&mut self, port: u16) -> (r: Result<u32, NoCrateError>)
        ensures
            r matches Ok(v) ==> final(self).log() == old(self).log().push(
                BusOp::ReadDword { port, value: v },
            ),
            r is Err ==> final(self).log() == old(self).log(),
    ;
}

/// One sequence is a prefix of another, transitively.
pub proof fn lemma_prefix_trans<T>(a: Seq<T>, b: Seq<T>, c: Seq<T>)
    requires
        a.is_prefix_of(b),
        b.is_prefix_of(c),
    ensures
        a.is_prefix_of(c),
{
    assert forall|i: int| 0 <= i < a.len() implies a[i] == c.subrange(0, a.len() as int)[i] by {
        assert(a[i] == b.subrange(0, a.len() as int)[i]);
        assert(b[i] == c.subrange(0, b.len() as int)[i]);
    }
    assert(a =~= c.subrange(0, a.len() as int));
}

/// A bus that replays prepared read values and records every operation.
///
/// Byte reads consume `byte_script` in order; dword reads consume
/// `dword_script`. A read past the end of its script fails, which models a
/// port that stops answering. Writes always succeed. The recorded log is
/// available through `ops`.
pub struct ScriptedBus {
    byte_script: Vec<u8>,
    next_byte: usize,
    dword_script: Vec<u32>,
    next_dword: usize,
    ops: Vec<BusOp>,
}

impl ScriptedBus {
    /// A bus that will answer byte reads from `byte_script` and dword reads
    /// from `dword_script`.
    pub fn new(byte_script: Vec<u8>, dword_script: Vec<u32>) -> (r: ScriptedBus)
        ensures
            r.log() == Seq::<BusOp>::empty(),
    {
        ScriptedBus { byte_script, next_byte: 0, dword_script, next_dword: 0, ops: Vec::new() }
    }

    /// The operations completed so far, oldest first.
    pub fn ops(&self) -> (r: &Vec<BusOp>)
        ensures
            r@ == self.log(),
    {
        &self.ops
    }
}

impl SioBus for ScriptedBus {
    closed spec fn log(&self) -> Seq<BusOp> {
        self.ops@
    }

    fn write_byte(&mut self, port: u16, value: u8) -> (r: Result<(), NoCrateError>) {
        self.ops.push(BusOp::WriteByte { port, value });
        Ok(())
    }

    fn read_byte(&mut self, port: u16) -> (r: Result<u8, NoCrateError>) {
        if self.next_byte < self.byte_script.len() {
            let v = self.byte_script[self.next_byte];
            self.next_byte = self.next_byte + 1;
            self.ops.push(BusOp::ReadByte { port, value: v });
            Ok(v)
        } else {
            Err(NoCrateError::Sio("scripted bus: byte script exhausted".to_owned()))
        }
    }

    fn write_dword(&mut self, port: u16, value: u32) -> (r: Result<(), NoCrateError>) {
        self.ops.push(BusOp::WriteDword { port, value });
        Ok(())
    }

    fn read_dword(&mut self, port: u16) -> (r: Result<u32, NoCrateError>) {
        if self.next_dword < self.dword_script.len() {
            let v = self.dword_script[self.next_dword];
            self.next_dword = self.next_dword + 1;
            self.ops.push(BusOp::ReadDword { port, value: v });
            Ok(v)
        } else {
            Err(NoCrateError::Sio("scripted bus: dword script exhausted".to_owned()))
        }
    }
}

} // verus!
