//! In-memory register transports: a fixed-response harness mirroring a small
//! device that declares one model, and a full register-image device for
//! exercising discovery over an arbitrary synthetic address space.

use crate::codec::{be_bytes_to_words, spec_bytes_words, Word};
use crate::sunspec_connection::{SunSpecConn, TransportFault};
use vstd::prelude::*;

verus! {

/// A failure a test transport can report.
#[derive(Debug)]
pub enum TestError {
    Misc(String),
}

/// A fixed-response register transport: well-known addresses answer with a
/// small device image (model id 1 of length 66, a manufacturer string, the
/// end-of-models sentinel), and every other address answers with `buf`.
/// Writes are recorded, never sent anywhere.
#[derive(Debug)]
pub struct ModbusTestHarness {
    pub buf: Vec<u16>,
    pub writes: Vec<(u16, u16)>,
}

/// Pack a string's bytes into big-endian register words, two bytes to the
/// word; a trailing odd byte contributes nothing.
pub fn string_to_vec_word(input: String) -> (r: Vec<u16>)
    ensures
        r@ == spec_bytes_words(vstd::utf8::encode_utf8(input@)),
{
    be_bytes_to_words(input.as_str().as_bytes())
}

impl SunSpecConn for ModbusTestHarness {
    fn read_holding_registers(&mut self, addr: u16, q: u16) -> Result<Vec<Word>, TransportFault> {
        match addr {
            40002 => Ok(vec![1u16]),
            40003 => Ok(vec![66u16]),
            40004 => Ok(string_to_vec_word("Test".to_owned())),
            40020 => Ok(string_to_vec_word("TestHarness".to_owned())),
            40052 => Ok(string_to_vec_word("1234567890".to_owned())),
            40070 => Ok(vec![65535u16]),
            40071 => Ok(vec![0u16]),
            _ => Ok(self.buf.clone()),
        }
    }

    fn write_single_register(&mut self, addr: u16, data: Word) -> Result<(), TransportFault> {
        self.writes.push((addr, data));
        Ok(())
    }

    fn pause(&mut self, _delay_ms: u64) {
    }
}

/// A register-image transport: a contiguous span of holding registers
/// starting at `base`, answering reads and accepting writes within the span
/// and failing outside it.
#[derive(Debug)]
pub struct RegisterImage {
    pub base: u16,
    pub regs: Vec<u16>,
}

impl SunSpecConn for RegisterImage {
    fn read_holding_registers(&mut self, addr: u16, q: u16) -> Result<Vec<Word>, TransportFault> {
        if addr < self.base {
            return Err(
                TransportFault {
                    os_error: None,
                    message: "address below image base".to_owned(),
                    timed_out: false,
                },
            );
        }
        let start = (addr - self.base) as usize;
        if q as usize > self.regs.len() || start > self.regs.len() - q as usize {
            return Err(
                TransportFault {
                    os_error: None,
                    message: "read beyond image end".to_owned(),
                    timed_out: false,
                },
            );
        }
        let mut out: Vec<Word> = Vec::new();
        let mut i: usize = 0;
        while i < q as usize
            invariant
                start + q as usize <= self.regs@.len(),
                self.regs@.len() <= usize::MAX,
                0 <= i <= q as usize,
                out@.len() == i,
                forall|j: int| 0 <= j < i ==> out@[j] == self.regs@[start + j],
            decreases q as usize - i,
        {
            proof {
                assert(start + i < self.regs@.len());
            }
            out.push(self.regs[start + i]);
            i = i + 1;
        }
        Ok(out)
    }

    fn write_single_register(&mut self, addr: u16, data: Word) -> Result<(), TransportFault> {
        if addr < self.base {
            return Err(
                TransportFault {
                    os_error: None,
                    message: "address below image base".to_owned(),
                    timed_out: false,
                },
            );
        }
        let start = (addr - self.base) as usize;
        if start >= self.regs.len() {
            return Err(
                TransportFault {
                    os_error: None,
                    message: "write beyond image end".to_owned(),
                    timed_out: false,
                },
            );
        }
        self.regs.set(start, data);
        Ok(())
    }

    fn pause(&mut self, _delay_ms: u64) {
    }
}

} // verus!
