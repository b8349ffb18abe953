//! The connection session: word-level getters and setters over a register
//! transport, bounded retry with error classification, model discovery, and
//! the point codec that turns raw register words into typed values and back.

use crate::codec::{
    spec_i16_of_word, spec_i32_of_u32, spec_i64_of_u64, spec_u32_of_words, spec_u64_of_words,
    i16_from_word, i32_from_u32, i64_from_u64, u32_from_words, u64_from_words,
};
use crate::json::group::{Group, GroupCount};
use crate::json::point::{Point as JsonPoint, PointType as JsonPointType};
use crate::json::{Symbol as JsonSymbol, SymbolValue};
use crate::sunspec_data::SunSpecData;
use crate::sunspec_models::{
    canonical_point, spec_find_point, Access, LiteralType, Model, ModelSource, PointIdentifier,
    ScaledValue,
};
use crate::model_data::ModelData;
use crate::modbus_test_harness::ModbusTestHarness;
use crate::sunspec_models::{spec_point_like, spec_value_like, Point, Symbol, ValueType};
use crate::text::{
    spec_dec_value, spec_is_dec_seq, spec_strip_trailing_nuls, str_contains,
};
use std::collections::HashMap;
use vstd::prelude::*;

verus! {

pub use crate::codec::{
    Word, NOT_ACCUMULATED_16, NOT_ACCUMULATED_32, NOT_ACCUMULATED_64, NOT_IMPLEMENTED_I16,
    NOT_IMPLEMENTED_I32, NOT_IMPLEMENTED_U16, NOT_IMPLEMENTED_U32, NOT_IMPLEMENTED_U64,
};

pub const SUNSPEC_END_MODEL_ID: u16 = 65535;

pub const POINT_TYPE_STRING: &'static str = "string";

pub const POINT_TYPE_INT16: &'static str = "int16";

pub const POINT_TYPE_UINT16: &'static str = "uint16";

pub const POINT_TYPE_ACC16: &'static str = "acc16";

pub const POINT_TYPE_ENUM16: &'static str = "enum16";

pub const POINT_TYPE_BITFIELD16: &'static str = "bitfield16";

pub const POINT_TYPE_INT32: &'static str = "int32";

pub const POINT_TYPE_UINT32: &'static str = "uint32";

pub const POINT_TYPE_INT64: &'static str = "int64";

pub const POINT_TYPE_UINT64: &'static str = "uint64";

pub const POINT_TYPE_ACC32: &'static str = "acc32";

pub const POINT_TYPE_ACC64: &'static str = "acc64";

pub const POINT_TYPE_ENUM32: &'static str = "enum32";

pub const POINT_TYPE_BITFIELD32: &'static str = "bitfield32";

pub const POINT_TYPE_SUNSSF: &'static str = "sunssf";

pub const POINT_TYPE_PAD: &'static str = "pad";

pub const ERROR_ILLEGAL_DATA_VALUE: &'static str = "Modbus function 3: Illegal data value";

pub const ERROR_GATEWAY_DEVICE_FAILED_TO_RESPOND: &'static str =
    "Modbus function 3: Gateway target device failed to respond";

pub const ERROR_INVALID_RESPONSE_HEADER: &'static str = "Invalid response header: expected/request";

pub const DEFAULT_NETWORK_TIMEOUT_MS: u64 = 10_000;

pub const DEFAULT_BACKOFF_BASE_MS: u64 = 100;

/// Where the model chain's first header pair sits: two words past the
/// conventional base register, past the device's identification preamble.
pub const DISCOVERY_BASE_ADDRESS: u16 = 40002;

/// All point addresses are offset by two words: the length register of a
/// model counts the registers remaining after the id and length header, so
/// everything after the header is shifted by the header's two words. This is
/// an empirically fixed protocol invariant; do not re-derive it.
pub const ADDR_OFFSET: u16 = 2;

/// What a secure channel needs to be established: certificate and key file
/// locations and the server name to verify. The channel itself is the
/// caller's concern; the session only consumes the stream it yields.
#[derive(Debug, PartialEq)]
pub struct TlsConfig {
    pub domain: String,
    pub ca_file: String,
    pub client_cert_file: String,
    pub client_key_file: String,
    pub insecure_skip_verify: Option<bool>,
    pub password: Option<String>,
}

impl Clone for TlsConfig {
    fn clone(&self) -> (r: Self)
        ensures
            r == *self,
    {
        TlsConfig {
            domain: self.domain.clone(),
            ca_file: self.ca_file.clone(),
            client_cert_file: self.client_cert_file.clone(),
            client_key_file: self.client_key_file.clone(),
            insecure_skip_verify: self.insecure_skip_verify,
            password: self.password.clone(),
        }
    }
}

/// What a register transport reports when a primitive read or write fails:
/// the OS-level error code if one was present, the error text, and whether
/// the operation timed out rather than failing outright.
#[derive(Debug, PartialEq)]
pub struct TransportFault {
    pub os_error: Option<i32>,
    pub message: String,
    pub timed_out: bool,
}

impl Clone for TransportFault {
    fn clone(&self) -> (r: Self)
        ensures
            r == *self,
    {
        TransportFault {
            os_error: self.os_error,
            message: self.message.clone(),
            timed_out: self.timed_out,
        }
    }
}

/// A register transport: the single capability interface the session
/// consumes, implemented by plaintext TCP, TLS, or an in-memory test
/// harness; the core never branches on which variant it holds. `pause` is
/// the backoff hook between retry attempts; a real transport sleeps, a test
/// harness does nothing.
pub trait SunSpecConn {
    /// Read `q` holding registers starting at `addr`.
    fn read_holding_registers(&mut self, addr: u16, q: u16) -> Result<Vec<Word>, TransportFault>;

    /// Write a single holding register at `addr`.
    fn write_single_register(&mut self, addr: u16, data: Word) -> Result<(), TransportFault>;

    /// Wait out a retry backoff delay.
    fn pause(&mut self, delay_ms: u64);
}

/// A transport-level failure, classified: fatal faults abort, transient
/// faults are retried.
#[derive(Debug)]
pub enum SunSpecCommError {
    FatalError(String),
    TransientError,
}

impl SunSpecCommError {
    /// Whether the retry layer should try the operation again.
    pub fn is_transient(&self) -> (r: bool)
        ensures
            r == (*self is TransientError),
    {
        match self {
            SunSpecCommError::TransientError => true,
            SunSpecCommError::FatalError(_) => false,
        }
    }
}

impl Clone for SunSpecCommError {
    fn clone(&self) -> (r: Self)
        ensures
            r == *self,
    {
        match self {
            SunSpecCommError::FatalError(m) => SunSpecCommError::FatalError(m.clone()),
            SunSpecCommError::TransientError => SunSpecCommError::TransientError,
        }
    }
}

impl PartialEq for SunSpecCommError {
    fn eq(&self, other: &Self) -> (r: bool) {
        match (self, other) {
            (SunSpecCommError::FatalError(a), SunSpecCommError::FatalError(b)) => *a == *b,
            (SunSpecCommError::TransientError, SunSpecCommError::TransientError) => true,
            _ => false,
        }
    }
}

impl vstd::std_specs::cmp::PartialEqSpecImpl for SunSpecCommError {
    open spec fn obeys_eq_spec() -> bool {
        true
    }

    open spec fn eq_spec(&self, other: &Self) -> bool {
        match (self, other) {
            (SunSpecCommError::FatalError(a), SunSpecCommError::FatalError(b)) => a@ == b@,
            (SunSpecCommError::TransientError, SunSpecCommError::TransientError) => true,
            _ => false,
        }
    }
}

/// What a point read can fail with, point and model context attached.
#[derive(Debug)]
pub enum SunSpecPointError {
    CommError(String),
    GeneralError(String),
    DoesNotExist(String),
    UndefinedError,
}

impl Clone for SunSpecPointError {
    fn clone(&self) -> (r: Self)
        ensures
            r == *self,
    {
        match self {
            SunSpecPointError::CommError(m) => SunSpecPointError::CommError(m.clone()),
            SunSpecPointError::GeneralError(m) => SunSpecPointError::GeneralError(m.clone()),
            SunSpecPointError::DoesNotExist(m) => SunSpecPointError::DoesNotExist(m.clone()),
            SunSpecPointError::UndefinedError => SunSpecPointError::UndefinedError,
        }
    }
}

impl PartialEq for SunSpecPointError {
    fn eq(&self, other: &Self) -> (r: bool) {
        match (self, other) {
            (SunSpecPointError::CommError(a), SunSpecPointError::CommError(b)) => *a == *b,
            (SunSpecPointError::GeneralError(a), SunSpecPointError::GeneralError(b)) => *a == *b,
            (SunSpecPointError::DoesNotExist(a), SunSpecPointError::DoesNotExist(b)) => *a == *b,
            (SunSpecPointError::UndefinedError, SunSpecPointError::UndefinedError) => true,
            _ => false,
        }
    }
}

impl vstd::std_specs::cmp::PartialEqSpecImpl for SunSpecPointError {
    open spec fn obeys_eq_spec() -> bool {
        true
    }

    open spec fn eq_spec(&self, other: &Self) -> bool {
        match (self, other) {
            (SunSpecPointError::CommError(a), SunSpecPointError::CommError(b)) => a@ == b@,
            (SunSpecPointError::GeneralError(a), SunSpecPointError::GeneralError(b)) => a@ == b@,
            (SunSpecPointError::DoesNotExist(a), SunSpecPointError::DoesNotExist(b)) => a@ == b@,
            (SunSpecPointError::UndefinedError, SunSpecPointError::UndefinedError) => true,
            _ => false,
        }
    }
}

/// What a primitive register read can fail with. A device that reports a
/// datapoint as not implemented is a defined, non-exceptional outcome, not a
/// transport failure.
#[derive(Debug)]
pub enum SunSpecReadError {
    CommError(String),
    OtherError(String),
    DatapointNotImplemented,
}

impl Clone for SunSpecReadError {
    fn clone(&self) -> (r: Self)
        ensures
            r == *self,
    {
        match self {
            SunSpecReadError::CommError(m) => SunSpecReadError::CommError(m.clone()),
            SunSpecReadError::OtherError(m) => SunSpecReadError::OtherError(m.clone()),
            SunSpecReadError::DatapointNotImplemented => SunSpecReadError::DatapointNotImplemented,
        }
    }
}

impl PartialEq for SunSpecReadError {
    fn eq(&self, other: &Self) -> (r: bool) {
        match (self, other) {
            (SunSpecReadError::CommError(a), SunSpecReadError::CommError(b)) => *a == *b,
            (SunSpecReadError::OtherError(a), SunSpecReadError::OtherError(b)) => *a == *b,
            (
                SunSpecReadError::DatapointNotImplemented,
                SunSpecReadError::DatapointNotImplemented,
            ) => true,
            _ => false,
        }
    }
}

impl vstd::std_specs::cmp::PartialEqSpecImpl for SunSpecReadError {
    open spec fn obeys_eq_spec() -> bool {
        true
    }

    open spec fn eq_spec(&self, other: &Self) -> bool {
        match (self, other) {
            (SunSpecReadError::CommError(a), SunSpecReadError::CommError(b)) => a@ == b@,
            (SunSpecReadError::OtherError(a), SunSpecReadError::OtherError(b)) => a@ == b@,
            (
                SunSpecReadError::DatapointNotImplemented,
                SunSpecReadError::DatapointNotImplemented,
            ) => true,
            _ => false,
        }
    }
}

/// What a point write can fail with. Semantic faults (absent point, wrong
/// value shape, read-only access) are detected before any transport call.
#[derive(Debug)]
pub enum SunSpecWriteError {
    CommError(String),
    PointDoesntExist,
    PointIsReadOnly,
    ValueDoesntMatchPoint,
    ValueWouldOverflow,
    General(String),
    Default,
}

impl Clone for SunSpecWriteError {
    fn clone(&self) -> (r: Self)
        ensures
            r == *self,
    {
        match self {
            SunSpecWriteError::CommError(m) => SunSpecWriteError::CommError(m.clone()),
            SunSpecWriteError::PointDoesntExist => SunSpecWriteError::PointDoesntExist,
            SunSpecWriteError::PointIsReadOnly => SunSpecWriteError::PointIsReadOnly,
            SunSpecWriteError::ValueDoesntMatchPoint => SunSpecWriteError::ValueDoesntMatchPoint,
            SunSpecWriteError::ValueWouldOverflow => SunSpecWriteError::ValueWouldOverflow,
            SunSpecWriteError::General(m) => SunSpecWriteError::General(m.clone()),
            SunSpecWriteError::Default => SunSpecWriteError::Default,
        }
    }
}

impl PartialEq for SunSpecWriteError {
    fn eq(&self, other: &Self) -> (r: bool) {
        match (self, other) {
            (SunSpecWriteError::CommError(a), SunSpecWriteError::CommError(b)) => *a == *b,
            (SunSpecWriteError::PointDoesntExist, SunSpecWriteError::PointDoesntExist) => true,
            (SunSpecWriteError::PointIsReadOnly, SunSpecWriteError::PointIsReadOnly) => true,
            (
                SunSpecWriteError::ValueDoesntMatchPoint,
                SunSpecWriteError::ValueDoesntMatchPoint,
            ) => true,
            (SunSpecWriteError::ValueWouldOverflow, SunSpecWriteError::ValueWouldOverflow) => true,
            (SunSpecWriteError::General(a), SunSpecWriteError::General(b)) => *a == *b,
            (SunSpecWriteError::Default, SunSpecWriteError::Default) => true,
            _ => false,
        }
    }
}

impl vstd::std_specs::cmp::PartialEqSpecImpl for SunSpecWriteError {
    open spec fn obeys_eq_spec() -> bool {
        true
    }

    open spec fn eq_spec(&self, other: &Self) -> bool {
        match (self, other) {
            (SunSpecWriteError::CommError(a), SunSpecWriteError::CommError(b)) => a@ == b@,
            (SunSpecWriteError::PointDoesntExist, SunSpecWriteError::PointDoesntExist) => true,
            (SunSpecWriteError::PointIsReadOnly, SunSpecWriteError::PointIsReadOnly) => true,
            (
                SunSpecWriteError::ValueDoesntMatchPoint,
                SunSpecWriteError::ValueDoesntMatchPoint,
            ) => true,
            (SunSpecWriteError::ValueWouldOverflow, SunSpecWriteError::ValueWouldOverflow) => true,
            (SunSpecWriteError::General(a), SunSpecWriteError::General(b)) => a@ == b@,
            (SunSpecWriteError::Default, SunSpecWriteError::Default) => true,
            _ => false,
        }
    }
}

/// Classify a failed register read: protocol desync, an illegal data value,
/// and a broken pipe are fatal; a gateway that failed to respond, a timeout,
/// and anything unrecognized are transient (the conservative default).
pub fn classify_read_fault(f: &TransportFault) -> (r: SunSpecCommError)
    ensures
        f.timed_out ==> r is TransientError,
        !f.timed_out ==> match f.os_error {
            Option::None => {
                if f.message@ == ERROR_ILLEGAL_DATA_VALUE@ {
                    r matches SunSpecCommError::FatalError(m) && m@ == ERROR_ILLEGAL_DATA_VALUE@
                } else if f.message@ == ERROR_GATEWAY_DEVICE_FAILED_TO_RESPOND@ {
                    r is TransientError
                } else if crate::text::spec_contains_seq(
                    f.message@,
                    ERROR_INVALID_RESPONSE_HEADER@,
                ) {
                    r matches SunSpecCommError::FatalError(m) && m@ == "out of order response"@
                } else {
                    r is TransientError
                }
            },
            Option::Some(code) => {
                if code == 32 {
                    r matches SunSpecCommError::FatalError(m) && m@ == f.message@
                } else {
                    r is TransientError
                }
            },
        },
{
    if f.timed_out {
        return SunSpecCommError::TransientError;
    }
    match f.os_error {
        Option::None => {
            if crate::text::str_eq(f.message.as_str(), ERROR_ILLEGAL_DATA_VALUE) {
                SunSpecCommError::FatalError(ERROR_ILLEGAL_DATA_VALUE.to_owned())
            } else if crate::text::str_eq(
                f.message.as_str(),
                ERROR_GATEWAY_DEVICE_FAILED_TO_RESPOND,
            ) {
                SunSpecCommError::TransientError
            } else if str_contains(f.message.as_str(), ERROR_INVALID_RESPONSE_HEADER) {
                SunSpecCommError::FatalError("out of order response".to_owned())
            } else {
                SunSpecCommError::TransientError
            }
        },
        Option::Some(code) => {
            if code == 32 {
                SunSpecCommError::FatalError(f.message.clone())
            } else {
                SunSpecCommError::TransientError
            }
        },
    }
}

/// Classify a failed register write: only an illegal data value is fatal;
/// every other fault, every OS-level error code and a timeout are transient.
pub fn classify_write_fault(f: &TransportFault) -> (r: SunSpecCommError)
    ensures
        f.timed_out ==> r is TransientError,
        !f.timed_out ==> match f.os_error {
            Option::None => {
                if f.message@ == ERROR_ILLEGAL_DATA_VALUE@ {
                    r matches SunSpecCommError::FatalError(m) && m@ == ERROR_ILLEGAL_DATA_VALUE@
                } else {
                    r is TransientError
                }
            },
            Option::Some(_) => r is TransientError,
        },
{
    if f.timed_out {
        return SunSpecCommError::TransientError;
    }
    match f.os_error {
        Option::None => {
            if crate::text::str_eq(f.message.as_str(), ERROR_ILLEGAL_DATA_VALUE) {
                SunSpecCommError::FatalError(ERROR_ILLEGAL_DATA_VALUE.to_owned())
            } else {
                SunSpecCommError::TransientError
            }
        },
        Option::Some(_) => SunSpecCommError::TransientError,
    }
}

/// The backoff delay before retry attempt `attempt` (counted from zero):
/// exponential in the base delay, saturating instead of overflowing. The
/// transport's own `pause` may add jitter to the delay it is handed.
pub open spec fn spec_backoff_delay_ms(base: u64, attempt: u32) -> u64
    decreases attempt,
{
    if attempt == 0 {
        base
    } else {
        if spec_backoff_delay_ms(base, (attempt - 1) as u32) * base > u64::MAX {
            u64::MAX
        } else {
            (spec_backoff_delay_ms(base, (attempt - 1) as u32) * base) as u64
        }
    }
}

/// Compute the backoff delay before retry attempt `attempt`.
pub fn backoff_delay_ms(base: u64, attempt: u32) -> (r: u64)
    ensures
        r == spec_backoff_delay_ms(base, attempt),
    decreases attempt,
{
    if attempt == 0 {
        base
    } else {
        let prev = backoff_delay_ms(base, attempt - 1);
        proof {
            assert(prev as u128 * base as u128 <= u128::MAX) by (nonlinear_arith)
                requires
                    prev <= u64::MAX,
                    base <= u64::MAX,
            ;
        }
        let wide: u128 = prev as u128 * base as u128;
        if wide > u64::MAX as u128 {
            u64::MAX
        } else {
            wide as u64
        }
    }
}


broadcast use vstd::std_specs::hash::group_hash_axioms;

/// Read a single-register unsigned value out of the words a read returned:
/// the all-ones pattern is the "datapoint not implemented" sentinel, never a
/// plain value; a response with no register at all is malformed.
pub fn decode_u16_words(words: &Vec<Word>) -> (r: Result<u16, SunSpecReadError>)
    ensures
        words@.len() == 0 ==> (r matches Err(e) && e is OtherError),
        words@.len() > 0 && words@[0] == NOT_IMPLEMENTED_U16 ==> r == Err::<
            u16,
            SunSpecReadError,
        >(SunSpecReadError::DatapointNotImplemented),
        words@.len() > 0 && words@[0] != NOT_IMPLEMENTED_U16 ==> r == Ok::<
            u16,
            SunSpecReadError,
        >(words@[0]),
{
    if words.len() == 0 {
        return Err(SunSpecReadError::OtherError("empty register response".to_owned()));
    }
    let w = words[0];
    if w == NOT_IMPLEMENTED_U16 {
        Err(SunSpecReadError::DatapointNotImplemented)
    } else {
        Ok(w)
    }
}

/// Read a single-register signed value out of the words a read returned:
/// the most-negative pattern is the "not implemented" sentinel.
pub fn decode_i16_words(words: &Vec<Word>) -> (r: Result<i16, SunSpecReadError>)
    ensures
        words@.len() == 0 ==> (r matches Err(e) && e is OtherError),
        words@.len() > 0 && words@[0] == NOT_IMPLEMENTED_I16 ==> r == Err::<
            i16,
            SunSpecReadError,
        >(SunSpecReadError::DatapointNotImplemented),
        words@.len() > 0 && words@[0] != NOT_IMPLEMENTED_I16 ==> r == Ok::<
            i16,
            SunSpecReadError,
        >(spec_i16_of_word(words@[0])),
{
    if words.len() == 0 {
        return Err(SunSpecReadError::OtherError("empty register response".to_owned()));
    }
    let w = words[0];
    if w == NOT_IMPLEMENTED_I16 {
        Err(SunSpecReadError::DatapointNotImplemented)
    } else {
        Ok(i16_from_word(w))
    }
}

/// Assemble a two-register unsigned value, big-endian, out of the words a
/// read returned; the all-ones pattern is the "not implemented" sentinel.
pub fn decode_u32_words(words: &Vec<Word>) -> (r: Result<u32, SunSpecReadError>)
    ensures
        words@.len() < 2 ==> (r matches Err(e) && e is OtherError),
        words@.len() >= 2 && spec_u32_of_words(words@[0], words@[1]) == NOT_IMPLEMENTED_U32 ==> r
            == Err::<u32, SunSpecReadError>(SunSpecReadError::DatapointNotImplemented),
        words@.len() >= 2 && spec_u32_of_words(words@[0], words@[1]) != NOT_IMPLEMENTED_U32 ==> r
            == Ok::<u32, SunSpecReadError>(spec_u32_of_words(words@[0], words@[1])),
{
    if words.len() < 2 {
        return Err(SunSpecReadError::OtherError("short register response".to_owned()));
    }
    let v = u32_from_words(words[0], words[1]);
    if v == NOT_IMPLEMENTED_U32 {
        Err(SunSpecReadError::DatapointNotImplemented)
    } else {
        Ok(v)
    }
}

/// Assemble a two-register signed value, big-endian, out of the words a read
/// returned; the most-negative pattern is the "not implemented" sentinel.
pub fn decode_i32_words(words: &Vec<Word>) -> (r: Result<i32, SunSpecReadError>)
    ensures
        words@.len() < 2 ==> (r matches Err(e) && e is OtherError),
        words@.len() >= 2 && spec_u32_of_words(words@[0], words@[1]) == NOT_IMPLEMENTED_I32 ==> r
            == Err::<i32, SunSpecReadError>(SunSpecReadError::DatapointNotImplemented),
        words@.len() >= 2 && spec_u32_of_words(words@[0], words@[1]) != NOT_IMPLEMENTED_I32 ==> r
            == Ok::<i32, SunSpecReadError>(spec_i32_of_u32(spec_u32_of_words(words@[0], words@[1]))),
{
    if words.len() < 2 {
        return Err(SunSpecReadError::OtherError("short register response".to_owned()));
    }
    let v = u32_from_words(words[0], words[1]);
    if v == NOT_IMPLEMENTED_I32 {
        Err(SunSpecReadError::DatapointNotImplemented)
    } else {
        Ok(i32_from_u32(v))
    }
}

/// Assemble a four-register unsigned value, big-endian, out of the words a
/// read returned; the all-ones pattern is the "not implemented" sentinel.
pub fn decode_u64_words(words: &Vec<Word>) -> (r: Result<u64, SunSpecReadError>)
    ensures
        words@.len() < 4 ==> (r matches Err(e) && e is OtherError),
        words@.len() >= 4 && spec_u64_of_words(words@[0], words@[1], words@[2], words@[3])
            == NOT_IMPLEMENTED_U64 ==> r == Err::<u64, SunSpecReadError>(
            SunSpecReadError::DatapointNotImplemented,
        ),
        words@.len() >= 4 && spec_u64_of_words(words@[0], words@[1], words@[2], words@[3])
            != NOT_IMPLEMENTED_U64 ==> r == Ok::<u64, SunSpecReadError>(
            spec_u64_of_words(words@[0], words@[1], words@[2], words@[3]),
        ),
{
    if words.len() < 4 {
        return Err(SunSpecReadError::OtherError("short register response".to_owned()));
    }
    let v = u64_from_words(words[0], words[1], words[2], words[3]);
    if v == NOT_IMPLEMENTED_U64 {
        Err(SunSpecReadError::DatapointNotImplemented)
    } else {
        Ok(v)
    }
}

/// Append one run of register words to another: the concatenation of the
/// two legs of a split read.
pub fn concat_words(a: Vec<Word>, b: &Vec<Word>) -> (r: Vec<Word>)
    ensures
        r@ == a@ + b@,
{
    let mut out = a;
    let ghost left = out@;
    let mut i: usize = 0;
    while i < b.len()
        invariant
            0 <= i <= b@.len(),
            out@.len() == left.len() + i,
            out@ == left + b@.subrange(0, i as int),
        decreases b@.len() - i,
    {
        out.push(b[i]);
        proof {
            assert(out@ =~= left + b@.subrange(0, i as int + 1));
        }
        i = i + 1;
    }
    proof {
        assert(out@ =~= left + b@);
    }
    out
}

/// How a read that is too large for one transport call is split: reads of
/// over 100 words become two calls, the first of exactly 100 words, together
/// covering the whole contiguous range.
pub fn split_read(amount: u16) -> (r: Option<(u16, u16)>)
    ensures
        (amount > 100) <==> r is Some,
        r matches Some(p) ==> p.0 == 100 && p.0 + p.1 == amount,
{
    if amount > 100 {
        Some((100, amount - 100))
    } else {
        None
    }
}

/// One attempt to read holding registers, its failure classified.
pub(crate) fn action_read_holding_registers<T: SunSpecConn>(
    conn: &mut T,
    addr: u16,
    q: u16,
) -> Result<Vec<Word>, SunSpecCommError> {
    match conn.read_holding_registers(addr, q) {
        Ok(d) => Ok(d),
        Err(f) => Err(classify_read_fault(&f)),
    }
}

/// One attempt to write a single register, its failure classified.
pub(crate) fn action_write_register<T: SunSpecConn>(
    conn: &mut T,
    addr: u16,
    data: Word,
) -> Result<(), SunSpecCommError> {
    match conn.write_single_register(addr, data) {
        Ok(()) => Ok(()),
        Err(f) => Err(classify_write_fault(&f)),
    }
}

/// A single entry of the point catalog: the decoded value and absolute
/// address of one dotted-path point of a JSON-schema model.
#[derive(Debug)]
pub struct PointNode {
    pub value: ValueType,
    pub address: u16,
    pub point_data: Point,
}

/// Whether two catalog entries carry the same contents.
pub open spec fn spec_point_node_like(a: PointNode, b: PointNode) -> bool {
    &&& spec_value_like(a.value, b.value)
    &&& a.address == b.address
    &&& spec_point_like(a.point_data, b.point_data)
    &&& crate::sunspec_models::spec_opt_value_like(a.point_data.value, b.point_data.value)
}

impl Clone for PointNode {
    fn clone(&self) -> (r: Self)
        ensures
            spec_point_node_like(r, *self),
    {
        PointNode {
            value: self.value.clone(),
            address: self.address,
            point_data: self.point_data.clone(),
        }
    }
}

/// A connection session: the register transport, the models discovered on
/// it, the dotted-path point catalog of its JSON-schema models, and whether
/// symbol lookups are strict (fail on an unknown code) or lenient
/// (synthesize a label).
#[derive(Debug)]
pub struct SunSpecConnection<T: SunSpecConn> {
    pub conn: T,
    pub addr: String,
    pub slave_num: Option<u8>,
    pub models: HashMap<u16, ModelData>,
    pub catalog: Vec<(String, PointNode)>,
    pub strict_symbol: bool,
}

/// Whether two session states agree on everything but the transport: the
/// word-level operations drive the transport and touch nothing else.
pub open spec fn spec_session_frame<T: SunSpecConn>(
    a: SunSpecConnection<T>,
    b: SunSpecConnection<T>,
) -> bool {
    &&& a.addr == b.addr
    &&& a.slave_num == b.slave_num
    &&& a.models == b.models
    &&& a.catalog == b.catalog
    &&& a.strict_symbol == b.strict_symbol
}

impl SunSpecConnection<ModbusTestHarness> {
    /// A session over the fixed-response test harness.
    pub fn test_new(testbuf: ModbusTestHarness, strict_symbol: bool) -> (r: Self)
        ensures
            r.conn == testbuf,
            r.models@.len() == 0,
            r.catalog@.len() == 0,
            r.strict_symbol == strict_symbol,
    {
        SunSpecConnection {
            conn: testbuf,
            addr: "127.0.0.1:5083".to_owned(),
            slave_num: Some(0),
            models: HashMap::new(),
            catalog: Vec::new(),
            strict_symbol,
        }
    }
}

impl<T: SunSpecConn> SunSpecConnection<T> {
    /// A session over a connected register transport. The transport itself
    /// is established by the caller; this library never opens sockets.
    pub fn new(conn: T, addr: String, slave_num: Option<u8>, strict_symbol: bool) -> (r: Self)
        ensures
            r.conn == conn,
            r.addr == addr,
            r.models@.len() == 0,
            r.catalog@.len() == 0,
            r.strict_symbol == strict_symbol,
    {
        SunSpecConnection {
            conn,
            addr,
            slave_num,
            models: HashMap::new(),
            catalog: Vec::new(),
            strict_symbol,
        }
    }

    /// Read holding registers with bounded retry: up to three retries after
    /// the first attempt, exponential backoff between attempts, and only
    /// transient failures retried; the last classified error surfaces.
    pub(crate) fn retry_read_holding_registers(&mut self, addr: u16, q: u16) -> (r: Result<
        Vec<Word>,
        SunSpecCommError,
    >)
        ensures
            spec_session_frame(*old(self), *final(self)),
    {
        let mut attempt: u32 = 0;
        loop
            invariant
                attempt <= 3,
                spec_session_frame(*old(self), *self),
            decreases 3 - attempt,
        {
            match action_read_holding_registers(&mut self.conn, addr, q) {
                Ok(d) => {
                    return Ok(d);
                },
                Err(e) => {
                    if attempt >= 3 || !e.is_transient() {
                        return Err(e);
                    }
                    self.conn.pause(backoff_delay_ms(DEFAULT_BACKOFF_BASE_MS, attempt));
                    attempt = attempt + 1;
                },
            }
        }
    }

    /// Write a single register with the same bounded retry policy.
    pub(crate) fn retry_write_register(&mut self, addr: u16, data: Word) -> (r: Result<
        (),
        SunSpecCommError,
    >)
        ensures
            spec_session_frame(*old(self), *final(self)),
    {
        let mut attempt: u32 = 0;
        loop
            invariant
                attempt <= 3,
                spec_session_frame(*old(self), *self),
            decreases 3 - attempt,
        {
            match action_write_register(&mut self.conn, addr, data) {
                Ok(()) => {
                    return Ok(());
                },
                Err(e) => {
                    if attempt >= 3 || !e.is_transient() {
                        return Err(e);
                    }
                    self.conn.pause(backoff_delay_ms(DEFAULT_BACKOFF_BASE_MS, attempt));
                    attempt = attempt + 1;
                },
            }
        }
    }

    /// Read a contiguous run of raw register words, splitting reads of over
    /// 100 words into two transport calls and concatenating the results.
    pub fn get_raw(&mut self, addr: u16, amount: u16) -> (r: Result<Vec<Word>, SunSpecReadError>)
        ensures
            spec_session_frame(*old(self), *final(self)),
    {
        match split_read(amount) {
            Some((left, right)) => {
                if addr > u16::MAX - left {
                    return Err(
                        SunSpecReadError::OtherError("read range passes end of address space".to_owned()),
                    );
                }
                let data_left = match self.retry_read_holding_registers(addr, left) {
                    Ok(d) => d,
                    Err(e) => {
                        return Err(SunSpecReadError::CommError(comm_error_text(&e)));
                    },
                };
                let data_right = match self.retry_read_holding_registers(addr + left, right) {
                    Ok(d) => d,
                    Err(e) => {
                        return Err(SunSpecReadError::CommError(comm_error_text(&e)));
                    },
                };
                Ok(concat_words(data_left, &data_right))
            },
            None => {
                match self.retry_read_holding_registers(addr, amount) {
                    Ok(d) => Ok(d),
                    Err(e) => Err(SunSpecReadError::CommError(comm_error_text(&e))),
                }
            },
        }
    }

    /// Read a text string of `quantity` registers; the register bytes are
    /// big-endian and must be valid UTF-8. NUL padding is kept; point-level
    /// decoding strips it.
    pub fn get_string(&mut self, addr: u16, quantity: u16) -> (r: Result<
        String,
        SunSpecReadError,
    >)
        ensures
            spec_session_frame(*old(self), *final(self)),
    {
        let data = match self.retry_read_holding_registers(addr, quantity) {
            Ok(d) => d,
            Err(e) => {
                return Err(SunSpecReadError::CommError(comm_error_text(&e)));
            },
        };
        let bytes = crate::codec::words_to_be_bytes(data.as_slice());
        match crate::text::utf8_to_string(bytes) {
            Some(s) => Ok(s),
            None => Err(SunSpecReadError::OtherError("register text is not valid UTF-8".to_owned())),
        }
    }

    /// Read a signed 16-bit value; the reserved sentinel reports the
    /// datapoint as not implemented, never as a plain value.
    pub fn get_i16(&mut self, addr: u16) -> (r: Result<i16, SunSpecReadError>)
        ensures
            r matches Ok(v) ==> v != spec_i16_of_word(NOT_IMPLEMENTED_I16),
            spec_session_frame(*old(self), *final(self)),
    {
        let data = match self.retry_read_holding_registers(addr, 1) {
            Ok(d) => d,
            Err(e) => {
                return Err(SunSpecReadError::CommError(comm_error_text(&e)));
            },
        };
        let r = decode_i16_words(&data);
        proof {
            crate::codec::lemma_i16_word_round_trip(0, NOT_IMPLEMENTED_I16);
        }
        r
    }

    /// Read an unsigned 16-bit value; the reserved sentinel reports the
    /// datapoint as not implemented.
    pub fn get_u16(&mut self, addr: u16) -> (r: Result<u16, SunSpecReadError>)
        ensures
            r matches Ok(v) ==> v != NOT_IMPLEMENTED_U16,
            spec_session_frame(*old(self), *final(self)),
    {
        let data = match self.retry_read_holding_registers(addr, 1) {
            Ok(d) => d,
            Err(e) => {
                return Err(SunSpecReadError::CommError(comm_error_text(&e)));
            },
        };
        decode_u16_words(&data)
    }

    /// Read an unsigned 16-bit value without the sentinel check: the model
    /// id register legitimately holds the all-ones end-of-models sentinel,
    /// which must not be misclassified as an error.
    fn get_u16_no_check(&mut self, addr: u16) -> (r: Result<u16, SunSpecReadError>)
        ensures
            spec_session_frame(*old(self), *final(self)),
    {
        let data = match self.retry_read_holding_registers(addr, 1) {
            Ok(d) => d,
            Err(e) => {
                return Err(SunSpecReadError::CommError(comm_error_text(&e)));
            },
        };
        if data.len() == 0 {
            return Err(SunSpecReadError::OtherError("empty register response".to_owned()));
        }
        Ok(data[0])
    }

    /// Write an unsigned 16-bit value to a single register; the only failure
    /// is a communication fault.
    pub fn set_u16(&mut self, addr: u16, data: u16) -> (r: Result<(), SunSpecWriteError>)
        ensures
            r is Ok || (r matches Err(e) && e is CommError),
            spec_session_frame(*old(self), *final(self)),
    {
        match self.retry_write_register(addr, data) {
            Ok(()) => Ok(()),
            Err(e) => Err(SunSpecWriteError::CommError(comm_error_text(&e))),
        }
    }

    /// Read a signed 32-bit value from two registers, big-endian.
    pub fn get_i32(&mut self, addr: u16) -> (r: Result<i32, SunSpecReadError>)
        ensures
            r matches Ok(v) ==> v != spec_i32_of_u32(NOT_IMPLEMENTED_I32),
            spec_session_frame(*old(self), *final(self)),
    {
        let data = match self.retry_read_holding_registers(addr, 2) {
            Ok(d) => d,
            Err(e) => {
                return Err(SunSpecReadError::CommError(comm_error_text(&e)));
            },
        };
        decode_i32_words(&data)
    }

    /// Read an unsigned 32-bit value from two registers, big-endian.
    pub fn get_u32(&mut self, addr: u16) -> (r: Result<u32, SunSpecReadError>)
        ensures
            r matches Ok(v) ==> v != NOT_IMPLEMENTED_U32,
            spec_session_frame(*old(self), *final(self)),
    {
        let data = match self.retry_read_holding_registers(addr, 2) {
            Ok(d) => d,
            Err(e) => {
                return Err(SunSpecReadError::CommError(comm_error_text(&e)));
            },
        };
        decode_u32_words(&data)
    }

    /// Read an unsigned 64-bit value from four registers, big-endian.
    pub fn get_u64(&mut self, addr: u16) -> (r: Result<u64, SunSpecReadError>)
        ensures
            r matches Ok(v) ==> v != NOT_IMPLEMENTED_U64,
            spec_session_frame(*old(self), *final(self)),
    {
        let data = match self.retry_read_holding_registers(addr, 4) {
            Ok(d) => d,
            Err(e) => {
                return Err(SunSpecReadError::CommError(comm_error_text(&e)));
            },
        };
        decode_u64_words(&data)
    }
}

/// The caller-facing text of a classified transport failure.
pub fn comm_error_text(e: &SunSpecCommError) -> (r: String)
    ensures
        e matches SunSpecCommError::FatalError(m) ==> r@ == m@,
        e is TransientError ==> r@ == "transient communication error"@,
{
    match e {
        SunSpecCommError::FatalError(m) => m.clone(),
        SunSpecCommError::TransientError => "transient communication error".to_owned(),
    }
}


/// The label of the last symbol of the table whose string-encoded code has
/// the given numeric value; a symbol whose code is not a decimal number
/// matches no value.
pub open spec fn spec_enum_match(syms: Seq<Symbol>, raw: int) -> Option<Seq<char>>
    decreases syms.len(),
{
    if syms.len() == 0 {
        None
    } else if spec_is_dec_seq(syms.last().symbol@) && spec_dec_value(syms.last().symbol@)
        <= u32::MAX && spec_dec_value(syms.last().symbol@) == raw {
        Some(syms.last().id@)
    } else {
        spec_enum_match(syms.drop_last(), raw)
    }
}

/// Look a numeric code up in a symbol table: the label of the last symbol
/// whose code equals the raw value.
pub fn match_enum_symbol(symbols: &Vec<Symbol>, raw: u32) -> (r: Option<String>)
    ensures
        r is Some <==> spec_enum_match(symbols@, raw as int) is Some,
        r matches Some(l) ==> l@ == spec_enum_match(symbols@, raw as int)->0,
{
    let mut found: Option<String> = None;
    let mut i: usize = 0;
    proof {
        assert(symbols@.subrange(0, 0) =~= Seq::<Symbol>::empty());
    }
    while i < symbols.len()
        invariant
            0 <= i <= symbols@.len(),
            found is Some <==> spec_enum_match(symbols@.subrange(0, i as int), raw as int)
                is Some,
            found matches Some(l) ==> l@ == spec_enum_match(
                symbols@.subrange(0, i as int),
                raw as int,
            )->0,
        decreases symbols@.len() - i,
    {
        proof {
            assert(symbols@.subrange(0, i as int + 1).last() == symbols@[i as int]);
            assert(symbols@.subrange(0, i as int + 1).drop_last() =~= symbols@.subrange(
                0,
                i as int,
            ));
        }
        match crate::text::parse_u32_dec(symbols[i].symbol.as_str()) {
            Some(v) => {
                if v == raw {
                    found = Some(symbols[i].id.clone());
                }
            },
            None => {},
        }
        i = i + 1;
    }
    proof {
        assert(symbols@.subrange(0, symbols@.len() as int) =~= symbols@);
    }
    found
}

/// Whether bit `pos` of the raw value is set.
pub open spec fn spec_bit_set(v: u32, pos: u32) -> bool {
    pos < 32 && (v >> pos) & 1 == 1
}

/// The labels of the symbols whose declared bit position is set in the raw
/// value, in symbol declaration order; a symbol whose code is not a decimal
/// number, or names a bit outside the field's width, contributes nothing.
pub open spec fn spec_bitfield_labels(syms: Seq<Symbol>, raw: u32, width: u32) -> Seq<Seq<char>>
    decreases syms.len(),
{
    if syms.len() == 0 {
        Seq::empty()
    } else {
        let init = spec_bitfield_labels(syms.drop_last(), raw, width);
        let code = syms.last().symbol@;
        if spec_is_dec_seq(code) && spec_dec_value(code) < width && spec_bit_set(
            raw,
            spec_dec_value(code) as u32,
        ) {
            init.push(syms.last().id@)
        } else {
            init
        }
    }
}

/// Decode a bitfield: test each symbol's declared bit position against the
/// raw value and collect the labels of the set bits, in declaration order.
pub fn decode_bitfield(symbols: &Vec<Symbol>, raw: u32, width: u32) -> (r: Vec<String>)
    requires
        width == 16 || width == 32,
    ensures
        r@.map_values(|l: String| l@) == spec_bitfield_labels(symbols@, raw, width),
{
    let mut out: Vec<String> = Vec::new();
    let mut i: usize = 0;
    proof {
        assert(symbols@.subrange(0, 0) =~= Seq::<Symbol>::empty());
        assert(out@.map_values(|l: String| l@) =~= spec_bitfield_labels(
            symbols@.subrange(0, 0),
            raw,
            width,
        ));
    }
    while i < symbols.len()
        invariant
            width == 16 || width == 32,
            0 <= i <= symbols@.len(),
            out@.map_values(|l: String| l@) == spec_bitfield_labels(
                symbols@.subrange(0, i as int),
                raw,
                width,
            ),
        decreases symbols@.len() - i,
    {
        proof {
            assert(symbols@.subrange(0, i as int + 1).last() == symbols@[i as int]);
            assert(symbols@.subrange(0, i as int + 1).drop_last() =~= symbols@.subrange(
                0,
                i as int,
            ));
        }
        match crate::text::parse_u32_dec(symbols[i].symbol.as_str()) {
            Some(pos) => {
                if pos < width && (raw >> pos) & 1 == 1 {
                    out.push(symbols[i].id.clone());
                    proof {
                        assert(out@.map_values(|l: String| l@) =~= spec_bitfield_labels(
                            symbols@.subrange(0, i as int + 1),
                            raw,
                            width,
                        ));
                    }
                } else {
                    proof {
                        assert(out@.map_values(|l: String| l@) =~= spec_bitfield_labels(
                            symbols@.subrange(0, i as int + 1),
                            raw,
                            width,
                        ));
                    }
                }
            },
            None => {
                proof {
                    assert(out@.map_values(|l: String| l@) =~= spec_bitfield_labels(
                        symbols@.subrange(0, i as int + 1),
                        raw,
                        width,
                    ));
                }
            },
        }
        i = i + 1;
    }
    proof {
        assert(symbols@.subrange(0, symbols@.len() as int) =~= symbols@);
    }
    out
}

/// Decode a string point out of the words a read returned: the register
/// bytes are big-endian, the trailing NUL padding is always stripped, and
/// what remains must be valid UTF-8.
pub fn decode_point_string(words: &Vec<Word>) -> (r: Result<String, SunSpecReadError>)
    ensures
        r is Ok <==> vstd::utf8::valid_utf8(
            spec_strip_trailing_nuls(crate::codec::spec_words_bytes(words@)),
        ),
        r matches Ok(s) ==> s@ == vstd::utf8::decode_utf8(
            spec_strip_trailing_nuls(crate::codec::spec_words_bytes(words@)),
        ),
        r matches Err(e) ==> e is OtherError,
{
    let mut bytes = crate::codec::words_to_be_bytes(words.as_slice());
    crate::text::strip_trailing_nuls(&mut bytes);
    match crate::text::utf8_to_string(bytes) {
        Some(s) => Ok(s),
        None => Err(SunSpecReadError::OtherError("register text is not valid UTF-8".to_owned())),
    }
}

/// Carry a primitive read failure into a point error: a communication fault
/// keeps its classification, a "not implemented" report and any other
/// decode failure become general errors.
pub fn read_error_to_point_error(e: SunSpecReadError) -> (r: SunSpecPointError)
    ensures
        e matches SunSpecReadError::CommError(m) ==> (r matches SunSpecPointError::CommError(n)
            && n@ == m@),
        e is DatapointNotImplemented ==> (r matches SunSpecPointError::GeneralError(n) && n@
            == "device reports this datapoint as not implemented"@),
        e matches SunSpecReadError::OtherError(m) ==> (r matches SunSpecPointError::GeneralError(
            n,
        ) && n@ == m@),
{
    match e {
        SunSpecReadError::CommError(m) => SunSpecPointError::CommError(m),
        SunSpecReadError::DatapointNotImplemented => SunSpecPointError::GeneralError(
            "device reports this datapoint as not implemented".to_owned(),
        ),
        SunSpecReadError::OtherError(m) => SunSpecPointError::GeneralError(m),
    }
}

/// The first catalog entry under the dotted path, if any.
pub open spec fn spec_catalog_find(c: Seq<(String, PointNode)>, path: Seq<char>) -> Option<
    PointNode,
>
    decreases c.len(),
{
    if c.len() == 0 {
        None
    } else if c[0].0@ == path {
        Some(c[0].1)
    } else {
        spec_catalog_find(c.drop_first(), path)
    }
}

proof fn lemma_catalog_find_skip(c: Seq<(String, PointNode)>, path: Seq<char>, i: int)
    requires
        0 <= i <= c.len(),
        forall|k: int| 0 <= k < i ==> (#[trigger] c[k]).0@ != path,
    ensures
        spec_catalog_find(c, path) == spec_catalog_find(c.skip(i), path),
    decreases i,
{
    if i > 0 {
        assert(c[0].0@ != path);
        lemma_catalog_find_skip(c.drop_first(), path, i - 1);
        assert(c.drop_first().skip(i - 1) =~= c.skip(i));
    } else {
        assert(c.skip(0) =~= c);
    }
}

/// Look a dotted path up in the catalog: the first entry under the path.
/// Two models whose schemas share a root group name can record the same
/// dotted path; the entry of the model discovered first then answers.
pub fn catalog_get<'a>(catalog: &'a Vec<(String, PointNode)>, path: &str) -> (r: Option<
    &'a PointNode,
>)
    ensures
        r is Some <==> spec_catalog_find(catalog@, path@) is Some,
        r matches Some(pn) ==> *pn == spec_catalog_find(catalog@, path@)->0,
{
    let mut i: usize = 0;
    while i < catalog.len()
        invariant
            0 <= i <= catalog@.len(),
            forall|k: int| 0 <= k < i ==> (#[trigger] catalog@[k]).0@ != path@,
        decreases catalog@.len() - i,
    {
        let entry = &catalog[i];
        if crate::text::str_eq(entry.0.as_str(), path) {
            proof {
                lemma_catalog_find_skip(catalog@, path@, i as int);
                assert(catalog@.skip(i as int)[0] == catalog@[i as int]);
            }
            return Some(&entry.1);
        }
        i = i + 1;
    }
    proof {
        lemma_catalog_find_skip(catalog@, path@, i as int);
    }
    None
}


/// The label of the first schema symbol whose numeric value equals the raw
/// code; a symbol carrying text instead of a number matches no code.
pub open spec fn spec_json_enum_match(syms: Seq<JsonSymbol>, raw: int) -> Option<Seq<char>>
    decreases syms.len(),
{
    if syms.len() == 0 {
        None
    } else if syms[0].value matches SymbolValue::Integer(v) && v == raw {
        Some(syms[0].name@)
    } else {
        spec_json_enum_match(syms.drop_first(), raw)
    }
}

proof fn lemma_json_enum_match_skip(syms: Seq<JsonSymbol>, raw: int, i: int)
    requires
        0 <= i <= syms.len(),
        forall|k: int|
            0 <= k < i ==> !((#[trigger] syms[k]).value matches SymbolValue::Integer(v) && v
                == raw),
    ensures
        spec_json_enum_match(syms, raw) == spec_json_enum_match(syms.skip(i), raw),
    decreases i,
{
    if i > 0 {
        assert(!(syms[0].value matches SymbolValue::Integer(v) && v == raw));
        lemma_json_enum_match_skip(syms.drop_first(), raw, i - 1);
        assert(syms.drop_first().skip(i - 1) =~= syms.skip(i));
    } else {
        assert(syms.skip(0) =~= syms);
    }
}

/// Decode one point of a JSON-schema model out of the raw words consumed for
/// it during catalog population: single-word types read as a signed
/// register, an enumeration resolves through the schema symbols with the raw
/// code as fallback, wider integers check the "not implemented" sentinel,
/// and a type outside the catalog's repertoire is an error.
#[verifier::loop_isolation(false)]
pub fn parse_point_data(p: &JsonPoint, d: &Vec<Word>) -> (r: Result<ValueType, SunSpecReadError>)
    ensures
        (p.type_ is Uint16 || p.type_ is Int16 || p.type_ is Bitfield16 || p.type_ is Sunssf)
            ==> if d@.len() >= 1 {
            r == Ok::<ValueType, SunSpecReadError>(
                ValueType::Integer(spec_i16_of_word(d@[0]) as i64),
            )
        } else {
            r matches Err(e) && e is OtherError
        },
        p.type_ is Enum16 ==> if d@.len() >= 1 {
            match spec_json_enum_match(p.symbols@, d@[0] as int) {
                Option::Some(label) => r matches Ok(v) && v matches ValueType::String(l) && l@
                    == label,
                Option::None => r == Ok::<ValueType, SunSpecReadError>(
                    ValueType::Integer(spec_i16_of_word(d@[0]) as i64),
                ),
            }
        } else {
            r matches Err(e) && e is OtherError
        },
        p.type_ is String ==> {
            let stripped = spec_strip_trailing_nuls(crate::codec::spec_words_bytes(d@));
            if vstd::utf8::valid_utf8(stripped) {
                r matches Ok(v) && v matches ValueType::String(s) && s@ == vstd::utf8::decode_utf8(
                    stripped,
                )
            } else {
                r matches Err(e) && e is OtherError
            }
        },
        (p.type_ is Uint32 || p.type_ is Int32 || p.type_ is Bitfield32) ==> if d@.len() >= 2 {
            if spec_u32_of_words(d@[0], d@[1]) == NOT_IMPLEMENTED_U32 {
                r == Err::<ValueType, SunSpecReadError>(SunSpecReadError::DatapointNotImplemented)
            } else {
                r == Ok::<ValueType, SunSpecReadError>(
                    ValueType::Integer(spec_u32_of_words(d@[0], d@[1]) as i64),
                )
            }
        } else {
            r matches Err(e) && e is OtherError
        },
        p.type_ is Uint64 ==> if d@.len() >= 4 {
            if spec_u64_of_words(d@[0], d@[1], d@[2], d@[3]) == NOT_IMPLEMENTED_U64 {
                r == Err::<ValueType, SunSpecReadError>(SunSpecReadError::DatapointNotImplemented)
            } else {
                r == Ok::<ValueType, SunSpecReadError>(
                    ValueType::Integer(spec_i64_of_u64(spec_u64_of_words(d@[0], d@[1], d@[2], d@[3]))),
                )
            }
        } else {
            r matches Err(e) && e is OtherError
        },
        p.type_ is Pad ==> r == Ok::<ValueType, SunSpecReadError>(ValueType::Pad),
        !(p.type_ is Uint16 || p.type_ is Int16 || p.type_ is Bitfield16 || p.type_ is Sunssf
            || p.type_ is Enum16 || p.type_ is String || p.type_ is Uint32 || p.type_ is Int32
            || p.type_ is Bitfield32 || p.type_ is Uint64 || p.type_ is Pad) ==> (r matches Err(e)
            && e is OtherError),
{
    match p.type_ {
        JsonPointType::Uint16 | JsonPointType::Int16 | JsonPointType::Bitfield16
            | JsonPointType::Sunssf => {
            if d.len() < 1 {
                return Err(SunSpecReadError::OtherError("short register data".to_owned()));
            }
            Ok(ValueType::Integer(i16_from_word(d[0]) as i64))
        },
        JsonPointType::Enum16 => {
            if d.len() < 1 {
                return Err(SunSpecReadError::OtherError("short register data".to_owned()));
            }
            let raw = d[0];
            let mut i: usize = 0;
            while i < p.symbols.len()
                invariant
                    0 <= i <= p.symbols@.len(),
                    forall|k: int|
                        0 <= k < i ==> !((#[trigger] p.symbols@[k]).value
                            matches SymbolValue::Integer(v) && v == raw as int),
                decreases p.symbols@.len() - i,
            {
                match &p.symbols[i].value {
                    SymbolValue::Integer(v) => {
                        if *v == raw as i64 {
                            proof {
                                lemma_json_enum_match_skip(p.symbols@, raw as int, i as int);
                                assert(p.symbols@.skip(i as int)[0] == p.symbols@[i as int]);
                            }
                            return Ok(ValueType::String(p.symbols[i].name.clone()));
                        }
                    },
                    SymbolValue::Text(_) => {},
                }
                i = i + 1;
            }
            proof {
                lemma_json_enum_match_skip(p.symbols@, raw as int, i as int);
            }
            Ok(ValueType::Integer(i16_from_word(raw) as i64))
        },
        JsonPointType::String => {
            match decode_point_string(d) {
                Ok(s) => Ok(ValueType::String(s)),
                Err(e) => Err(e),
            }
        },
        JsonPointType::Uint32 | JsonPointType::Int32 | JsonPointType::Bitfield32 => {
            if d.len() < 2 {
                return Err(SunSpecReadError::OtherError("short register data".to_owned()));
            }
            let v = u32_from_words(d[0], d[1]);
            if v == NOT_IMPLEMENTED_U32 {
                Err(SunSpecReadError::DatapointNotImplemented)
            } else {
                Ok(ValueType::Integer(v as i64))
            }
        },
        JsonPointType::Uint64 => {
            if d.len() < 4 {
                return Err(SunSpecReadError::OtherError("short register data".to_owned()));
            }
            let v = u64_from_words(d[0], d[1], d[2], d[3]);
            if v == NOT_IMPLEMENTED_U64 {
                Err(SunSpecReadError::DatapointNotImplemented)
            } else {
                Ok(ValueType::Integer(i64_from_u64(v)))
            }
        },
        JsonPointType::Pad => Ok(ValueType::Pad),
        _ => Err(SunSpecReadError::OtherError("point type is not implemented".to_owned())),
    }
}

/// A raw register reading under a resolved scale factor: the exact scaled
/// measurement `raw * 10^sf`, kept as the pair so that nothing is rounded.
pub fn apply_scale_factor(raw: i64, sf: i16) -> (r: ValueType)
    ensures
        r == ValueType::Scaled(ScaledValue { raw, sf }),
{
    ValueType::Scaled(ScaledValue { raw, sf })
}

/// The position of the first block bearing the name.
pub fn get_block_id_from_name(model: &Model, s: &String) -> (r: Option<usize>)
    ensures
        r matches Some(i) ==> {
            &&& 0 <= i < model.block@.len()
            &&& model.block@[i as int].name matches Some(n) && n@ == s@
            &&& forall|k: int|
                0 <= k < i ==> !((#[trigger] model.block@[k]).name matches Some(n) && n@ == s@)
        },
        r is None ==> forall|k: int|
            0 <= k < model.block@.len() ==> !((#[trigger] model.block@[k]).name matches Some(n)
                && n@ == s@),
{
    let mut i: usize = 0;
    while i < model.block.len()
        invariant
            0 <= i <= model.block@.len(),
            forall|k: int|
                0 <= k < i ==> !((#[trigger] model.block@[k]).name matches Some(n) && n@ == s@),
        decreases model.block@.len() - i,
    {
        match &model.block[i].name {
            Some(n) => {
                if crate::text::str_eq(n.as_str(), s.as_str()) {
                    return Some(i);
                }
            },
            None => {},
        }
        i = i + 1;
    }
    None
}


/// The position of the first dot at or after `i`, or the end of the text.
pub open spec fn spec_first_dot_from(s: Seq<char>, i: int) -> int
    recommends
        0 <= i <= s.len(),
    decreases s.len() - i,
{
    if i < 0 || i >= s.len() {
        s.len() as int
    } else if s[i] == '.' {
        i
    } else {
        spec_first_dot_from(s, i + 1)
    }
}

/// The first dotted-path component of a catalog prefix: the characters
/// after a leading dot, up to the next dot.
pub open spec fn spec_path_head(s: Seq<char>) -> Seq<char> {
    let start: int = if s.len() > 0 && s[0] == '.' {
        1
    } else {
        0
    };
    s.subrange(start, spec_first_dot_from(s, start))
}

/// Take the first dotted-path component of a catalog prefix.
fn path_head(prefix: &str) -> (r: String)
    ensures
        r@ == spec_path_head(prefix@),
{
    let n = prefix.unicode_len();
    let start: usize = if n > 0 && prefix.get_char(0) == '.' {
        1
    } else {
        0
    };
    let mut end: usize = start;
    while end < n && prefix.get_char(end) != '.'
        invariant
            n == prefix@.len(),
            start <= end <= n,
            start <= 1,
            spec_first_dot_from(prefix@, start as int) == spec_first_dot_from(
                prefix@,
                end as int,
            ),
        decreases n - end,
    {
        end = end + 1;
    }
    prefix.substring_char(start, end).to_owned()
}


/// One catalog entry as the specification-level walk yields it: the dotted
/// path, the address the point was recorded at, the schema point it came
/// from, and the raw words consumed for it.
pub struct SpecCatalogEntry {
    pub path: Seq<char>,
    pub address: u16,
    pub point: JsonPoint,
    pub words: Seq<Word>,
}

/// Whether the catalog decode of the point out of the words succeeds;
/// exactly when `parse_point_data` returns a value.
pub open spec fn spec_parse_ok(p: JsonPoint, d: Seq<Word>) -> bool {
    if p.type_ is Uint16 || p.type_ is Int16 || p.type_ is Bitfield16 || p.type_ is Sunssf
        || p.type_ is Enum16 {
        d.len() >= 1
    } else if p.type_ is String {
        vstd::utf8::valid_utf8(spec_strip_trailing_nuls(crate::codec::spec_words_bytes(d)))
    } else if p.type_ is Uint32 || p.type_ is Int32 || p.type_ is Bitfield32 {
        d.len() >= 2 && spec_u32_of_words(d[0], d[1]) != NOT_IMPLEMENTED_U32
    } else if p.type_ is Uint64 {
        d.len() >= 4 && spec_u64_of_words(d[0], d[1], d[2], d[3]) != NOT_IMPLEMENTED_U64
    } else if p.type_ is Pad {
        true
    } else {
        false
    }
}

/// Whether `v` is exactly the value the catalog decode yields for the point
/// out of the words.
pub open spec fn spec_parse_value_rel(p: JsonPoint, d: Seq<Word>, v: ValueType) -> bool {
    if p.type_ is Uint16 || p.type_ is Int16 || p.type_ is Bitfield16 || p.type_ is Sunssf {
        v == ValueType::Integer(spec_i16_of_word(d[0]) as i64)
    } else if p.type_ is Enum16 {
        match spec_json_enum_match(p.symbols@, d[0] as int) {
            Option::Some(label) => v matches ValueType::String(l) && l@ == label,
            Option::None => v == ValueType::Integer(spec_i16_of_word(d[0]) as i64),
        }
    } else if p.type_ is String {
        v matches ValueType::String(s) && s@ == vstd::utf8::decode_utf8(
            spec_strip_trailing_nuls(crate::codec::spec_words_bytes(d)),
        )
    } else if p.type_ is Uint32 || p.type_ is Int32 || p.type_ is Bitfield32 {
        v == ValueType::Integer(spec_u32_of_words(d[0], d[1]) as i64)
    } else if p.type_ is Uint64 {
        v == ValueType::Integer(spec_i64_of_u64(spec_u64_of_words(d[0], d[1], d[2], d[3])))
    } else if p.type_ is Pad {
        v is Pad
    } else {
        false
    }
}

/// The integer a catalog entry supplies to a sibling count reference, if
/// the value it decodes to is an integer.
pub open spec fn spec_entry_int(p: JsonPoint, d: Seq<Word>) -> Option<i64> {
    if p.type_ is Uint16 || p.type_ is Int16 || p.type_ is Bitfield16 || p.type_ is Sunssf {
        Some(spec_i16_of_word(d[0]) as i64)
    } else if p.type_ is Enum16 {
        match spec_json_enum_match(p.symbols@, d[0] as int) {
            Option::Some(_) => None,
            Option::None => Some(spec_i16_of_word(d[0]) as i64),
        }
    } else if p.type_ is Uint32 || p.type_ is Int32 || p.type_ is Bitfield32 {
        Some(spec_u32_of_words(d[0], d[1]) as i64)
    } else if p.type_ is Uint64 {
        Some(spec_i64_of_u64(spec_u64_of_words(d[0], d[1], d[2], d[3])))
    } else {
        None
    }
}

/// The integer a decoded value supplies to a count reference.
pub open spec fn spec_value_int(v: ValueType) -> Option<i64> {
    match v {
        ValueType::Integer(i) => Some(i),
        _ => None,
    }
}

/// The catalog as count lookups see it: each entry's path and the integer
/// it supplies, if any.
pub open spec fn spec_catalog_int_view(c: Seq<(String, PointNode)>) -> Seq<
    (Seq<char>, Option<i64>),
>
    decreases c.len(),
{
    if c.len() == 0 {
        Seq::empty()
    } else {
        seq![(c[0].0@, spec_value_int(c[0].1.value))] + spec_catalog_int_view(c.drop_first())
    }
}

/// The lookup view of the walk's own entries.
pub open spec fn spec_entries_int_view(es: Seq<SpecCatalogEntry>) -> Seq<
    (Seq<char>, Option<i64>),
>
    decreases es.len(),
{
    if es.len() == 0 {
        Seq::empty()
    } else {
        seq![(es[0].path, spec_entry_int(es[0].point, es[0].words))] + spec_entries_int_view(
            es.drop_first(),
        )
    }
}

/// What a count reference resolves to: the integer of the first entry under
/// the key, zero when that entry holds no integer or no entry exists, so a
/// forward reference expands to zero instances.
pub open spec fn spec_count_lookup(view: Seq<(Seq<char>, Option<i64>)>, key: Seq<char>) -> i64
    decreases view.len(),
{
    if view.len() == 0 {
        0
    } else if view[0].0 == key {
        match view[0].1 {
            Option::Some(n) => n,
            Option::None => 0,
        }
    } else {
        spec_count_lookup(view.drop_first(), key)
    }
}

/// The key a count reference is looked up under: the root group's own path
/// head, then the referenced point's name.
pub open spec fn spec_count_key(prefix: Option<Seq<char>>, countval: Seq<char>) -> Seq<char> {
    match prefix {
        Option::Some(s) => "."@ + spec_path_head(s) + "."@ + countval,
        Option::None => "."@ + countval,
    }
}

/// How many instances of the group the walk processes: a literal count, or
/// the resolved value of the referenced sibling point.
pub open spec fn spec_group_count(
    g: Group,
    prefix: Option<Seq<char>>,
    pre: Seq<(Seq<char>, Option<i64>)>,
) -> i64 {
    match g.count {
        GroupCount::Integer(i) => i,
        GroupCount::String(cv) => spec_count_lookup(pre, spec_count_key(prefix, cv@)),
    }
}

/// The dotted prefix of instance `inst` (counted from zero) of a group: the
/// parent prefix, a dot, the group's name, and a one-based `[k]` suffix
/// exactly when the group has more than one instance.
pub open spec fn spec_instance_prefix(
    g: Group,
    prefix: Option<Seq<char>>,
    inst: int,
    total: i64,
) -> Seq<char> {
    let base = (match prefix {
        Option::Some(s) => s,
        Option::None => Seq::empty(),
    }) + "."@ + g.name@;
    if total > 1 {
        base + "["@ + crate::text::spec_dec_chars((inst + 1) as nat) + "]"@
    } else {
        base
    }
}

/// Walk the points of one group instance, from point `j` on: a root
/// instance's ID and L header points advance the address without consuming
/// words; a point whose words are exhausted consumes the rest and yields
/// nothing; every other point consumes its declared size and yields one
/// entry at the walk's address exactly when it decodes.
pub open spec fn spec_walk_points(
    data: Seq<Word>,
    cursor: int,
    points: Seq<JsonPoint>,
    j: int,
    root: bool,
    np: Seq<char>,
    addr: u16,
) -> (int, u16, Seq<SpecCatalogEntry>)
    decreases points.len() - j,
{
    if j < 0 || j >= points.len() {
        (cursor, addr, Seq::empty())
    } else {
        let p = points[j];
        let size16 = crate::codec::spec_size_u16(p.size);
        let size = size16 as int;
        let next_addr = crate::codec::spec_sat_add_u16(addr, size16);
        if root && (p.name@ == "ID"@ || p.name@ == "L"@) {
            spec_walk_points(data, cursor, points, j + 1, root, np, next_addr)
        } else if size > data.len() || cursor > data.len() - size {
            spec_walk_points(data, data.len() as int, points, j + 1, root, np, next_addr)
        } else {
            let words = data.subrange(cursor, cursor + size);
            let rest = spec_walk_points(data, cursor + size, points, j + 1, root, np, next_addr);
            if spec_parse_ok(p, words) {
                (
                    rest.0,
                    rest.1,
                    seq![
                        SpecCatalogEntry { path: np + "."@ + p.name@, address: addr, point: p, words },
                    ] + rest.2,
                )
            } else {
                rest
            }
        }
    }
}

/// Walk the instances of a group, from instance `inst` on: each instance
/// walks the group's points, then its child groups depth-first in
/// declaration order, every entry appended extending what later count
/// references can resolve.
pub open spec fn spec_walk_instances(
    data: Seq<Word>,
    cursor: int,
    g: Group,
    prefix: Option<Seq<char>>,
    addr: u16,
    pre: Seq<(Seq<char>, Option<i64>)>,
    inst: int,
    total: i64,
) -> (int, u16, Seq<SpecCatalogEntry>)
    decreases g, total - inst, 1int,
{
    if inst < 0 || inst >= total {
        (cursor, addr, Seq::empty())
    } else {
        let np = spec_instance_prefix(g, prefix, inst, total);
        let pts = spec_walk_points(data, cursor, g.points@, 0, prefix is None, np, addr);
        let grps = spec_walk_groups(
            data,
            pts.0,
            g.groups@,
            0,
            np,
            pts.1,
            pre + spec_entries_int_view(pts.2),
        );
        let nxt = spec_walk_instances(
            data,
            grps.0,
            g,
            prefix,
            grps.1,
            pre + spec_entries_int_view(pts.2) + spec_entries_int_view(grps.2),
            inst + 1,
            total,
        );
        (nxt.0, nxt.1, pts.2 + grps.2 + nxt.2)
    }
}

/// Walk child groups from group `k` on, each with its own instance count
/// resolved against everything appended before it.
pub open spec fn spec_walk_groups(
    data: Seq<Word>,
    cursor: int,
    groups: Seq<Group>,
    k: int,
    np: Seq<char>,
    addr: u16,
    pre: Seq<(Seq<char>, Option<i64>)>,
) -> (int, u16, Seq<SpecCatalogEntry>)
    decreases groups, groups.len() - k, 0int,
{
    if k < 0 || k >= groups.len() {
        (cursor, addr, Seq::empty())
    } else {
        let child = groups[k];
        let total = spec_group_count(child, Some(np), pre);
        let w = spec_walk_instances(data, cursor, child, Some(np), addr, pre, 0, total);
        let rest = spec_walk_groups(
            data,
            w.0,
            groups,
            k + 1,
            np,
            w.1,
            pre + spec_entries_int_view(w.2),
        );
        (rest.0, rest.1, w.2 + rest.2)
    }
}

/// The view of an optional dotted prefix.
pub open spec fn spec_opt_prefix(p: Option<String>) -> Option<Seq<char>> {
    match p {
        Option::Some(s) => Some(s@),
        Option::None => None,
    }
}

/// Whether a catalog entry is what the walk says it is: the path, the
/// recorded address, the canonical form of the schema point, and the value
/// the point's words decode to.
pub open spec fn spec_entry_matches(x: (String, PointNode), e: SpecCatalogEntry) -> bool {
    &&& x.0@ == e.path
    &&& x.1.address == e.address
    &&& crate::sunspec_models::spec_is_canonical_point(x.1.point_data, e.point, 0)
    &&& spec_parse_ok(e.point, e.words)
    &&& spec_parse_value_rel(e.point, e.words, x.1.value)
}


proof fn lemma_catalog_int_view_index(c: Seq<(String, PointNode)>)
    ensures
        spec_catalog_int_view(c).len() == c.len(),
        forall|i: int|
            0 <= i < c.len() ==> #[trigger] spec_catalog_int_view(c)[i] == ((c[i].0@, spec_value_int(
                c[i].1.value,
            ))),
    decreases c.len(),
{
    if c.len() > 0 {
        lemma_catalog_int_view_index(c.drop_first());
        assert forall|i: int|
            0 <= i < c.len() implies #[trigger] spec_catalog_int_view(c)[i] == ((c[i].0@, spec_value_int(
            c[i].1.value,
        ))) by {
            if i > 0 {
                assert(spec_catalog_int_view(c)[i] == spec_catalog_int_view(c.drop_first())[i - 1]);
                assert(c.drop_first()[i - 1] == c[i]);
            }
        }
    }
}

proof fn lemma_entries_int_view_index(es: Seq<SpecCatalogEntry>)
    ensures
        spec_entries_int_view(es).len() == es.len(),
        forall|i: int|
            0 <= i < es.len() ==> #[trigger] spec_entries_int_view(es)[i] == ((es[i].path, spec_entry_int(
                es[i].point,
                es[i].words,
            ))),
    decreases es.len(),
{
    if es.len() > 0 {
        lemma_entries_int_view_index(es.drop_first());
        assert forall|i: int|
            0 <= i < es.len() implies #[trigger] spec_entries_int_view(es)[i] == ((es[i].path, spec_entry_int(
            es[i].point,
            es[i].words,
        ))) by {
            if i > 0 {
                assert(spec_entries_int_view(es)[i] == spec_entries_int_view(es.drop_first())[i
                    - 1]);
                assert(es.drop_first()[i - 1] == es[i]);
            }
        }
    }
}

/// A value's decode pins the integer it supplies to count references.
proof fn lemma_rel_int(p: JsonPoint, d: Seq<Word>, v: ValueType)
    requires
        spec_parse_value_rel(p, d, v),
    ensures
        spec_value_int(v) == spec_entry_int(p, d),
{
}

/// The exec lookup and the walk's count lookup agree on a catalog.
proof fn lemma_count_align(c: Seq<(String, PointNode)>, key: Seq<char>)
    ensures
        spec_count_lookup(spec_catalog_int_view(c), key) == (match spec_catalog_find(c, key) {
            Option::Some(pn) => match spec_value_int(pn.value) {
                Option::Some(n) => n,
                Option::None => 0,
            },
            Option::None => 0,
        }),
    decreases c.len(),
{
    if c.len() > 0 {
        lemma_count_align(c.drop_first(), key);
        assert(spec_catalog_int_view(c).drop_first() =~= spec_catalog_int_view(c.drop_first()));
        assert(spec_catalog_int_view(c)[0] == ((c[0].0@, spec_value_int(c[0].1.value))));
    }
}

/// A catalog that grew by walk-matched entries has the grown lookup view.
proof fn lemma_catalog_view_extension(
    c: Seq<(String, PointNode)>,
    base: Seq<(String, PointNode)>,
    es: Seq<SpecCatalogEntry>,
)
    requires
        c.len() == base.len() + es.len(),
        c.subrange(0, base.len() as int) == base,
        forall|k: int|
            0 <= k < es.len() ==> spec_entry_matches(#[trigger] c[base.len() + k], es[k]),
    ensures
        spec_catalog_int_view(c) == spec_catalog_int_view(base) + spec_entries_int_view(es),
{
    lemma_catalog_int_view_index(c);
    lemma_catalog_int_view_index(base);
    lemma_entries_int_view_index(es);
    assert forall|i: int|
        0 <= i < c.len() implies #[trigger] spec_catalog_int_view(c)[i] == (spec_catalog_int_view(
        base,
    ) + spec_entries_int_view(es))[i] by {
        if i < base.len() {
            assert(c.subrange(0, base.len() as int)[i] == c[i]);
        } else {
            let k = i - base.len();
            assert(spec_entry_matches(c[base.len() + k], es[k]));
            lemma_rel_int(es[k].point, es[k].words, c[i].1.value);
        }
    }
    assert(spec_catalog_int_view(c) =~= spec_catalog_int_view(base) + spec_entries_int_view(es));
}

/// Decode the points of one group instance, from point `j` on, in lock-step
/// with the raw words.
fn catalog_points_pass(
    data: &Vec<Word>,
    cursor: &mut usize,
    points: &Vec<JsonPoint>,
    j: usize,
    root: bool,
    np: &String,
    address: &mut u16,
    catalog: &mut Vec<(String, PointNode)>,
)
    requires
        *old(cursor) <= data@.len(),
    ensures
        ({
            let w = spec_walk_points(
                data@,
                *old(cursor) as int,
                points@,
                j as int,
                root,
                np@,
                *old(address),
            );
            &&& *final(cursor) == w.0
            &&& *final(address) == w.1
            &&& final(catalog)@.len() == old(catalog)@.len() + w.2.len()
            &&& forall|k: int|
                0 <= k < w.2.len() ==> spec_entry_matches(
                    #[trigger] final(catalog)@[old(catalog)@.len() + k],
                    w.2[k],
                )
        }),
        *old(cursor) <= *final(cursor) <= data@.len(),
        *final(address) >= *old(address),
        final(catalog)@.subrange(0, old(catalog)@.len() as int) == old(catalog)@,
    decreases points@.len() - j,
{
    if j >= points.len() {
        proof {
            assert(final(catalog)@.subrange(0, old(catalog)@.len() as int) =~= old(catalog)@);
        }
        return ;
    }
    let p = &points[j];
    let size16 = crate::codec::size_to_u16(p.size);
    let header_point = root && (crate::text::str_eq(p.name.as_str(), "ID")
        || crate::text::str_eq(p.name.as_str(), "L"));
    if header_point {
        *address = crate::codec::sat_add_u16(*address, size16);
        catalog_points_pass(data, cursor, points, j + 1, root, np, address, catalog);
        return ;
    }
    let size = size16 as usize;
    if size > data.len() || *cursor > data.len() - size {
        *cursor = data.len();
        *address = crate::codec::sat_add_u16(*address, size16);
        catalog_points_pass(data, cursor, points, j + 1, root, np, address, catalog);
        return ;
    }
    let ghost entry_words = data@.subrange(*cursor as int, *cursor as int + size as int);
    let mut datum: Vec<Word> = Vec::new();
    let mut di: usize = 0;
    while di < size
        invariant
            *cursor + size <= data@.len(),
            data@.len() <= usize::MAX,
            0 <= di <= size,
            datum@.len() == di,
            forall|t: int| 0 <= t < di ==> #[trigger] datum@[t] == data@[*cursor + t],
        decreases size - di,
    {
        proof {
            assert(*cursor + di < data@.len());
        }
        datum.push(data[*cursor + di]);
        di = di + 1;
    }
    proof {
        assert(datum@ =~= entry_words);
    }
    let ghost entry_addr = *address;
    let ghost pre_push = catalog@;
    *cursor = *cursor + size;
    let mut pushed: Ghost<int> = Ghost(0);
    match parse_point_data(p, &datum) {
        Ok(v) => {
            let mut pointname = np.clone();
            pointname.append(".");
            pointname.append(p.name.as_str());
            proof {
                assert(pointname@ =~= np@ + "."@ + p.name@);
            }
            let node = PointNode { value: v, address: *address, point_data: canonical_point(p, 0) };
            catalog.push((pointname, node));
            pushed = Ghost(1);
            proof {
                assert(spec_parse_ok(*p, entry_words));
                assert(spec_parse_value_rel(*p, entry_words, catalog@.last().1.value));
                assert(spec_entry_matches(
                    catalog@.last(),
                    SpecCatalogEntry {
                        path: np@ + "."@ + p.name@,
                        address: entry_addr,
                        point: *p,
                        words: entry_words,
                    },
                ));
            }
        },
        Err(_) => {
            proof {
                assert(!spec_parse_ok(*p, entry_words));
            }
        },
    }
    *address = crate::codec::sat_add_u16(*address, size16);
    let ghost mid_catalog = catalog@;
    catalog_points_pass(data, cursor, points, j + 1, root, np, address, catalog);
    proof {
        let w = spec_walk_points(
            data@,
            *old(cursor) as int,
            points@,
            j as int,
            root,
            np@,
            *old(address),
        );
        let rest = spec_walk_points(
            data@,
            *old(cursor) as int + size as int,
            points@,
            j as int + 1,
            root,
            np@,
            crate::codec::spec_sat_add_u16(*old(address), size16),
        );
        assert(mid_catalog.subrange(0, pre_push.len() as int) =~= pre_push);
        assert(catalog@.subrange(0, pre_push.len() as int) =~= pre_push);
        assert forall|k: int|
            0 <= k < w.2.len() implies spec_entry_matches(
            #[trigger] catalog@[pre_push.len() + k],
            w.2[k],
        ) by {
            if pushed@ == 1 {
                if k == 0 {
                    assert(catalog@[pre_push.len() as int] == mid_catalog[pre_push.len() as int]) by {
                        assert(catalog@.subrange(0, mid_catalog.len() as int)[pre_push.len() as int]
                            == catalog@[pre_push.len() as int]);
                    }
                } else {
                    assert(catalog@[mid_catalog.len() + (k - 1)] == catalog@[pre_push.len() + k]);
                    assert(w.2[k] == rest.2[k - 1]);
                }
            } else {
                assert(w.2[k] == rest.2[k]);
            }
        }
    }
}


proof fn lemma_prefix_index(c: Seq<(String, PointNode)>, b: Seq<(String, PointNode)>, i: int)
    requires
        b.len() <= c.len(),
        c.subrange(0, b.len() as int) == b,
        0 <= i < b.len(),
    ensures
        c[i] == b[i],
{
    assert(c.subrange(0, b.len() as int)[i] == c[i]);
}

/// Walk the instances of a group, from instance `inst` on.
fn catalog_instances_pass(
    data: &Vec<Word>,
    cursor: &mut usize,
    group: &Group,
    prefix: &Option<String>,
    address: &mut u16,
    catalog: &mut Vec<(String, PointNode)>,
    inst: i64,
    total: i64,
)
    requires
        *old(cursor) <= data@.len(),
        inst >= 0,
    ensures
        ({
            let w = spec_walk_instances(
                data@,
                *old(cursor) as int,
                *group,
                spec_opt_prefix(*prefix),
                *old(address),
                spec_catalog_int_view(old(catalog)@),
                inst as int,
                total,
            );
            &&& *final(cursor) == w.0
            &&& *final(address) == w.1
            &&& final(catalog)@.len() == old(catalog)@.len() + w.2.len()
            &&& forall|k: int|
                0 <= k < w.2.len() ==> spec_entry_matches(
                    #[trigger] final(catalog)@[old(catalog)@.len() + k],
                    w.2[k],
                )
        }),
        *old(cursor) <= *final(cursor) <= data@.len(),
        *final(address) >= *old(address),
        final(catalog)@.subrange(0, old(catalog)@.len() as int) == old(catalog)@,
    decreases *group, total - inst, 1int,
{
    if inst >= total {
        proof {
            assert(final(catalog)@.subrange(0, old(catalog)@.len() as int) =~= old(catalog)@);
        }
        return ;
    }
    let mut np = match prefix {
        Some(s) => s.clone(),
        None => String::new(),
    };
    np.append(".");
    np.append(group.name.as_str());
    if total > 1 {
        np.append("[");
        let lbl = crate::text::i64_to_dec_string(inst + 1);
        np.append(lbl.as_str());
        np.append("]");
    }
    proof {
        assert(np@ =~= spec_instance_prefix(*group, spec_opt_prefix(*prefix), inst as int, total));
    }
    let ghost cat0 = catalog@;
    let root = prefix.is_none();
    catalog_points_pass(data, cursor, &group.points, 0, root, &np, address, catalog);
    let ghost cat1 = catalog@;
    proof {
        assert(decreases_to!(*group => group.groups));
        assert(decreases_to!(group.groups => group.groups@));
    }
    catalog_groups_pass(data, cursor, &group.groups, 0, &np, address, catalog);
    let ghost cat2 = catalog@;
    catalog_instances_pass(data, cursor, group, prefix, address, catalog, inst + 1, total);
    proof {
        let pre0 = spec_catalog_int_view(cat0);
        let w = spec_walk_instances(
            data@,
            *old(cursor) as int,
            *group,
            spec_opt_prefix(*prefix),
            *old(address),
            pre0,
            inst as int,
            total,
        );
        let pts = spec_walk_points(
            data@,
            *old(cursor) as int,
            group.points@,
            0,
            spec_opt_prefix(*prefix) is None,
            np@,
            *old(address),
        );
        lemma_catalog_view_extension(cat1, cat0, pts.2);
        let grps = spec_walk_groups(
            data@,
            pts.0,
            group.groups@,
            0,
            np@,
            pts.1,
            pre0 + spec_entries_int_view(pts.2),
        );
        lemma_catalog_view_extension(cat2, cat1, grps.2);
        assert(spec_catalog_int_view(cat2) =~= pre0 + spec_entries_int_view(pts.2)
            + spec_entries_int_view(grps.2));
        let nxt = spec_walk_instances(
            data@,
            grps.0,
            *group,
            spec_opt_prefix(*prefix),
            grps.1,
            pre0 + spec_entries_int_view(pts.2) + spec_entries_int_view(grps.2),
            inst as int + 1,
            total,
        );
        assert(w.2 == pts.2 + grps.2 + nxt.2);
        assert(catalog@.subrange(0, cat0.len() as int) =~= cat0);
        assert forall|k: int|
            0 <= k < w.2.len() implies spec_entry_matches(
            #[trigger] catalog@[cat0.len() + k],
            w.2[k],
        ) by {
            if k < pts.2.len() {
                lemma_prefix_index(cat2, cat1, cat0.len() + k);
                lemma_prefix_index(catalog@, cat2, cat0.len() + k);
                assert(w.2[k] == pts.2[k]);
            } else if k < pts.2.len() + grps.2.len() {
                lemma_prefix_index(catalog@, cat2, cat0.len() + k);
                assert(cat2[cat1.len() + (k - pts.2.len())] == cat2[cat0.len() + k]);
                assert(w.2[k] == grps.2[k - pts.2.len()]);
            } else {
                assert(catalog@[cat2.len() + (k - pts.2.len() - grps.2.len())] == catalog@[
                    cat0.len() + k]);
                assert(w.2[k] == nxt.2[k - pts.2.len() - grps.2.len()]);
            }
        }
    }
}

/// Walk child groups from group `k` on, depth-first in declaration order.
fn catalog_groups_pass(
    data: &Vec<Word>,
    cursor: &mut usize,
    groups: &Vec<Group>,
    k: usize,
    np: &String,
    address: &mut u16,
    catalog: &mut Vec<(String, PointNode)>,
)
    requires
        *old(cursor) <= data@.len(),
    ensures
        ({
            let w = spec_walk_groups(
                data@,
                *old(cursor) as int,
                groups@,
                k as int,
                np@,
                *old(address),
                spec_catalog_int_view(old(catalog)@),
            );
            &&& *final(cursor) == w.0
            &&& *final(address) == w.1
            &&& final(catalog)@.len() == old(catalog)@.len() + w.2.len()
            &&& forall|t: int|
                0 <= t < w.2.len() ==> spec_entry_matches(
                    #[trigger] final(catalog)@[old(catalog)@.len() + t],
                    w.2[t],
                )
        }),
        *old(cursor) <= *final(cursor) <= data@.len(),
        *final(address) >= *old(address),
        final(catalog)@.subrange(0, old(catalog)@.len() as int) == old(catalog)@,
    decreases groups@, groups@.len() - k, 0int,
{
    if k >= groups.len() {
        proof {
            assert(final(catalog)@.subrange(0, old(catalog)@.len() as int) =~= old(catalog)@);
        }
        return ;
    }
    let ghost cat0 = catalog@;
    proof {
        assert(decreases_to!(groups@ => groups@[k as int]));
    }
    process_json_group(data, cursor, &groups[k], Some(np.clone()), address, catalog);
    let ghost cat1 = catalog@;
    catalog_groups_pass(data, cursor, groups, k + 1, np, address, catalog);
    proof {
        let pre0 = spec_catalog_int_view(cat0);
        let w = spec_walk_groups(
            data@,
            *old(cursor) as int,
            groups@,
            k as int,
            np@,
            *old(address),
            pre0,
        );
        let child = groups@[k as int];
        let total = spec_group_count(child, Some(np@), pre0);
        let cw = spec_walk_instances(
            data@,
            *old(cursor) as int,
            child,
            Some(np@),
            *old(address),
            pre0,
            0,
            total,
        );
        lemma_catalog_view_extension(cat1, cat0, cw.2);
        let rest = spec_walk_groups(
            data@,
            cw.0,
            groups@,
            k as int + 1,
            np@,
            cw.1,
            pre0 + spec_entries_int_view(cw.2),
        );
        assert(w.2 == cw.2 + rest.2);
        assert(catalog@.subrange(0, cat0.len() as int) =~= cat0);
        assert forall|t: int|
            0 <= t < w.2.len() implies spec_entry_matches(
            #[trigger] catalog@[cat0.len() + t],
            w.2[t],
        ) by {
            if t < cw.2.len() {
                lemma_prefix_index(catalog@, cat1, cat0.len() + t);
                assert(w.2[t] == cw.2[t]);
            } else {
                assert(catalog@[cat1.len() + (t - cw.2.len())] == catalog@[cat0.len() + t]);
                assert(w.2[t] == rest.2[t - cw.2.len()]);
            }
        }
    }
}

/// Walk a group subtree of a JSON-schema model in lock-step with the model's
/// raw register words, appending one catalog entry per decodable point,
/// exactly as the specification-level walk says: the group's instance count
/// is a literal or the resolved value of an already decoded sibling
/// reference (an unresolved reference expands to zero instances); each
/// instance walks the group's points, a root instance skipping the model id
/// and length header points, and then its child groups depth-first in
/// declaration order; every entry carries the dotted instance path, the
/// address cursor at its point, the point's canonical form and the value
/// its words decode to. Existing catalog entries are never touched, and the
/// address cursor only advances.
pub fn process_json_group(
    data: &Vec<Word>,
    cursor: &mut usize,
    group: &Group,
    prefix: Option<String>,
    address: &mut u16,
    catalog: &mut Vec<(String, PointNode)>,
)
    requires
        *old(cursor) <= data@.len(),
    ensures
        ({
            let pre = spec_catalog_int_view(old(catalog)@);
            let total = spec_group_count(*group, spec_opt_prefix(prefix), pre);
            let w = spec_walk_instances(
                data@,
                *old(cursor) as int,
                *group,
                spec_opt_prefix(prefix),
                *old(address),
                pre,
                0,
                total,
            );
            &&& *final(cursor) == w.0
            &&& *final(address) == w.1
            &&& final(catalog)@.len() == old(catalog)@.len() + w.2.len()
            &&& forall|k: int|
                0 <= k < w.2.len() ==> spec_entry_matches(
                    #[trigger] final(catalog)@[old(catalog)@.len() + k],
                    w.2[k],
                )
        }),
        *old(cursor) <= *final(cursor) <= data@.len(),
        *final(address) >= *old(address),
        final(catalog)@.len() >= old(catalog)@.len(),
        final(catalog)@.subrange(0, old(catalog)@.len() as int) == old(catalog)@,
    decreases *group, i64::MAX as int + 1, 0int,
{
    let entries: i64 = match &group.count {
        GroupCount::String(countval) => {
            let mut count_lookup = String::new();
            match &prefix {
                Some(s) => {
                    count_lookup.append(".");
                    let head = path_head(s.as_str());
                    count_lookup.append(head.as_str());
                    count_lookup.append(".");
                    count_lookup.append(countval.as_str());
                },
                None => {
                    count_lookup.append(".");
                    count_lookup.append(countval.as_str());
                },
            }
            proof {
                assert(count_lookup@ =~= spec_count_key(spec_opt_prefix(prefix), countval@));
                lemma_count_align(catalog@, count_lookup@);
            }
            match catalog_get(catalog, count_lookup.as_str()) {
                Some(pn) => match &pn.value {
                    ValueType::Integer(n) => *n,
                    _ => 0,
                },
                None => 0,
            }
        },
        GroupCount::Integer(i) => *i,
    };
    let run_total: i64 = if entries < 0 {
        0
    } else {
        entries
    };
    catalog_instances_pass(data, cursor, group, &prefix, address, catalog, 0, run_total);
}


/// The absolute register address of a point in the fixed block (or in a
/// model without block indexing): the protocol's two-word header offset plus
/// the model's base address plus the point's word offset. Nothing if the
/// address passes the end of the register space.
pub fn point_address(model_base: u16, point_offset: u16) -> (r: Option<u16>)
    ensures
        r matches Some(a) ==> a == ADDR_OFFSET + model_base + point_offset,
        r is None <==> ADDR_OFFSET + model_base + point_offset > u16::MAX,
{
    let total: u32 = ADDR_OFFSET as u32 + model_base as u32 + point_offset as u32;
    if total > u16::MAX as u32 {
        None
    } else {
        Some(total as u16)
    }
}

/// The absolute register address of a point inside repeating-block instance
/// `index` (counted from one): the header offset plus the model base plus
/// the fixed block's length, `index - 1` whole repeating blocks, and the
/// point's offset within its block. Nothing if the address passes the end of
/// the register space.
pub fn point_block_address(
    model_base: u16,
    point_offset: u16,
    fixed_len: u16,
    rep_len: u16,
    index: u16,
) -> (r: Option<u16>)
    requires
        index >= 1,
    ensures
        r matches Some(a) ==> a == ADDR_OFFSET + model_base + fixed_len + (index - 1) * rep_len
            + point_offset,
        r is None <==> ADDR_OFFSET + model_base + fixed_len + (index - 1) * rep_len + point_offset
            > u16::MAX,
{
    proof {
        assert((index - 1) as u64 * rep_len as u64 <= 0xffff_ffffu64) by (nonlinear_arith)
            requires
                1 <= index <= u16::MAX,
                rep_len <= u16::MAX,
        ;
    }
    let span: u64 = (index - 1) as u64 * rep_len as u64;
    let total: u64 = ADDR_OFFSET as u64 + model_base as u64 + fixed_len as u64 + span
        + point_offset as u64;
    if total > u16::MAX as u64 {
        None
    } else {
        Some(total as u16)
    }
}

/// What one discovery header pair decides: stop at the end-of-models
/// sentinel (the only normal exit), abort on a malformed chain (a model id
/// of zero) or when the next header would pass the end of the register
/// space, and otherwise record a model here and step to the next header,
/// two words past this model's declared length.
#[derive(Debug, Clone, Copy, PartialEq, Eq, Structural)]
pub enum DiscoveryStep {
    Stop,
    Malformed,
    OutOfSpace,
    Model { next_address: u16 },
}

/// Decide what a discovery header pair read at `address` means.
pub fn discovery_step(id: u16, length: u16, address: u16) -> (r: DiscoveryStep)
    ensures
        id == SUNSPEC_END_MODEL_ID ==> r is Stop,
        id != SUNSPEC_END_MODEL_ID && id == 0 ==> r is Malformed,
        id != SUNSPEC_END_MODEL_ID && id != 0 && address + length + ADDR_OFFSET > u16::MAX ==> r
            is OutOfSpace,
        id != SUNSPEC_END_MODEL_ID && id != 0 && address + length + ADDR_OFFSET <= u16::MAX ==> r
            == (DiscoveryStep::Model { next_address: (address + length + ADDR_OFFSET) as u16 }),
{
    if id == SUNSPEC_END_MODEL_ID {
        DiscoveryStep::Stop
    } else if id == 0 {
        DiscoveryStep::Malformed
    } else if length > u16::MAX - ADDR_OFFSET || address > u16::MAX - (length + ADDR_OFFSET) {
        DiscoveryStep::OutOfSpace
    } else {
        DiscoveryStep::Model { next_address: address + length + ADDR_OFFSET }
    }
}

impl<T: SunSpecConn> SunSpecConnection<T> {
    /// Walk the device's model chain: starting at the fixed base address,
    /// read `(id, length)` header pairs and apply `discovery_step` to each:
    /// the sentinel id is the only normal exit, a malformed or overflowing
    /// chain and a header that cannot be read abort discovery (without the
    /// address book nothing past it can be trusted, so no partial map is
    /// returned), and each remaining header records a model. A model whose
    /// schema cannot be resolved is skipped, and discovery continues past
    /// it. Every stored model is keyed by its own id, which is never the
    /// sentinel; carries the id, length and base address of the header pair
    /// it was recorded from; and holds the repository's schema for its id.
    pub fn populate_models(&mut self, data: &SunSpecData) -> (r: Result<
        HashMap<u16, ModelData>,
        SunSpecReadError,
    >)
        ensures
            r matches Ok(m) ==> forall|id: u16|
                m@.contains_key(id) ==> {
                    let entry = #[trigger] m@[id];
                    &&& entry.id == id
                    &&& id != SUNSPEC_END_MODEL_ID
                    &&& id != 0
                    &&& data.models@.contains_key(id)
                    &&& crate::sunspec_models::spec_models_like(entry.model, data.models@[id])
                    &&& entry.address + entry.len + ADDR_OFFSET <= u16::MAX
                    &&& entry.scale_factors@.len() == 0
                },
            final(self).catalog@.len() >= old(self).catalog@.len(),
            final(self).catalog@.subrange(0, old(self).catalog@.len() as int) == old(
                self,
            ).catalog@,
    {
        let mut address: u16 = DISCOVERY_BASE_ADDRESS;
        let mut models: HashMap<u16, ModelData> = HashMap::new();
        let manufacturer: Option<String> = match self.retry_read_holding_registers(
            DISCOVERY_BASE_ADDRESS + 2,
            16,
        ) {
            Ok(words) => match decode_point_string(&words) {
                Ok(s) => Some(s),
                Err(_) => None,
            },
            Err(_) => None,
        };
        proof {
            assert(self.catalog@.subrange(0, old(self).catalog@.len() as int) =~= old(
                self,
            ).catalog@);
        }
        loop
            invariant
                forall|id: u16|
                    models@.contains_key(id) ==> {
                        let entry = #[trigger] models@[id];
                        &&& entry.id == id
                        &&& id != SUNSPEC_END_MODEL_ID
                        &&& id != 0
                        &&& data.models@.contains_key(id)
                        &&& crate::sunspec_models::spec_models_like(entry.model, data.models@[id])
                        &&& entry.address + entry.len + ADDR_OFFSET <= u16::MAX
                        &&& entry.scale_factors@.len() == 0
                    },
                self.catalog@.len() >= old(self).catalog@.len(),
                self.catalog@.subrange(0, old(self).catalog@.len() as int) == old(self).catalog@,
            decreases u16::MAX - address,
        {
            let id = match self.get_u16_no_check(address) {
                Ok(id) => id,
                Err(e) => {
                    return Err(e);
                },
            };
            if address == u16::MAX {
                return Err(
                    SunSpecReadError::OtherError("model chain passes end of address space".to_owned()),
                );
            }
            let length = match self.get_u16(address + 1) {
                Ok(length) => length,
                Err(e) => {
                    return Err(e);
                },
            };
            let next_address = match discovery_step(id, length, address) {
                DiscoveryStep::Stop => {
                    return Ok(models);
                },
                DiscoveryStep::Malformed => {
                    return Err(
                        SunSpecReadError::OtherError("malformed model chain: id 0".to_owned()),
                    );
                },
                DiscoveryStep::OutOfSpace => {
                    return Err(
                        SunSpecReadError::OtherError(
                            "model chain passes end of address space".to_owned(),
                        ),
                    );
                },
                DiscoveryStep::Model { next_address } => next_address,
            };
            match ModelData::new(data, id, length, address, manufacturer.clone()) {
                Ok(md) => {
                    if let ModelSource::Json(json) = &md.model.source {
                        if md.address <= u16::MAX - 2 {
                            match self.get_raw(md.address + 2, md.len) {
                                Ok(raw) => {
                                    let mut cursor: usize = 0;
                                    let mut walk_addr: u16 = md.address;
                                    let ghost pre = self.catalog@;
                                    process_json_group(
                                        &raw,
                                        &mut cursor,
                                        &json.group,
                                        None,
                                        &mut walk_addr,
                                        &mut self.catalog,
                                    );
                                    proof {
                                        assert(self.catalog@.subrange(
                                            0,
                                            old(self).catalog@.len() as int,
                                        ) =~= pre.subrange(0, old(self).catalog@.len() as int));
                                    }
                                },
                                Err(_) => {},
                            }
                        }
                    }
                    models.insert(id, md);
                },
                Err(_) => {},
            }
            address = next_address;
        }
    }
}


/// The semantic verdict on a point write, reached before any transport call:
/// either the single register word to send, or the exact reason the write is
/// rejected.
#[derive(Debug, Clone, Copy, PartialEq, Eq, Structural)]
pub enum WriteCheck {
    Proceed(u16),
    RejectReadOnly,
    RejectMismatch,
    RejectOverflow,
    RejectUnimplemented32,
    RejectUnimplemented64,
    RejectUnknown,
}

/// The semantic checks a point write must pass before any transport call:
/// the point must be writeable; the value must be an integer for the numeric
/// register types, non-negative for the unsigned families, and within the
/// declared field's width (every non-negative value fits a 64-bit field);
/// and only the 16-bit unsigned family actually reaches a register, wider
/// writes being rejected as unimplemented rather than silently truncated.
pub open spec fn spec_write_check(p: Point, data: ValueType) -> WriteCheck {
    if !(p.access matches Some(a) && a is ReadWrite) {
        WriteCheck::RejectReadOnly
    } else if p.type_@ == "uint16"@ || p.type_@ == "enum16"@ || p.type_@ == "bitfield16"@ {
        match data {
            ValueType::Integer(v) => if v < 0 {
                WriteCheck::RejectMismatch
            } else if v > 0xffff {
                WriteCheck::RejectOverflow
            } else {
                WriteCheck::Proceed(v as u16)
            },
            _ => WriteCheck::RejectMismatch,
        }
    } else if p.type_@ == "uint32"@ || p.type_@ == "enum32"@ || p.type_@ == "bitfield32"@ {
        match data {
            ValueType::Integer(v) => if v < 0 {
                WriteCheck::RejectMismatch
            } else if v > 0xffff_ffff {
                WriteCheck::RejectOverflow
            } else {
                WriteCheck::RejectUnimplemented32
            },
            _ => WriteCheck::RejectMismatch,
        }
    } else if p.type_@ == "uint64"@ {
        match data {
            ValueType::Integer(v) => if v < 0 {
                WriteCheck::RejectMismatch
            } else {
                WriteCheck::RejectUnimplemented64
            },
            _ => WriteCheck::RejectMismatch,
        }
    } else {
        WriteCheck::RejectUnknown
    }
}

/// Run the semantic checks of a point write.
pub fn check_write(p: &Point, data: &ValueType) -> (c: WriteCheck)
    ensures
        c == spec_write_check(*p, *data),
{
    let writeable = match &p.access {
        Some(Access::ReadWrite) => true,
        _ => false,
    };
    if !writeable {
        return WriteCheck::RejectReadOnly;
    }
    let t = p.type_.as_str();
    if crate::text::str_eq(t, POINT_TYPE_UINT16) || crate::text::str_eq(t, POINT_TYPE_ENUM16)
        || crate::text::str_eq(t, POINT_TYPE_BITFIELD16) {
        match data {
            ValueType::Integer(v) => if *v < 0 {
                WriteCheck::RejectMismatch
            } else if *v > 0xffff {
                WriteCheck::RejectOverflow
            } else {
                WriteCheck::Proceed(*v as u16)
            },
            _ => WriteCheck::RejectMismatch,
        }
    } else if crate::text::str_eq(t, POINT_TYPE_UINT32) || crate::text::str_eq(
        t,
        POINT_TYPE_ENUM32,
    ) || crate::text::str_eq(t, POINT_TYPE_BITFIELD32) {
        match data {
            ValueType::Integer(v) => if *v < 0 {
                WriteCheck::RejectMismatch
            } else if *v > 0xffff_ffff {
                WriteCheck::RejectOverflow
            } else {
                WriteCheck::RejectUnimplemented32
            },
            _ => WriteCheck::RejectMismatch,
        }
    } else if crate::text::str_eq(t, POINT_TYPE_UINT64) {
        match data {
            ValueType::Integer(v) => if *v < 0 {
                WriteCheck::RejectMismatch
            } else {
                WriteCheck::RejectUnimplemented64
            },
            _ => WriteCheck::RejectMismatch,
        }
    } else {
        WriteCheck::RejectUnknown
    }
}

/// A negative value never reaches a register: for every point and every
/// negative integer, the semantic checks reject the write before any
/// transport call could be made.
pub proof fn lemma_negative_write_never_proceeds(p: Point, v: i64)
    requires
        v < 0,
    ensures
        !(spec_write_check(p, ValueType::Integer(v)) is Proceed),
{
}

/// A value that passes the semantic checks fits the field it is written to:
/// the register word sent is exactly the value.
pub proof fn lemma_write_word_exact(p: Point, data: ValueType)
    ensures
        spec_write_check(p, data) matches WriteCheck::Proceed(w) ==> data matches
            ValueType::Integer(v) && 0 <= v <= 0xffff && w == v,
{
}


impl<T: SunSpecConn> SunSpecConnection<T> {
    /// Write a value to a named point. The point is resolved like a read;
    /// the write is rejected, before any transport call, when the point does
    /// not exist, is not writeable, or the value does not fit its type
    /// (wrong shape, negative for an unsigned field, too large for the
    /// field's width); only the 16-bit unsigned family reaches a register,
    /// wider writes are rejected as unimplemented rather than truncated.
    pub fn set_point(&mut self, md: &ModelData, point_identifier: PointIdentifier, data: ValueType) -> (r:
        Result<(), SunSpecWriteError>)
        ensures
            point_identifier matches PointIdentifier::Catalog(c) ==> match spec_catalog_find(
                old(self).catalog@,
                c@,
            ) {
                Option::None => r == Err::<(), SunSpecWriteError>(
                    SunSpecWriteError::PointDoesntExist,
                ) && final(self).conn == old(self).conn,
                Option::Some(pn) => {
                    &&& (spec_write_check(pn.point_data, data) is RejectReadOnly ==> r == Err::<
                        (),
                        SunSpecWriteError,
                    >(SunSpecWriteError::PointIsReadOnly) && final(self).conn == old(self).conn)
                    &&& (spec_write_check(pn.point_data, data) is RejectMismatch ==> r == Err::<
                        (),
                        SunSpecWriteError,
                    >(SunSpecWriteError::ValueDoesntMatchPoint) && final(self).conn == old(
                        self,
                    ).conn)
                    &&& (spec_write_check(pn.point_data, data) is RejectOverflow ==> r == Err::<
                        (),
                        SunSpecWriteError,
                    >(SunSpecWriteError::ValueWouldOverflow) && final(self).conn == old(self).conn)
                    &&& ((spec_write_check(pn.point_data, data) is RejectUnimplemented32
                        || spec_write_check(pn.point_data, data) is RejectUnimplemented64) ==> (
                    r matches Err(e) && e is General) && final(self).conn == old(self).conn)
                    &&& (spec_write_check(pn.point_data, data) is RejectUnknown ==> r == Err::<
                        (),
                        SunSpecWriteError,
                    >(SunSpecWriteError::Default) && final(self).conn == old(self).conn)
                    &&& (spec_write_check(pn.point_data, data) is Proceed ==> (r is Ok || (
                    r matches Err(e) && e is CommError)))
                },
            },
            point_identifier matches PointIdentifier::Point(n) ==> match spec_find_point(
                md.model.model,
                n@,
            ) {
                Option::None => r == Err::<(), SunSpecWriteError>(
                    SunSpecWriteError::PointDoesntExist,
                ) && final(self).conn == old(self).conn,
                Option::Some(pos) => {
                    let p = md.model.model.block@[pos.0].point@[pos.1];
                    &&& (spec_write_check(p, data) is RejectReadOnly ==> r == Err::<
                        (),
                        SunSpecWriteError,
                    >(SunSpecWriteError::PointIsReadOnly) && final(self).conn == old(self).conn)
                    &&& (spec_write_check(p, data) is RejectMismatch ==> r == Err::<
                        (),
                        SunSpecWriteError,
                    >(SunSpecWriteError::ValueDoesntMatchPoint) && final(self).conn == old(
                        self,
                    ).conn)
                    &&& (spec_write_check(p, data) is RejectOverflow ==> r == Err::<
                        (),
                        SunSpecWriteError,
                    >(SunSpecWriteError::ValueWouldOverflow) && final(self).conn == old(self).conn)
                    &&& ((spec_write_check(p, data) is RejectUnimplemented32 || spec_write_check(
                        p,
                        data,
                    ) is RejectUnimplemented64) ==> (r matches Err(e) && e is General)
                        && final(self).conn == old(self).conn)
                    &&& (spec_write_check(p, data) is RejectUnknown ==> r == Err::<
                        (),
                        SunSpecWriteError,
                    >(SunSpecWriteError::Default) && final(self).conn == old(self).conn)
                    &&& ((spec_write_check(p, data) is Proceed && ADDR_OFFSET + md.address
                        + p.offset <= u16::MAX) ==> (r is Ok || (r matches Err(e)
                        && e is CommError)))
                },
            },
    {
        let point: Point;
        let write_addr: u16;
        match &point_identifier {
            PointIdentifier::Catalog(catalog_name) => {
                let resolved = match catalog_get(&self.catalog, catalog_name.as_str()) {
                    Some(pn) => (pn.point_data.clone(), pn.address),
                    None => {
                        return Err(SunSpecWriteError::PointDoesntExist);
                    },
                };
                point = resolved.0;
                write_addr = resolved.1;
                proof {
                    let entry = spec_catalog_find(self.catalog@, point_identifier->Catalog_0@)->0;
                    assert(point.type_@ == entry.point_data.type_@);
                    assert(point.access == entry.point_data.access);
                    assert(spec_write_check(point, data) == spec_write_check(
                        entry.point_data,
                        data,
                    ));
                }
            },
            PointIdentifier::Point(point_name) => {
                let pos = match crate::sunspec_models::find_point(
                    &md.model.model,
                    point_name.as_str(),
                ) {
                    Some(p) => p,
                    None => {
                        return Err(SunSpecWriteError::PointDoesntExist);
                    },
                };
                point = md.model.model.block[pos.0].point[pos.1].clone();
                proof {
                    let schema_point = md.model.model.block@[pos.0 as int].point@[pos.1 as int];
                    assert(point.type_@ == schema_point.type_@);
                    assert(point.access == schema_point.access);
                    assert(spec_write_check(point, data) == spec_write_check(schema_point, data));
                }
                write_addr = match point_address(md.address, point.offset) {
                    Some(a) => a,
                    None => {
                        match check_write(&point, &data) {
                            WriteCheck::Proceed(_) => {
                                return Err(
                                    SunSpecWriteError::General(
                                        "point address passes end of register space".to_owned(),
                                    ),
                                );
                            },
                            WriteCheck::RejectReadOnly => {
                                return Err(SunSpecWriteError::PointIsReadOnly);
                            },
                            WriteCheck::RejectMismatch => {
                                return Err(SunSpecWriteError::ValueDoesntMatchPoint);
                            },
                            WriteCheck::RejectOverflow => {
                                return Err(SunSpecWriteError::ValueWouldOverflow);
                            },
                            WriteCheck::RejectUnimplemented32 => {
                                return Err(
                                    SunSpecWriteError::General("writing 32-bit points is not implemented".to_owned()),
                                );
                            },
                            WriteCheck::RejectUnimplemented64 => {
                                return Err(
                                    SunSpecWriteError::General("writing 64-bit points is not implemented".to_owned()),
                                );
                            },
                            WriteCheck::RejectUnknown => {
                                return Err(SunSpecWriteError::Default);
                            },
                        }
                    },
                };
            },
        }
        match check_write(&point, &data) {
            WriteCheck::Proceed(word) => {
                match self.set_u16(write_addr, word) {
                    Ok(()) => Ok(()),
                    Err(e) => Err(e),
                }
            },
            WriteCheck::RejectReadOnly => Err(SunSpecWriteError::PointIsReadOnly),
            WriteCheck::RejectMismatch => Err(SunSpecWriteError::ValueDoesntMatchPoint),
            WriteCheck::RejectOverflow => Err(SunSpecWriteError::ValueWouldOverflow),
            WriteCheck::RejectUnimplemented32 => Err(
                SunSpecWriteError::General("writing 32-bit points is not implemented".to_owned()),
            ),
            WriteCheck::RejectUnimplemented64 => Err(
                SunSpecWriteError::General("writing 64-bit points is not implemented".to_owned()),
            ),
            WriteCheck::RejectUnknown => Err(SunSpecWriteError::Default),
        }
    }
}



/// Whether the tag names a register type the point codec decodes.
pub open spec fn spec_known_point_tag(tag: Seq<char>) -> bool {
    ||| tag == "string"@
    ||| tag == "int16"@
    ||| tag == "uint16"@
    ||| tag == "acc16"@
    ||| tag == "enum16"@
    ||| tag == "bitfield16"@
    ||| tag == "sunssf"@
    ||| tag == "uint32"@
    ||| tag == "acc32"@
    ||| tag == "uint64"@
    ||| tag == "acc64"@
    ||| tag == "int32"@
    ||| tag == "enum32"@
    ||| tag == "bitfield32"@
    ||| tag == "pad"@
}

/// The scale factor a read of the point is bound to use: the one already
/// memoized under the point's reference, if any.
pub open spec fn spec_cached_sf_for(sp: Point, md: ModelData) -> Option<i16> {
    match sp.scale_factor {
        Option::Some(name) => crate::model_data::spec_cached_sf(md.scale_factors@, name@),
        Option::None => None,
    }
}

/// The value a scalable numeric point may carry: the raw reading in range
/// with the sentinel excluded (and nonzero for an accumulator), scaled into
/// the exact pair exactly when a declared scale-factor reference resolved —
/// and bound to the memoized exponent whenever one is already cached.
pub open spec fn spec_scaled_or_int(
    sp: Point,
    cached_sf: Option<i16>,
    v: ValueType,
    lo: int,
    hi: int,
    exclude_zero: bool,
) -> bool {
    let int_ok = v matches ValueType::Integer(i) && lo <= i <= hi && (exclude_zero ==> i != 0);
    let scaled_ok = sp.scale_factor is Some && (v matches ValueType::Scaled(sv) && lo <= sv.raw
        <= hi && (exclude_zero ==> sv.raw != 0) && (cached_sf matches Some(sf0) ==> sv.sf == sf0));
    if sp.scale_factor is Some && cached_sf is Some {
        scaled_ok
    } else {
        int_ok || scaled_ok
    }
}

/// What value a successful read of a point may carry, whatever words the
/// transport returned: per type tag, the form of the value, its numeric
/// range with the reserved "not implemented" sentinel excluded, the
/// accumulator-zero rejection, the strict and lenient symbol rules (a
/// strict decode never synthesizes a label; a lenient one synthesizes
/// `ENUM16_<code>` and kin exactly when no symbol matches), and the rule
/// that a `sunssf` point is a plain integer, never scaled.
pub open spec fn spec_point_value_form(
    sp: Point,
    strict: bool,
    cached_sf: Option<i16>,
    v: ValueType,
) -> bool {
    let tag = sp.type_@;
    if tag == "string"@ {
        v is String
    } else if tag == "sunssf"@ {
        v matches ValueType::Integer(i) && -0x8000 <= i <= 0x7fff
    } else if tag == "int16"@ {
        spec_scaled_or_int(sp, cached_sf, v, -0x7fff, 0x7fff, false)
    } else if tag == "uint16"@ || tag == "acc16"@ {
        spec_scaled_or_int(sp, cached_sf, v, 0, 0xfffe, tag == "acc16"@)
    } else if tag == "int32"@ {
        spec_scaled_or_int(sp, cached_sf, v, -0x7fff_ffff, 0x7fff_ffff, false)
    } else if tag == "uint32"@ || tag == "acc32"@ {
        spec_scaled_or_int(sp, cached_sf, v, 0, 0xffff_fffe, tag == "acc32"@)
    } else if tag == "uint64"@ || tag == "acc64"@ {
        let excl0 = tag == "acc64"@;
        let int_ok = v matches ValueType::Integer(i) && i != -1 && (excl0 ==> i != 0);
        let scaled_ok = sp.scale_factor is Some && (v matches ValueType::Scaled(sv) && 0 <= sv.raw
            && (excl0 ==> sv.raw != 0) && (cached_sf matches Some(sf0) ==> sv.sf == sf0));
        if sp.scale_factor is Some && cached_sf is Some {
            scaled_ok
        } else {
            int_ok || scaled_ok
        }
    } else if tag == "enum16"@ {
        sp.symbol is Some && (v matches ValueType::String(l) && ((exists|raw: int|
            0 <= raw <= u32::MAX && #[trigger] spec_enum_match(sp.symbol->0@, raw) == Some(l@))
            || (!strict && exists|raw: nat|
            raw <= u32::MAX && spec_enum_match(sp.symbol->0@, raw as int) is None && l@
                == "ENUM16_"@ + #[trigger] crate::text::spec_dec_chars(raw))))
    } else if tag == "enum32"@ {
        sp.symbol is Some && (v matches ValueType::String(l) && ((exists|raw: int|
            0 <= raw <= u32::MAX && #[trigger] spec_enum_match(sp.symbol->0@, raw) == Some(l@))
            || (!strict && exists|raw: nat|
            raw <= u32::MAX && spec_enum_match(sp.symbol->0@, raw as int) is None && l@
                == "ENUM32_"@ + #[trigger] crate::text::spec_dec_chars(raw))))
    } else if tag == "bitfield16"@ {
        if sp.symbol is Some {
            v matches ValueType::Array(labels) && exists|raw: u32|
                labels@.map_values(|l: String| l@) == #[trigger] spec_bitfield_labels(
                    sp.symbol->0@,
                    raw,
                    16,
                )
        } else {
            !strict && (v matches ValueType::String(l) && exists|raw: nat|
                raw <= u32::MAX && l@ == "BITFIELD16_"@
                    + #[trigger] crate::text::spec_dec_chars(raw))
        }
    } else if tag == "bitfield32"@ {
        if sp.symbol is Some {
            v matches ValueType::Array(labels) && exists|raw: u32|
                labels@.map_values(|l: String| l@) == #[trigger] spec_bitfield_labels(
                    sp.symbol->0@,
                    raw,
                    32,
                )
        } else {
            !strict && (v matches ValueType::String(l) && exists|raw: nat|
                raw <= u32::MAX && l@ == "BITFIELD32_"@
                    + #[trigger] crate::text::spec_dec_chars(raw))
        }
    } else if tag == "pad"@ {
        v is Pad
    } else {
        false
    }
}

impl<T: SunSpecConn> SunSpecConnection<T> {
    /// Read a named point: resolve it against the model's blocks (a bare
    /// name) or the discovery-time catalog (a dotted path), read and decode
    /// its registers by its declared type, and hand back the point with its
    /// value populated.
    pub fn get_point(&mut self, md: &mut ModelData, point_identifier: PointIdentifier) -> (r:
        Result<Point, SunSpecPointError>)
        ensures
            spec_session_frame(*old(self), *final(self)),
            final(md).model == old(md).model,
            final(md).id == old(md).id,
            final(md).len == old(md).len,
            final(md).address == old(md).address,
            point_identifier matches PointIdentifier::Point(n) && spec_find_point(
                old(md).model.model,
                n@,
            ) is None ==> (r matches Err(e) && e is DoesNotExist) && final(self).conn == old(
                self,
            ).conn,
            point_identifier matches PointIdentifier::Catalog(c) && spec_catalog_find(
                old(self).catalog@,
                c@,
            ) is None ==> (r matches Err(e) && e is DoesNotExist) && final(self).conn == old(
                self,
            ).conn,
            r matches Ok(p) ==> p.value is Some,
            point_identifier matches PointIdentifier::Point(n) ==> (r matches Ok(p) ==> p.id@
                == n@),
            point_identifier matches PointIdentifier::Point(n) ==> match spec_find_point(
                old(md).model.model,
                n@,
            ) {
                Option::Some(pos) => {
                    let sp = old(md).model.model.block@[pos.0].point@[pos.1];
                    (sp.type_@ == "pad"@ && ADDR_OFFSET + old(md).address + sp.offset <= u16::MAX)
                        ==> (r matches Ok(p) && p.value == Some(ValueType::Pad))
                },
                Option::None => true,
            },
            point_identifier matches PointIdentifier::Point(n) ==> match spec_find_point(
                old(md).model.model,
                n@,
            ) {
                Option::Some(pos) => ({
                    let sp = old(md).model.model.block@[pos.0].point@[pos.1];
                    &&& (r matches Ok(p) ==> (p.value matches Some(v) && spec_point_value_form(
                        sp,
                        old(self).strict_symbol,
                        spec_cached_sf_for(sp, *old(md)),
                        v,
                    )))
                    &&& (!spec_known_point_tag(sp.type_@) ==> r is Err && final(self).conn
                        == old(self).conn)
                    &&& ((sp.type_@ == "enum16"@ || sp.type_@ == "enum32"@) && sp.symbol is None
                        ==> r is Err)
                    &&& (sp.type_@ == "string"@ && sp.len is None ==> r is Err && final(self).conn
                        == old(self).conn)
                    &&& ((sp.type_@ == "bitfield16"@ || sp.type_@ == "bitfield32"@)
                        && sp.symbol is None && old(self).strict_symbol ==> r is Err)
                }),
                Option::None => true,
            },
            point_identifier matches PointIdentifier::Catalog(c) ==> match spec_catalog_find(
                old(self).catalog@,
                c@,
            ) {
                Option::Some(pn) => ({
                    let sp = pn.point_data;
                    &&& (r matches Ok(p) ==> (p.value matches Some(v) && spec_point_value_form(
                        sp,
                        old(self).strict_symbol,
                        spec_cached_sf_for(sp, *old(md)),
                        v,
                    )))
                    &&& (!spec_known_point_tag(sp.type_@) ==> r is Err && final(self).conn
                        == old(self).conn)
                    &&& ((sp.type_@ == "enum16"@ || sp.type_@ == "enum32"@) && sp.symbol is None
                        ==> r is Err)
                    &&& (sp.type_@ == "string"@ && sp.len is None ==> r is Err && final(self).conn
                        == old(self).conn)
                    &&& ((sp.type_@ == "bitfield16"@ || sp.type_@ == "bitfield32"@)
                        && sp.symbol is None && old(self).strict_symbol ==> r is Err)
                }),
                Option::None => true,
            },
    {
        self.get_point_in_block(md, point_identifier, None)
    }

    /// Read a named point, optionally inside repeating-block instance
    /// `block_index` (counted from one): the point's address then starts
    /// past the fixed block and `block_index - 1` whole repeating blocks.
    /// Requesting an instance when the model has no repeating block, or
    /// instance zero, which the fixed block occupies, is an error.
    pub fn get_point_in_block(
        &mut self,
        md: &mut ModelData,
        point_identifier: PointIdentifier,
        block_index: Option<u16>,
    ) -> (r: Result<Point, SunSpecPointError>)
        ensures
            spec_session_frame(*old(self), *final(self)),
            final(md).model == old(md).model,
            final(md).id == old(md).id,
            final(md).len == old(md).len,
            final(md).address == old(md).address,
            point_identifier matches PointIdentifier::Point(n) && spec_find_point(
                old(md).model.model,
                n@,
            ) is None ==> (r matches Err(e) && e is DoesNotExist) && final(self).conn == old(
                self,
            ).conn,
            point_identifier matches PointIdentifier::Catalog(c) && spec_catalog_find(
                old(self).catalog@,
                c@,
            ) is None ==> (r matches Err(e) && e is DoesNotExist) && final(self).conn == old(
                self,
            ).conn,
            r matches Ok(p) ==> p.value is Some,
            point_identifier matches PointIdentifier::Point(n) ==> (r matches Ok(p) ==> p.id@
                == n@),
            block_index is None ==> (point_identifier matches PointIdentifier::Point(n)
                ==> match spec_find_point(
                old(md).model.model,
                n@,
            ) {
                Option::Some(pos) => {
                    let sp = old(md).model.model.block@[pos.0].point@[pos.1];
                    (sp.type_@ == "pad"@ && ADDR_OFFSET + old(md).address + sp.offset <= u16::MAX)
                        ==> (r matches Ok(p) && p.value == Some(ValueType::Pad))
                },
                Option::None => true,
            }),
            point_identifier matches PointIdentifier::Point(n) ==> match spec_find_point(
                old(md).model.model,
                n@,
            ) {
                Option::Some(pos) => ({
                    let sp = old(md).model.model.block@[pos.0].point@[pos.1];
                    &&& (r matches Ok(p) ==> (p.value matches Some(v) && spec_point_value_form(
                        sp,
                        old(self).strict_symbol,
                        spec_cached_sf_for(sp, *old(md)),
                        v,
                    )))
                    &&& (!spec_known_point_tag(sp.type_@) ==> r is Err && final(self).conn
                        == old(self).conn)
                    &&& ((sp.type_@ == "enum16"@ || sp.type_@ == "enum32"@) && sp.symbol is None
                        ==> r is Err)
                    &&& (sp.type_@ == "string"@ && sp.len is None ==> r is Err && final(self).conn
                        == old(self).conn)
                    &&& ((sp.type_@ == "bitfield16"@ || sp.type_@ == "bitfield32"@)
                        && sp.symbol is None && old(self).strict_symbol ==> r is Err)
                }),
                Option::None => true,
            },
            point_identifier matches PointIdentifier::Catalog(c) ==> match spec_catalog_find(
                old(self).catalog@,
                c@,
            ) {
                Option::Some(pn) => ({
                    let sp = pn.point_data;
                    &&& (r matches Ok(p) ==> (p.value matches Some(v) && spec_point_value_form(
                        sp,
                        old(self).strict_symbol,
                        spec_cached_sf_for(sp, *old(md)),
                        v,
                    )))
                    &&& (!spec_known_point_tag(sp.type_@) ==> r is Err && final(self).conn
                        == old(self).conn)
                    &&& ((sp.type_@ == "enum16"@ || sp.type_@ == "enum32"@) && sp.symbol is None
                        ==> r is Err)
                    &&& (sp.type_@ == "string"@ && sp.len is None ==> r is Err && final(self).conn
                        == old(self).conn)
                    &&& ((sp.type_@ == "bitfield16"@ || sp.type_@ == "bitfield32"@)
                        && sp.symbol is None && old(self).strict_symbol ==> r is Err)
                }),
                Option::None => true,
            },
    {
        proof {
            reveal_strlit("string");
            reveal_strlit("int16");
            reveal_strlit("uint16");
            reveal_strlit("acc16");
            reveal_strlit("enum16");
            reveal_strlit("bitfield16");
            reveal_strlit("int32");
            reveal_strlit("uint32");
            reveal_strlit("acc32");
            reveal_strlit("uint64");
            reveal_strlit("acc64");
            reveal_strlit("enum32");
            reveal_strlit("bitfield32");
            reveal_strlit("sunssf");
            reveal_strlit("pad");
            assert("string"@.len() == 6 && "int16"@.len() == 5 && "uint16"@.len() == 6
                && "acc16"@.len() == 5 && "enum16"@.len() == 6 && "bitfield16"@.len() == 10
                && "int32"@.len() == 5 && "uint32"@.len() == 6 && "acc32"@.len() == 5
                && "uint64"@.len() == 6 && "acc64"@.len() == 5 && "enum32"@.len() == 6
                && "bitfield32"@.len() == 10 && "sunssf"@.len() == 6 && "pad"@.len() == 3);
            assert("string"@[0] == 's' && "uint16"@[0] == 'u' && "enum16"@[0] == 'e'
                && "sunssf"@[0] == 's' && "uint32"@[0] == 'u' && "enum32"@[0] == 'e'
                && "uint64"@[0] == 'u' && "string"@[1] == 't' && "sunssf"@[1] == 'u');
            assert("uint16"@[4] == '1' && "uint32"@[4] == '3' && "uint64"@[4] == '6'
                && "enum16"@[4] == '1' && "enum32"@[4] == '3');
            assert("int16"@[0] == 'i' && "acc16"@[0] == 'a' && "int32"@[0] == 'i'
                && "acc32"@[0] == 'a' && "acc64"@[0] == 'a' && "int16"@[3] == '1'
                && "int32"@[3] == '3' && "acc16"@[3] == '1' && "acc32"@[3] == '3'
                && "acc64"@[3] == '6');
            assert("bitfield16"@[8] == '1' && "bitfield32"@[8] == '3');
            assert("string"@ != "uint16"@ && "string"@ != "enum16"@ && "string"@ != "sunssf"@
                && "string"@ != "uint32"@ && "string"@ != "enum32"@ && "string"@ != "uint64"@);
            assert("uint16"@ != "enum16"@ && "uint16"@ != "sunssf"@ && "uint16"@ != "uint32"@
                && "uint16"@ != "enum32"@ && "uint16"@ != "uint64"@);
            assert("enum16"@ != "sunssf"@ && "enum16"@ != "uint32"@ && "enum16"@ != "enum32"@
                && "enum16"@ != "uint64"@);
            assert("sunssf"@ != "uint32"@ && "sunssf"@ != "enum32"@ && "sunssf"@ != "uint64"@);
            assert("uint32"@ != "enum32"@ && "uint32"@ != "uint64"@ && "enum32"@ != "uint64"@);
            assert("int16"@ != "acc16"@ && "int16"@ != "int32"@ && "int16"@ != "acc32"@
                && "int16"@ != "acc64"@ && "acc16"@ != "int32"@ && "acc16"@ != "acc32"@
                && "acc16"@ != "acc64"@ && "int32"@ != "acc32"@ && "int32"@ != "acc64"@
                && "acc32"@ != "acc64"@);
            assert("bitfield16"@ != "bitfield32"@);
        }
        let mut point: Point;
        let read_addr: u16;
        let ghost mut sp: Point = arbitrary();
        match &point_identifier {
            PointIdentifier::Catalog(catalog_name) => {
                let resolved = match catalog_get(&self.catalog, catalog_name.as_str()) {
                    Some(pn) => (pn.point_data.clone(), pn.address),
                    None => {
                        return Err(
                            SunSpecPointError::DoesNotExist(
                                "the requested catalog path does not exist".to_owned(),
                            ),
                        );
                    },
                };
                point = resolved.0;
                read_addr = resolved.1;
                proof {
                    sp = spec_catalog_find(
                        old(self).catalog@,
                        point_identifier->Catalog_0@,
                    )->0.point_data;
                    assert(crate::sunspec_models::spec_point_schema_like(point, sp));
                }
            },
            PointIdentifier::Point(point_name) => {
                let pos = match crate::sunspec_models::find_point(
                    &md.model.model,
                    point_name.as_str(),
                ) {
                    Some(p) => p,
                    None => {
                        return Err(
                            SunSpecPointError::DoesNotExist(
                                "the requested point does not exist in the model".to_owned(),
                            ),
                        );
                    },
                };
                point = md.model.model.block[pos.0].point[pos.1].clone();
                proof {
                    sp = old(md).model.model.block@[pos.0 as int].point@[pos.1 as int];
                }
                let mut si: usize = 0;
                while si < md.model.strings.len()
                    invariant
                        crate::sunspec_models::spec_point_schema_like(
                            point,
                            old(md).model.model.block@[pos.0 as int].point@[pos.1 as int],
                        ),
                    decreases md.model.strings@.len() - si,
                {
                    let lits = &md.model.strings[si].literals;
                    let mut li: usize = 0;
                    while li < lits.len()
                        invariant
                            crate::sunspec_models::spec_point_schema_like(
                                point,
                                old(md).model.model.block@[pos.0 as int].point@[pos.1 as int],
                            ),
                        decreases lits@.len() - li,
                    {
                        if let LiteralType::Point(pl) = &lits[li] {
                            if crate::text::str_eq(pl.id.as_str(), point_name.as_str()) {
                                point.literal = Some(pl.clone());
                            }
                        }
                        li = li + 1;
                    }
                    si = si + 1;
                }
                let addr_opt: Option<u16> = match block_index {
                    None => point_address(md.address, point.offset),
                    Some(idx) => {
                        let model = &md.model.model;
                        if model.block.len() == 0 {
                            return Err(
                                SunSpecPointError::GeneralError("the model has no blocks".to_owned()),
                            );
                        }
                        if idx == 0 {
                            return Err(
                                SunSpecPointError::GeneralError(
                                    "block index zero addresses the fixed block".to_owned(),
                                ),
                            );
                        }
                        let repeating_first = match &model.block[0].type_ {
                            Some(t) => crate::text::str_eq(t.as_str(), "repeating"),
                            None => false,
                        };
                        let fixed: u16;
                        let rep: u16;
                        if repeating_first {
                            fixed = 0;
                            rep = model.block[0].len;
                        } else if model.block.len() > 1 {
                            fixed = model.block[0].len;
                            rep = model.block[1].len;
                        } else {
                            return Err(
                                SunSpecPointError::GeneralError(
                                    "the model has no repeating block".to_owned(),
                                ),
                            );
                        }
                        point_block_address(md.address, point.offset, fixed, rep, idx)
                    },
                };
                read_addr = match addr_opt {
                    Some(a) => a,
                    None => {
                        return Err(
                            SunSpecPointError::GeneralError(
                                "the point's address passes the end of the register space".to_owned(),
                            ),
                        );
                    },
                };
            },
        }
        if crate::text::str_eq(point.type_.as_str(), POINT_TYPE_STRING) {
            let len = match point.len {
                Some(l) => l,
                None => {
                    return Err(
                        SunSpecPointError::GeneralError("a string point must declare a length".to_owned()),
                    );
                },
            };
            let words = match self.retry_read_holding_registers(read_addr, len) {
                Ok(w) => w,
                Err(e) => {
                    return Err(SunSpecPointError::CommError(comm_error_text(&e)));
                },
            };
            match decode_point_string(&words) {
                Ok(s) => {
                    point.value = Some(ValueType::String(s));
                    Ok(point)
                },
                Err(e) => Err(read_error_to_point_error(e)),
            }
        } else if crate::text::str_eq(point.type_.as_str(), POINT_TYPE_INT16) {
            let v = match self.get_i16(read_addr) {
                Ok(v) => v,
                Err(e) => {
                    return Err(read_error_to_point_error(e));
                },
            };
            if let Some(sf_name) = &point.scale_factor {
                let sf_name = sf_name.clone();
                if let Some(sf) = md.get_scale_factor(sf_name.as_str(), self) {
                    point.value = Some(apply_scale_factor(v as i64, sf));
                    return Ok(point);
                }
            }
            point.value = Some(ValueType::Integer(v as i64));
            Ok(point)
        } else if crate::text::str_eq(point.type_.as_str(), POINT_TYPE_UINT16) || crate::text::str_eq(
            point.type_.as_str(),
            POINT_TYPE_ACC16,
        ) {
            let v = match self.get_u16(read_addr) {
                Ok(v) => v,
                Err(e) => {
                    return Err(read_error_to_point_error(e));
                },
            };
            if crate::text::str_eq(point.type_.as_str(), POINT_TYPE_ACC16) && v
                == NOT_ACCUMULATED_16 {
                return Err(
                    SunSpecPointError::GeneralError(
                        "accumulator datapoint not supported by device".to_owned(),
                    ),
                );
            }
            if let Some(sf_name) = &point.scale_factor {
                let sf_name = sf_name.clone();
                if let Some(sf) = md.get_scale_factor(sf_name.as_str(), self) {
                    point.value = Some(apply_scale_factor(v as i64, sf));
                    return Ok(point);
                }
            }
            point.value = Some(ValueType::Integer(v as i64));
            Ok(point)
        } else if crate::text::str_eq(point.type_.as_str(), POINT_TYPE_ENUM16) {
            let v = match self.get_u16(read_addr) {
                Ok(v) => v,
                Err(e) => {
                    return Err(read_error_to_point_error(e));
                },
            };
            match &point.symbol {
                Some(symbols) => {
                    match match_enum_symbol(symbols, v as u32) {
                        Some(label) => {
                            proof {
                                assert(spec_enum_match(sp.symbol->0@, (v as u32) as int) == Some(
                                    label@,
                                ));
                            }
                            point.value = Some(ValueType::String(label));
                            Ok(point)
                        },
                        None => {
                            if self.strict_symbol {
                                Err(
                                    SunSpecPointError::GeneralError(
                                        "no symbol exists for the enumeration's numeric value".to_owned(),
                                    ),
                                )
                            } else {
                                let mut label = String::new();
                                label.append("ENUM16_");
                                let digits = crate::text::u64_to_dec_string(v as u64);
                                label.append(digits.as_str());
                                proof {
                                    assert(label@ =~= "ENUM16_"@ + crate::text::spec_dec_chars(
                                        v as nat,
                                    ));
                                    assert(spec_enum_match(sp.symbol->0@, v as nat as int)
                                        is None);
                                }
                                point.value = Some(ValueType::String(label));
                                Ok(point)
                            }
                        },
                    }
                },
                None => Err(
                    SunSpecPointError::GeneralError(
                        "an enumeration needs a symbol table to decode".to_owned(),
                    ),
                ),
            }
        } else if crate::text::str_eq(point.type_.as_str(), POINT_TYPE_BITFIELD16) {
            let v = match self.get_u16(read_addr) {
                Ok(v) => v,
                Err(e) => {
                    return Err(read_error_to_point_error(e));
                },
            };
            match &point.symbol {
                Some(symbols) => {
                    let labels = decode_bitfield(symbols, v as u32, 16);
                    proof {
                        assert(labels@.map_values(|l: String| l@) == spec_bitfield_labels(
                            sp.symbol->0@,
                            v as u32,
                            16,
                        ));
                    }
                    point.value = Some(ValueType::Array(labels));
                    Ok(point)
                },
                None => {
                    if self.strict_symbol {
                        Err(
                            SunSpecPointError::GeneralError(
                                "a bitfield needs a symbol table to decode".to_owned(),
                            ),
                        )
                    } else {
                        let mut label = String::new();
                        label.append("BITFIELD16_");
                        let digits = crate::text::u64_to_dec_string(v as u64);
                        label.append(digits.as_str());
                        proof {
                            assert(label@ =~= "BITFIELD16_"@ + crate::text::spec_dec_chars(
                                v as nat,
                            ));
                        }
                        point.value = Some(ValueType::String(label));
                        Ok(point)
                    }
                },
            }
        } else if crate::text::str_eq(point.type_.as_str(), POINT_TYPE_SUNSSF) {
            let v = match self.get_i16(read_addr) {
                Ok(v) => v,
                Err(e) => {
                    return Err(read_error_to_point_error(e));
                },
            };
            point.value = Some(ValueType::Integer(v as i64));
            Ok(point)
        } else if crate::text::str_eq(point.type_.as_str(), POINT_TYPE_UINT32) || crate::text::str_eq(
            point.type_.as_str(),
            POINT_TYPE_ACC32,
        ) {
            let v = match self.get_u32(read_addr) {
                Ok(v) => v,
                Err(e) => {
                    return Err(read_error_to_point_error(e));
                },
            };
            if crate::text::str_eq(point.type_.as_str(), POINT_TYPE_ACC32) && v
                == NOT_ACCUMULATED_32 {
                return Err(
                    SunSpecPointError::GeneralError(
                        "accumulator datapoint not supported by device".to_owned(),
                    ),
                );
            }
            if let Some(sf_name) = &point.scale_factor {
                let sf_name = sf_name.clone();
                if let Some(sf) = md.get_scale_factor(sf_name.as_str(), self) {
                    point.value = Some(apply_scale_factor(v as i64, sf));
                    return Ok(point);
                }
            }
            point.value = Some(ValueType::Integer(v as i64));
            Ok(point)
        } else if crate::text::str_eq(point.type_.as_str(), POINT_TYPE_UINT64) || crate::text::str_eq(
            point.type_.as_str(),
            POINT_TYPE_ACC64,
        ) {
            let v = match self.get_u64(read_addr) {
                Ok(v) => v,
                Err(e) => {
                    return Err(read_error_to_point_error(e));
                },
            };
            if crate::text::str_eq(point.type_.as_str(), POINT_TYPE_ACC64) && v
                == NOT_ACCUMULATED_64 {
                return Err(
                    SunSpecPointError::GeneralError(
                        "accumulator datapoint not supported by device".to_owned(),
                    ),
                );
            }
            if let Some(sf_name) = &point.scale_factor {
                let sf_name = sf_name.clone();
                if let Some(sf) = md.get_scale_factor(sf_name.as_str(), self) {
                    if v > i64::MAX as u64 {
                        return Err(
                            SunSpecPointError::GeneralError(
                                "reading exceeds the scalable range".to_owned(),
                            ),
                        );
                    }
                    point.value = Some(apply_scale_factor(v as i64, sf));
                    return Ok(point);
                }
            }
            point.value = Some(ValueType::Integer(crate::codec::i64_from_u64(v)));
            Ok(point)
        } else if crate::text::str_eq(point.type_.as_str(), POINT_TYPE_INT32) {
            let v = match self.get_i32(read_addr) {
                Ok(v) => v,
                Err(e) => {
                    return Err(read_error_to_point_error(e));
                },
            };
            if let Some(sf_name) = &point.scale_factor {
                let sf_name = sf_name.clone();
                if let Some(sf) = md.get_scale_factor(sf_name.as_str(), self) {
                    point.value = Some(apply_scale_factor(v as i64, sf));
                    return Ok(point);
                }
            }
            point.value = Some(ValueType::Integer(v as i64));
            Ok(point)
        } else if crate::text::str_eq(point.type_.as_str(), POINT_TYPE_ENUM32) {
            let v = match self.get_u32(read_addr) {
                Ok(v) => v,
                Err(e) => {
                    return Err(read_error_to_point_error(e));
                },
            };
            match &point.symbol {
                Some(symbols) => {
                    match match_enum_symbol(symbols, v) {
                        Some(label) => {
                            proof {
                                assert(spec_enum_match(sp.symbol->0@, v as int) == Some(label@));
                            }
                            point.value = Some(ValueType::String(label));
                            Ok(point)
                        },
                        None => {
                            if self.strict_symbol {
                                Err(
                                    SunSpecPointError::GeneralError(
                                        "no symbol exists for the enumeration's numeric value".to_owned(),
                                    ),
                                )
                            } else {
                                let mut label = String::new();
                                label.append("ENUM32_");
                                let digits = crate::text::u64_to_dec_string(v as u64);
                                label.append(digits.as_str());
                                proof {
                                    assert(label@ =~= "ENUM32_"@ + crate::text::spec_dec_chars(
                                        v as nat,
                                    ));
                                    assert(spec_enum_match(sp.symbol->0@, v as nat as int)
                                        is None);
                                }
                                point.value = Some(ValueType::String(label));
                                Ok(point)
                            }
                        },
                    }
                },
                None => Err(
                    SunSpecPointError::GeneralError(
                        "an enumeration needs a symbol table to decode".to_owned(),
                    ),
                ),
            }
        } else if crate::text::str_eq(point.type_.as_str(), POINT_TYPE_BITFIELD32) {
            let v = match self.get_u32(read_addr) {
                Ok(v) => v,
                Err(e) => {
                    return Err(read_error_to_point_error(e));
                },
            };
            match &point.symbol {
                Some(symbols) => {
                    let labels = decode_bitfield(symbols, v, 32);
                    proof {
                        assert(labels@.map_values(|l: String| l@) == spec_bitfield_labels(
                            sp.symbol->0@,
                            v,
                            32,
                        ));
                    }
                    point.value = Some(ValueType::Array(labels));
                    Ok(point)
                },
                None => {
                    if self.strict_symbol {
                        Err(
                            SunSpecPointError::GeneralError(
                                "a bitfield needs a symbol table to decode".to_owned(),
                            ),
                        )
                    } else {
                        let mut label = String::new();
                        label.append("BITFIELD32_");
                        let digits = crate::text::u64_to_dec_string(v as u64);
                        label.append(digits.as_str());
                        proof {
                            assert(label@ =~= "BITFIELD32_"@ + crate::text::spec_dec_chars(
                                v as nat,
                            ));
                        }
                        point.value = Some(ValueType::String(label));
                        Ok(point)
                    }
                },
            }
        } else if crate::text::str_eq(point.type_.as_str(), POINT_TYPE_PAD) {
            point.value = Some(ValueType::Pad);
            Ok(point)
        } else {
            Err(SunSpecPointError::DoesNotExist("unknown point type".to_owned()))
        }
    }
}

} // verus!
