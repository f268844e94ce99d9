//! Decoding of the binary firmware measurement log.
//!
//! The log is a sequence of records, each laid out little-endian as: the
//! register index (`u32`), the TCG algorithm identifier (`u16`: 0x000B
//! SHA-256, 0x000C SHA-384, 0x000D SHA-512), then the digest, as wide as the
//! algorithm's output.
//!
//! The application log is text: one line per event, each the SHA-384 digest
//! of the event in 96 hexadecimal digits, ended by a newline. All its entries
//! extend the application register.
//!
//! Both encodings are this library's own. They are not the TCG CC event log
//! (CCEL) ACPI table nor an attestation agent's event log: those formats are
//! not read here, and evidence in them has to be converted into these
//! records before verification.

use vstd::prelude::*;
use vstd::string::StringSliceAdditionalSpecFns;
use crate::quote::{copy_field, field, read_u32_le, u32_le};
use crate::replay::{digest_len, log_view, EntryView, HashAlgorithm, LogEntry};

verus! {

/// Bytes before the digest in each record.
pub const RECORD_HEADER_LEN: usize = 6;

/// Register that application events extend: the last platform register.
pub const APP_REGISTER_INDEX: u32 = 4;

/// Bytes of one application log line: 96 hex digits and a newline.
pub const APP_LINE_LEN: usize = 97;

/// Why a firmware log did not decode.
#[derive(Debug, Clone, Copy, PartialEq, Eq, Structural)]
pub enum LogDecodeError {
    /// A record is cut short by the end of the buffer.
    Truncated,
    /// A record names an algorithm that is not known.
    UnknownAlgorithm,
}

/// Why an application log did not parse.
#[derive(Debug, Clone, Copy, PartialEq, Eq, Structural)]
pub enum AppLogError {
    /// A line is not 96 hexadecimal digits followed by a newline.
    BadLine,
}

/// Value of an ASCII hexadecimal digit, either case.
pub open spec fn hex_value(c: u8) -> Option<u8> {
    if 48 <= c <= 57 {
        Some((c - 48) as u8)
    } else if 97 <= c <= 102 {
        Some((c - 87) as u8)
    } else if 65 <= c <= 70 {
        Some((c - 55) as u8)
    } else {
        None
    }
}

/// The byte spelled by the two hex digits at `off`.
pub open spec fn hex_byte(b: Seq<u8>, off: int) -> u8 {
    (16 * hex_value(b[off]).unwrap() + hex_value(b[off + 1]).unwrap()) as u8
}

/// The line at `off` is 96 hex digits and a newline.
pub open spec fn app_line_ok(b: Seq<u8>, off: int) -> bool {
    &&& off + APP_LINE_LEN <= b.len()
    &&& forall|i: int| 0 <= i < 96 ==> (#[trigger] hex_value(b[off + i])) is Some
    &&& b[off + 96] == 10
}

/// The digest written on the line at `off`.
pub open spec fn app_line_digest(b: Seq<u8>, off: int) -> Seq<u8> {
    Seq::new(48, |i: int| hex_byte(b, off + 2 * i))
}

/// The entries of the application log `b` from offset `off` on.
pub open spec fn app_entries_from(b: Seq<u8>, off: int) -> Result<Seq<EntryView>, AppLogError>
    decreases b.len() - off,
{
    if off < 0 || off >= b.len() {
        Ok(Seq::empty())
    } else if !app_line_ok(b, off) {
        Err(AppLogError::BadLine)
    } else {
        match app_entries_from(b, off + APP_LINE_LEN) {
            Err(e) => Err(e),
            Ok(rest) => Ok(
                seq![(APP_REGISTER_INDEX, HashAlgorithm::Sha384, app_line_digest(b, off))] + rest,
            ),
        }
    }
}

/// Reads one hex digit.
fn read_hex(c: u8) -> (r: Option<u8>)
    ensures
        r == hex_value(c),
{
    if 48 <= c && c <= 57 {
        Some(c - 48)
    } else if 97 <= c && c <= 102 {
        Some(c - 87)
    } else if 65 <= c && c <= 70 {
        Some(c - 55)
    } else {
        None
    }
}

/// Parses the line at `off`, giving its digest.
fn parse_app_line(b: &[u8], off: usize) -> (r: Option<Vec<u8>>)
    requires
        off + APP_LINE_LEN <= b@.len(),
    ensures
        r is Some <==> app_line_ok(b@, off as int),
        r matches Some(d) ==> d@ == app_line_digest(b@, off as int),
{
    let n: usize = b.len();
    let mut d: Vec<u8> = Vec::with_capacity(48);
    let mut i: usize = 0;
    while i < 48
        invariant
            n == b@.len(),
            off + APP_LINE_LEN <= b@.len(),
            i <= 48,
            forall|j: int| 0 <= j < 2 * i ==> (#[trigger] hex_value(b@[off + j])) is Some,
            d@ == app_line_digest(b@, off as int).subrange(0, i as int),
        decreases 48 - i,
    {
        let hi = match read_hex(b[off + 2 * i]) {
            None => {
                assert(hex_value(b@[off + (2 * i)]) is None);
                return None;
            },
            Some(x) => x,
        };
        let lo = match read_hex(b[off + 2 * i + 1]) {
            None => {
                assert(hex_value(b@[off + (2 * i + 1)]) is None);
                return None;
            },
            Some(x) => x,
        };
        assert(hi < 16 && lo < 16);
        d.push(16 * hi + lo);
        i = i + 1;
        assert(d@ =~= app_line_digest(b@, off as int).subrange(0, i as int));
    }
    if b[off + 96] != 10 {
        return None;
    }
    assert(d@ =~= app_line_digest(b@, off as int));
    Some(d)
}

/// Parses the application log into entries for the application register.
pub fn parse_app_log(text: &str) -> (r: Result<Vec<LogEntry>, AppLogError>)
    ensures
        match r {
            Ok(v) => app_entries_from(text.spec_bytes(), 0) == Ok::<Seq<EntryView>, AppLogError>(
                log_view(v@),
            ),
            Err(e) => app_entries_from(text.spec_bytes(), 0) == Err::<Seq<EntryView>, AppLogError>(
                e,
            ),
        },
{
    let b = text.as_bytes();
    assert(b@ == text.spec_bytes());
    let n: usize = b.len();
    let mut v: Vec<LogEntry> = Vec::new();
    let mut off: usize = 0;
    assert(log_view(v@) =~= Seq::<EntryView>::empty());
    assert(app_prepend(Seq::empty(), app_entries_from(b@, 0)) == app_entries_from(b@, 0)) by {
        match app_entries_from(b@, 0) {
            Ok(r) => assert(Seq::<EntryView>::empty() + r =~= r),
            Err(e) => {},
        }
    }
    while off < n
        invariant
            n == b@.len(),
            off <= n,
            b@ == text.spec_bytes(),
            app_entries_from(b@, 0) == app_prepend(log_view(v@), app_entries_from(b@, off as int)),
        decreases n - off,
    {
        if n - off < APP_LINE_LEN {
            assert(app_entries_from(b@, off as int) == Err::<Seq<EntryView>, AppLogError>(
                AppLogError::BadLine,
            ));
            return Err(AppLogError::BadLine);
        }
        let digest = match parse_app_line(b, off) {
            None => {
                assert(app_entries_from(b@, off as int) == Err::<Seq<EntryView>, AppLogError>(
                    AppLogError::BadLine,
                ));
                return Err(AppLogError::BadLine);
            },
            Some(d) => d,
        };
        let ghost old_v = log_view(v@);
        let ghost item: EntryView = (APP_REGISTER_INDEX, HashAlgorithm::Sha384, digest@);
        let ghost rest = app_entries_from(b@, (off + APP_LINE_LEN) as int);
        v.push(LogEntry { index: APP_REGISTER_INDEX, algorithm: HashAlgorithm::Sha384, digest });
        assert(log_view(v@) =~= old_v.push(item));
        proof {
            match rest {
                Ok(r) => assert(old_v + (seq![item] + r) =~= old_v.push(item) + r),
                Err(e) => {},
            }
        }
        off = off + APP_LINE_LEN;
    }
    assert(log_view(v@) + Seq::<EntryView>::empty() =~= log_view(v@));
    Ok(v)
}

/// `done` followed by what `rest` parses to.
pub open spec fn app_prepend(done: Seq<EntryView>, rest: Result<Seq<EntryView>, AppLogError>) -> Result<
    Seq<EntryView>,
    AppLogError,
> {
    match rest {
        Ok(r) => Ok(done + r),
        Err(e) => Err(e),
    }
}

/// Little-endian value of the two bytes at `off`.
pub open spec fn u16_le(b: Seq<u8>, off: int) -> int {
    b[off] + 256 * b[off + 1]
}

/// The algorithm a TCG identifier stands for.
pub open spec fn algorithm_of_id(id: int) -> Option<HashAlgorithm> {
    if id == 0x000B {
        Some(HashAlgorithm::Sha256)
    } else if id == 0x000C {
        Some(HashAlgorithm::Sha384)
    } else if id == 0x000D {
        Some(HashAlgorithm::Sha512)
    } else {
        None
    }
}

/// The records of `b` from offset `off` on, or the first failure.
pub open spec fn records_from(b: Seq<u8>, off: int) -> Result<Seq<EntryView>, LogDecodeError>
    decreases b.len() - off,
{
    if off < 0 || off >= b.len() {
        Ok(Seq::empty())
    } else if off + RECORD_HEADER_LEN > b.len() {
        Err(LogDecodeError::Truncated)
    } else {
        match algorithm_of_id(u16_le(b, off + 4)) {
            None => Err(LogDecodeError::UnknownAlgorithm),
            Some(a) => {
                let start = off + RECORD_HEADER_LEN;
                if start + digest_len(a) > b.len() {
                    Err(LogDecodeError::Truncated)
                } else {
                    match records_from(b, start + digest_len(a)) {
                        Err(e) => Err(e),
                        Ok(rest) => Ok(
                            seq![(u32_le(b, off) as u32, a, field(b, start, digest_len(a) as int))]
                                + rest,
                        ),
                    }
                }
            },
        }
    }
}

/// `done` followed by what `rest` decodes to.
pub open spec fn prepend(done: Seq<EntryView>, rest: Result<Seq<EntryView>, LogDecodeError>) -> Result<
    Seq<EntryView>,
    LogDecodeError,
> {
    match rest {
        Ok(r) => Ok(done + r),
        Err(e) => Err(e),
    }
}

/// Reads a TCG algorithm identifier at `off`.
fn read_algorithm(b: &[u8], off: usize) -> (r: Option<HashAlgorithm>)
    requires
        off + 2 <= b@.len(),
    ensures
        r == algorithm_of_id(u16_le(b@, off as int)),
{
    let id: u32 = b[off] as u32 + 256 * (b[off + 1] as u32);
    if id == 0x000B {
        Some(HashAlgorithm::Sha256)
    } else if id == 0x000C {
        Some(HashAlgorithm::Sha384)
    } else if id == 0x000D {
        Some(HashAlgorithm::Sha512)
    } else {
        None
    }
}

/// Decodes every record of a firmware log, in order.
pub fn decode_firmware_log(b: &[u8]) -> (r: Result<Vec<LogEntry>, LogDecodeError>)
    ensures
        match r {
            Ok(v) => records_from(b@, 0) == Ok::<Seq<EntryView>, LogDecodeError>(log_view(v@)),
            Err(e) => records_from(b@, 0) == Err::<Seq<EntryView>, LogDecodeError>(e),
        },
{
    let n: usize = b.len();
    let mut v: Vec<LogEntry> = Vec::new();
    let mut off: usize = 0;
    assert(log_view(v@) =~= Seq::<EntryView>::empty());
    assert(prepend(Seq::empty(), records_from(b@, 0)) == records_from(b@, 0)) by {
        match records_from(b@, 0) {
            Ok(r) => assert(Seq::<EntryView>::empty() + r =~= r),
            Err(e) => {},
        }
    }
    while off < n
        invariant
            n == b@.len(),
            off <= n,
            records_from(b@, 0) == prepend(log_view(v@), records_from(b@, off as int)),
        decreases n - off,
    {
        if n - off < RECORD_HEADER_LEN {
            return Err(LogDecodeError::Truncated);
        }
        let index = read_u32_le(b, off) as u32;
        let alg = match read_algorithm(b, off + 4) {
            None => return Err(LogDecodeError::UnknownAlgorithm),
            Some(a) => a,
        };
        let width: usize = match alg {
            HashAlgorithm::Sha256 => 32,
            HashAlgorithm::Sha384 => 48,
            HashAlgorithm::Sha512 => 64,
        };
        let start = off + RECORD_HEADER_LEN;
        if n - start < width {
            return Err(LogDecodeError::Truncated);
        }
        let digest = copy_field(b, start, width);
        let ghost old_v = log_view(v@);
        let ghost item: EntryView = (index, alg, digest@);
        let ghost rest = records_from(b@, (start + width) as int);
        v.push(LogEntry { index, algorithm: alg, digest });
        assert(log_view(v@) =~= old_v.push(item));
        proof {
            match rest {
                Ok(r) => assert(old_v + (seq![item] + r) =~= old_v.push(item) + r),
                Err(e) => {},
            }
        }
        off = start + width;
    }
    assert(log_view(v@) + Seq::<EntryView>::empty() =~= log_view(v@));
    Ok(v)
}

} // verus!
