//! Decoder for the binary TDX quote (version 4 layout, little-endian).

use vstd::prelude::*;

verus! {

/// Size of the quote header.
pub const HEADER_LEN: usize = 48;

/// Size of the TD report body that follows the header.
pub const BODY_LEN: usize = 584;

/// Bytes before the signature block: header, body and the 4-byte length
/// of the signature data.
pub const FIXED_LEN: usize = 636;

/// Offsets of the fields that the verifier reads, relative to the quote start.
pub const MR_CONFIG_ID_OFFSET: usize = 232;

pub const RTMR0_OFFSET: usize = 376;

pub const RTMR1_OFFSET: usize = 424;

pub const RTMR2_OFFSET: usize = 472;

pub const RTMR3_OFFSET: usize = 520;

pub const REPORT_DATA_OFFSET: usize = 568;

pub const SIG_LEN_OFFSET: usize = 632;

/// Width of the configuration-hash field and of each measurement register.
pub const REGISTER_LEN: usize = 48;

/// Width of the report-data (freshness) field.
pub const REPORT_DATA_LEN: usize = 64;

/// Why a buffer is not a quote.
#[derive(Debug, Clone, Copy, PartialEq, Eq, Structural)]
pub enum DecodeError {
    /// The buffer is shorter than the fixed layout.
    Truncated,
    /// The signature-length field claims more bytes than the buffer holds.
    Malformed,
}

/// A decoded quote. Every field holds exactly its fixed width.
#[derive(Debug)]
pub struct Quote {
    pub header: Vec<u8>,
    pub body: Vec<u8>,
    pub mr_config_id: Vec<u8>,
    pub rtmr_0: Vec<u8>,
    pub rtmr_1: Vec<u8>,
    pub rtmr_2: Vec<u8>,
    pub rtmr_3: Vec<u8>,
    pub report_data: Vec<u8>,
    pub signature: Vec<u8>,
}

/// The bytes `b[off .. off + len]`.
pub open spec fn field(b: Seq<u8>, off: int, len: int) -> Seq<u8> {
    b.subrange(off, off + len)
}

/// Little-endian value of the four bytes at `off`.
pub open spec fn u32_le(b: Seq<u8>, off: int) -> int {
    b[off] + 256 * b[off + 1] + 65536 * b[off + 2] + 16777216 * b[off + 3]
}

/// Length of the signature block that a buffer of the fixed layout declares.
pub open spec fn declared_sig_len(b: Seq<u8>) -> int {
    u32_le(b, SIG_LEN_OFFSET as int)
}

/// The outcome of decoding `b`: which error, if any.
pub open spec fn decode_error(b: Seq<u8>) -> Option<DecodeError> {
    if b.len() < FIXED_LEN {
        Some(DecodeError::Truncated)
    } else if declared_sig_len(b) > b.len() - FIXED_LEN {
        Some(DecodeError::Malformed)
    } else {
        None
    }
}

impl Quote {
    /// `self` holds the fields of the buffer `b`, each at its fixed offset.
    pub open spec fn decoded_from(&self, b: Seq<u8>) -> bool {
        &&& b.len() >= FIXED_LEN
        &&& self.header@ == field(b, 0, HEADER_LEN as int)
        &&& self.body@ == field(b, HEADER_LEN as int, BODY_LEN as int)
        &&& self.mr_config_id@ == field(b, MR_CONFIG_ID_OFFSET as int, REGISTER_LEN as int)
        &&& self.rtmr_0@ == field(b, RTMR0_OFFSET as int, REGISTER_LEN as int)
        &&& self.rtmr_1@ == field(b, RTMR1_OFFSET as int, REGISTER_LEN as int)
        &&& self.rtmr_2@ == field(b, RTMR2_OFFSET as int, REGISTER_LEN as int)
        &&& self.rtmr_3@ == field(b, RTMR3_OFFSET as int, REGISTER_LEN as int)
        &&& self.report_data@ == field(b, REPORT_DATA_OFFSET as int, REPORT_DATA_LEN as int)
        &&& self.signature@ == field(b, FIXED_LEN as int, declared_sig_len(b))
    }

    /// Every fixed-width field has its exact width.
    pub open spec fn wf(&self) -> bool {
        &&& self.header@.len() == HEADER_LEN
        &&& self.body@.len() == BODY_LEN
        &&& self.mr_config_id@.len() == REGISTER_LEN
        &&& self.rtmr_0@.len() == REGISTER_LEN
        &&& self.rtmr_1@.len() == REGISTER_LEN
        &&& self.rtmr_2@.len() == REGISTER_LEN
        &&& self.rtmr_3@.len() == REGISTER_LEN
        &&& self.report_data@.len() == REPORT_DATA_LEN
    }
}

/// Copies `b[off .. off + len]` into a new vector.
pub fn copy_field(b: &[u8], off: usize, len: usize) -> (r: Vec<u8>)
    requires
        off + len <= b@.len(),
    ensures
        r@ == field(b@, off as int, len as int),
{
    let n: usize = b.len();
    let mut r: Vec<u8> = Vec::with_capacity(len);
    let mut i: usize = 0;
    while i < len
        invariant
            off + len <= b@.len(),
            i <= len,
            n == b@.len(),
            r@ == b@.subrange(off as int, off + i),
        decreases len - i,
    {
        r.push(b[off + i]);
        i = i + 1;
        assert(r@ =~= b@.subrange(off as int, off + i));
    }
    r
}

/// Reads the little-endian `u32` at `off`.
pub fn read_u32_le(b: &[u8], off: usize) -> (r: u64)
    requires
        off + 4 <= b@.len(),
    ensures
        r == u32_le(b@, off as int),
{
    let b0 = b[off] as u64;
    let b1 = b[off + 1] as u64;
    let b2 = b[off + 2] as u64;
    let b3 = b[off + 3] as u64;
    assert(256 * b1 <= 256 * 255 && 65536 * b2 <= 65536 * 255 && 16777216 * b3 <= 16777216
        * 255) by (nonlinear_arith)
        requires
            b1 <= 255,
            b2 <= 255,
            b3 <= 255,
    ;
    b0 + 256 * b1 + 65536 * b2 + 16777216 * b3
}

/// Decodes a quote. Fails with `Truncated` on a buffer shorter than the fixed
/// layout and with `Malformed` when the declared signature length exceeds the
/// bytes that follow the fixed part.
pub fn decode(b: &[u8]) -> (r: Result<Quote, DecodeError>)
    ensures
        match r {
            Ok(q) => decode_error(b@) is None && q.decoded_from(b@) && q.wf(),
            Err(e) => decode_error(b@) == Some(e),
        },
{
    if b.len() < FIXED_LEN {
        return Err(DecodeError::Truncated);
    }
    let sig_len = read_u32_le(b, SIG_LEN_OFFSET);
    if sig_len > (b.len() - FIXED_LEN) as u64 {
        return Err(DecodeError::Malformed);
    }
    let sig_len = sig_len as usize;
    let q = Quote {
        header: copy_field(b, 0, HEADER_LEN),
        body: copy_field(b, HEADER_LEN, BODY_LEN),
        mr_config_id: copy_field(b, MR_CONFIG_ID_OFFSET, REGISTER_LEN),
        rtmr_0: copy_field(b, RTMR0_OFFSET, REGISTER_LEN),
        rtmr_1: copy_field(b, RTMR1_OFFSET, REGISTER_LEN),
        rtmr_2: copy_field(b, RTMR2_OFFSET, REGISTER_LEN),
        rtmr_3: copy_field(b, RTMR3_OFFSET, REGISTER_LEN),
        report_data: copy_field(b, REPORT_DATA_OFFSET, REPORT_DATA_LEN),
        signature: copy_field(b, FIXED_LEN, sig_len),
    };
    Ok(q)
}

/// A buffer shorter than the fixed layout never decodes: every prefix of
/// fewer than `FIXED_LEN` bytes is reported as truncated.
pub proof fn lemma_short_buffer_truncated(b: Seq<u8>)
    requires
        b.len() < FIXED_LEN,
    ensures
        decode_error(b) == Some(DecodeError::Truncated),
{
}

} // verus!
