//! Evidence verification for TDX: decode, bind, replay, build claims.

use vstd::prelude::*;
use vstd::utf8::encode_utf8;
use crate::binding::{binding_failure, check_binding, zeros, BindingError, BindingErrorKind, ExpectedValue};
use crate::encoding::{base64_decoded, decode_base64};
use crate::eventlog::{
    app_entries_from, decode_firmware_log, parse_app_log, records_from, AppLogError,
    LogDecodeError, APP_REGISTER_INDEX,
};
use crate::quote::{
    decode, decode_error, field, DecodeError, Quote, MR_CONFIG_ID_OFFSET, REGISTER_LEN,
    REPORT_DATA_LEN, REPORT_DATA_OFFSET, RTMR0_OFFSET, RTMR1_OFFSET, RTMR2_OFFSET, RTMR3_OFFSET,
};
use crate::replay::{
    algorithm_consistent, hash_of, lemma_two_entry_chain, log_view, refs_view, replay_and_match,
    replay_failure, EntryView, HashAlgorithm, LogEntry, ReferenceMeasurement, ReplayError,
};

verus! {

/// The evidence a TDX guest presents.
#[derive(Debug, Clone)]
pub struct TdxEvidence {
    /// Base64 of the firmware measurement log, if any.
    pub cc_eventlog: Option<String>,
    /// Base64 of the TD quote.
    pub quote: String,
    /// The application measurement log, if any.
    pub aa_eventlog: Option<String>,
}

/// Everything verified about one piece of evidence.
#[derive(Debug)]
pub struct ParsedClaim {
    /// The decoded quote.
    pub quote: Quote,
    /// The replayed firmware log, when the evidence carries one.
    pub firmware_log: Option<Vec<LogEntry>>,
    /// The replayed application log, when the evidence carries one.
    pub app_log: Option<Vec<LogEntry>>,
    /// Claims from the signature verifier, kept in their own section.
    pub custom: Vec<(String, String)>,
}

/// The stage at which verification failed, without the names it carries.
#[derive(Debug, Clone, Copy, PartialEq, Eq, Structural)]
pub enum VerifyFailure {
    EmptyQuote,
    QuoteEncoding,
    Decode(DecodeError),
    ReportDataBinding(BindingErrorKind),
    InitDataBinding(BindingErrorKind),
    FirmwareLogEncoding,
    FirmwareLog(LogDecodeError),
    FirmwareReplay(ReplayError),
    AppLog(AppLogError),
    AppReplay(ReplayError),
}

/// A failed verification.
#[derive(Debug)]
pub enum VerifyError {
    EmptyQuote,
    QuoteEncoding,
    Decode(DecodeError),
    Binding(BindingError),
    FirmwareLogEncoding,
    FirmwareLog(LogDecodeError),
    FirmwareReplay(ReplayError),
    AppLog(AppLogError),
    AppReplay(ReplayError),
}

impl VerifyError {
    /// The stage of the failure.
    pub open spec fn failure(&self) -> VerifyFailure {
        match self {
            VerifyError::EmptyQuote => VerifyFailure::EmptyQuote,
            VerifyError::QuoteEncoding => VerifyFailure::QuoteEncoding,
            VerifyError::Decode(e) => VerifyFailure::Decode(*e),
            VerifyError::Binding(b) => if b.field_name@ == report_data_name() {
                VerifyFailure::ReportDataBinding(b.kind)
            } else {
                VerifyFailure::InitDataBinding(b.kind)
            },
            VerifyError::FirmwareLogEncoding => VerifyFailure::FirmwareLogEncoding,
            VerifyError::FirmwareLog(e) => VerifyFailure::FirmwareLog(*e),
            VerifyError::FirmwareReplay(e) => VerifyFailure::FirmwareReplay(*e),
            VerifyError::AppLog(e) => VerifyFailure::AppLog(*e),
            VerifyError::AppReplay(e) => VerifyFailure::AppReplay(*e),
        }
    }
}

/// Name of the TEE class in binding errors.
pub open spec fn tdx_name() -> Seq<char> {
    seq!['T', 'D', 'X']
}

/// Name of the configuration-hash field in binding errors.
pub open spec fn mr_config_id_name() -> Seq<char> {
    seq!['M', 'R', 'C', 'O', 'N', 'F', 'I', 'G', 'I', 'D']
}

/// A binding error of this verifier: it names the TEE class and one of the
/// two bound fields.
pub open spec fn names_binding(e: VerifyError) -> bool {
    e matches VerifyError::Binding(b) ==> b.tee_name@ == tdx_name() && (b.field_name@ == report_data_name()
        || b.field_name@ == mr_config_id_name())
}

/// Name of the report-data field in binding errors.
pub open spec fn report_data_name() -> Seq<char> {
    seq!['R', 'E', 'P', 'O', 'R', 'T', '_', 'D', 'A', 'T', 'A']
}

/// The four quote registers as the firmware log indexes them (1 to 4),
/// all SHA-384.
pub open spec fn firmware_refs(qb: Seq<u8>) -> Seq<EntryView> {
    seq![
        (1u32, HashAlgorithm::Sha384, field(qb, RTMR0_OFFSET as int, REGISTER_LEN as int)),
        (2u32, HashAlgorithm::Sha384, field(qb, RTMR1_OFFSET as int, REGISTER_LEN as int)),
        (3u32, HashAlgorithm::Sha384, field(qb, RTMR2_OFFSET as int, REGISTER_LEN as int)),
        (4u32, HashAlgorithm::Sha384, field(qb, RTMR3_OFFSET as int, REGISTER_LEN as int)),
    ]
}

/// The application register, checked against the last quote register.
pub open spec fn app_refs(qb: Seq<u8>) -> Seq<EntryView> {
    seq![(APP_REGISTER_INDEX, HashAlgorithm::Sha384, field(qb, RTMR3_OFFSET as int, REGISTER_LEN as int))]
}

/// A log that is present and not empty.
pub open spec fn present(s: Option<String>) -> bool {
    s matches Some(t) && t@.len() > 0
}

/// How the firmware log of the quote `qb` fails, if it does.
pub open spec fn firmware_failure(ccel: Option<String>, qb: Seq<u8>) -> Option<VerifyFailure> {
    if !present(ccel) {
        None
    } else {
        match base64_decoded(ccel.unwrap()@) {
            None => Some(VerifyFailure::FirmwareLogEncoding),
            Some(lb) => match records_from(lb, 0) {
                Err(e) => Some(VerifyFailure::FirmwareLog(e)),
                Ok(entries) => match replay_failure(entries, firmware_refs(qb), 0) {
                    Some(e) => Some(VerifyFailure::FirmwareReplay(e)),
                    None => None,
                },
            },
        }
    }
}

/// How the application log of the quote `qb` fails, if it does.
pub open spec fn app_failure(aael: Option<String>, qb: Seq<u8>) -> Option<VerifyFailure> {
    if !present(aael) {
        None
    } else {
        match app_entries_from(encode_utf8(aael.unwrap()@), 0) {
            Err(e) => Some(VerifyFailure::AppLog(e)),
            Ok(entries) => match replay_failure(entries, app_refs(qb), 0) {
                Some(e) => Some(VerifyFailure::AppReplay(e)),
                None => None,
            },
        }
    }
}

/// How verifying the decoded quote `qb` fails, if it does, in stage order:
/// the two bindings, then firmware replay, then application replay.
pub open spec fn quote_failure(
    report_data: Option<Seq<u8>>,
    init_data: Option<Seq<u8>>,
    qb: Seq<u8>,
    ev: TdxEvidence,
) -> Option<VerifyFailure> {
    if decode_error(qb) is Some {
        Some(VerifyFailure::Decode(decode_error(qb).unwrap()))
    } else if binding_failure(report_data, field(qb, REPORT_DATA_OFFSET as int, REPORT_DATA_LEN as int)) is Some {
        Some(VerifyFailure::ReportDataBinding(
            binding_failure(report_data, field(qb, REPORT_DATA_OFFSET as int, REPORT_DATA_LEN as int)).unwrap(),
        ))
    } else if binding_failure(init_data, field(qb, MR_CONFIG_ID_OFFSET as int, REGISTER_LEN as int)) is Some {
        Some(VerifyFailure::InitDataBinding(
            binding_failure(init_data, field(qb, MR_CONFIG_ID_OFFSET as int, REGISTER_LEN as int)).unwrap(),
        ))
    } else if firmware_failure(ev.cc_eventlog, qb) is Some {
        firmware_failure(ev.cc_eventlog, qb)
    } else {
        app_failure(ev.aa_eventlog, qb)
    }
}

/// How verifying `ev` fails, if it does.
pub open spec fn evidence_failure(
    report_data: Option<Seq<u8>>,
    init_data: Option<Seq<u8>>,
    ev: TdxEvidence,
) -> Option<VerifyFailure> {
    if ev.quote@.len() == 0 {
        Some(VerifyFailure::EmptyQuote)
    } else {
        match base64_decoded(ev.quote@) {
            None => Some(VerifyFailure::QuoteEncoding),
            Some(qb) => quote_failure(report_data, init_data, qb, ev),
        }
    }
}

/// The claim built from a successful verification of `ev` whose quote
/// decodes to `qb`.
pub open spec fn claim_matches(c: ParsedClaim, qb: Seq<u8>, ev: TdxEvidence, custom: Seq<(String, String)>) -> bool {
    &&& c.quote.decoded_from(qb)
    &&& c.quote.wf()
    &&& c.custom@ == custom
    &&& match c.firmware_log {
        None => !present(ev.cc_eventlog),
        Some(l) => present(ev.cc_eventlog) && (base64_decoded(ev.cc_eventlog.unwrap()@) matches Some(lb)
            && records_from(lb, 0) == Ok::<Seq<EntryView>, LogDecodeError>(log_view(l@))),
    }
    &&& match c.app_log {
        None => !present(ev.aa_eventlog),
        Some(l) => present(ev.aa_eventlog) && app_entries_from(encode_utf8(ev.aa_eventlog.unwrap()@), 0)
            == Ok::<Seq<EntryView>, AppLogError>(log_view(l@)),
    }
}

/// The binary quote that `ev` carries: fails when the quote is empty or is
/// not valid base64.
pub fn quote_bytes(ev: &TdxEvidence) -> (r: Result<Vec<u8>, VerifyError>)
    ensures
        ev.quote@.len() == 0 ==> r matches Err(VerifyError::EmptyQuote),
        ev.quote@.len() > 0 ==> match r {
            Ok(b) => base64_decoded(ev.quote@) == Some(b@),
            Err(e) => base64_decoded(ev.quote@) is None && e is QuoteEncoding,
        },
{
    if ev.quote.as_str().is_empty() {
        return Err(VerifyError::EmptyQuote);
    }
    match decode_base64(ev.quote.as_str()) {
        Some(b) => Ok(b),
        None => Err(VerifyError::QuoteEncoding),
    }
}

/// Verifier of TDX evidence.
#[derive(Debug, Default)]
pub struct Tdx {}

impl Tdx {
    pub fn new() -> (r: Tdx) {
        Tdx {}
    }

    /// Verifies `ev` as `verify_evidence` does and tags the claim with the
    /// TEE class `cpu`.
    pub fn evaluate(
        &self,
        ev: &TdxEvidence,
        expected_report_data: &ExpectedValue,
        expected_init_data_hash: &ExpectedValue,
        custom: Vec<(String, String)>,
    ) -> (r: Result<(ParsedClaim, String), VerifyError>)
        ensures
            r is Ok <==> evidence_failure(expected_report_data@, expected_init_data_hash@, *ev) is None,
            r matches Err(e) ==> evidence_failure(expected_report_data@, expected_init_data_hash@, *ev)
                == Some(e.failure()) && names_binding(e),
            r matches Ok((c, class)) ==> {
                &&& class@ == seq!['c', 'p', 'u']
                &&& base64_decoded(ev.quote@) matches Some(qb)
                &&& claim_matches(c, qb, *ev, custom@)
            },
    {
        match verify_evidence(expected_report_data, expected_init_data_hash, ev, custom) {
            Err(e) => Err(e),
            Ok(c) => {
                proof {
                    reveal_strlit("cpu");
                }
                let class = "cpu".to_string();
                assert(class@ =~= seq!['c', 'p', 'u']);
                Ok((c, class))
            },
        }
    }
}

/// Two application entries that the scenarios below replay.
pub open spec fn two_app_entries(e1: Seq<u8>, e2: Seq<u8>) -> Seq<EntryView> {
    seq![(APP_REGISTER_INDEX, HashAlgorithm::Sha384, e1), (APP_REGISTER_INDEX, HashAlgorithm::Sha384, e2)]
}

/// The outcome of replaying two application entries against the quote `qb`.
proof fn lemma_two_entry_replay(qb: Seq<u8>, e1: Seq<u8>, e2: Seq<u8>)
    ensures
        replay_failure(two_app_entries(e1, e2), app_refs(qb), 0) == if field(qb, RTMR3_OFFSET as int, REGISTER_LEN as int)
            == hash_of(HashAlgorithm::Sha384, hash_of(HashAlgorithm::Sha384, zeros(48) + e1) + e2) {
            None
        } else {
            Some(ReplayError::RegisterMismatch(APP_REGISTER_INDEX))
        },
{
    let log = two_app_entries(e1, e2);
    lemma_two_entry_chain(log, HashAlgorithm::Sha384);
    assert(algorithm_consistent(log, APP_REGISTER_INDEX, HashAlgorithm::Sha384, 2));
    assert(replay_failure(log, app_refs(qb), 1) == None::<ReplayError>);
}

/// Evidence whose quote leaves both bindings open (`Any`), carries no
/// firmware log, and whose application log holds two entries chaining to the
/// quote's last register is accepted.
pub proof fn lemma_chained_log_accepted(ev: TdxEvidence, qb: Seq<u8>, e1: Seq<u8>, e2: Seq<u8>)
    requires
        ev.quote@.len() > 0,
        base64_decoded(ev.quote@) == Some(qb),
        decode_error(qb) is None,
        !present(ev.cc_eventlog),
        present(ev.aa_eventlog),
        app_entries_from(encode_utf8(ev.aa_eventlog.unwrap()@), 0) == Ok::<Seq<EntryView>, AppLogError>(
            two_app_entries(e1, e2),
        ),
        field(qb, RTMR3_OFFSET as int, REGISTER_LEN as int) == hash_of(
            HashAlgorithm::Sha384,
            hash_of(HashAlgorithm::Sha384, zeros(48) + e1) + e2,
        ),
    ensures
        evidence_failure(None, None, ev) is None,
{
    lemma_two_entry_replay(qb, e1, e2);
}

/// The same evidence with entries whose chain differs from the quote's last
/// register (one entry altered, say) is refused with a register mismatch on
/// the application register, never accepted.
pub proof fn lemma_altered_log_refused(ev: TdxEvidence, qb: Seq<u8>, e1: Seq<u8>, e2: Seq<u8>)
    requires
        ev.quote@.len() > 0,
        base64_decoded(ev.quote@) == Some(qb),
        decode_error(qb) is None,
        !present(ev.cc_eventlog),
        present(ev.aa_eventlog),
        app_entries_from(encode_utf8(ev.aa_eventlog.unwrap()@), 0) == Ok::<Seq<EntryView>, AppLogError>(
            two_app_entries(e1, e2),
        ),
        field(qb, RTMR3_OFFSET as int, REGISTER_LEN as int) != hash_of(
            HashAlgorithm::Sha384,
            hash_of(HashAlgorithm::Sha384, zeros(48) + e1) + e2,
        ),
    ensures
        evidence_failure(None, None, ev) == Some(
            VerifyFailure::AppReplay(ReplayError::RegisterMismatch(APP_REGISTER_INDEX)),
        ),
{
    lemma_two_entry_replay(qb, e1, e2);
}

/// A claim from a successful verification holds the quote's last register
/// exactly as decoded.
pub proof fn lemma_claim_holds_register3(c: ParsedClaim, qb: Seq<u8>, ev: TdxEvidence, custom: Seq<(String, String)>)
    requires
        claim_matches(c, qb, ev, custom),
    ensures
        c.quote.rtmr_3@ == field(qb, RTMR3_OFFSET as int, REGISTER_LEN as int),
{
}

/// A copy of `v`.
fn copy_bytes(v: &Vec<u8>) -> (r: Vec<u8>)
    ensures
        r@ == v@,
{
    let mut r: Vec<u8> = Vec::with_capacity(v.len());
    let mut i: usize = 0;
    while i < v.len()
        invariant
            i <= v@.len(),
            r@ == v@.subrange(0, i as int),
        decreases v@.len() - i,
    {
        r.push(v[i]);
        i = i + 1;
        assert(r@ =~= v@.subrange(0, i as int));
    }
    assert(v@.subrange(0, i as int) =~= v@);
    r
}

/// The reference measurement for register `index` holding `value`.
fn sha384_ref(index: u32, value: &Vec<u8>) -> (r: ReferenceMeasurement)
    ensures
        r@ == (index, HashAlgorithm::Sha384, value@),
{
    ReferenceMeasurement { index, algorithm: HashAlgorithm::Sha384, reference: copy_bytes(value) }
}

/// Verifies TDX evidence whose quote signature has already been checked,
/// producing the claim. Stages run in order and the first failure ends the
/// call: quote decoding, report-data binding, configuration-hash binding,
/// firmware-log replay against the four registers (when a firmware log is
/// present), application-log replay against the last register (when an
/// application log is present). `custom` holds the claims of the signature
/// verifier and is kept in a section of its own.
pub fn verify_evidence(
    expected_report_data: &ExpectedValue,
    expected_init_data_hash: &ExpectedValue,
    ev: &TdxEvidence,
    custom: Vec<(String, String)>,
) -> (r: Result<ParsedClaim, VerifyError>)
    ensures
        r is Ok <==> evidence_failure(expected_report_data@, expected_init_data_hash@, *ev) is None,
        r matches Err(e) ==> evidence_failure(expected_report_data@, expected_init_data_hash@, *ev)
            == Some(e.failure()) && names_binding(e),
        r matches Ok(c) ==> (base64_decoded(ev.quote@) matches Some(qb) && claim_matches(
            c,
            qb,
            *ev,
            custom@,
        )),
{
    let qb = match quote_bytes(ev) {
        Err(e) => return Err(e),
        Ok(b) => b,
    };
    let q = match decode(qb.as_slice()) {
        Err(e) => return Err(VerifyError::Decode(e)),
        Ok(q) => q,
    };
    proof {
        reveal_strlit("REPORT_DATA");
        reveal_strlit("MRCONFIGID");
        reveal_strlit("TDX");
    }
    match check_binding(expected_report_data, q.report_data.as_slice(), "REPORT_DATA", "TDX") {
        Err(b) => {
            assert(b.field_name@ =~= report_data_name());
            assert(b.tee_name@ =~= tdx_name());
            return Err(VerifyError::Binding(b));
        },
        Ok(()) => {},
    }
    match check_binding(expected_init_data_hash, q.mr_config_id.as_slice(), "MRCONFIGID", "TDX") {
        Err(b) => {
            assert(b.field_name@ != report_data_name()) by {
                assert(b.field_name@[0] != report_data_name()[0]);
            }
            assert(b.field_name@ =~= mr_config_id_name());
            assert(b.tee_name@ =~= tdx_name());
            return Err(VerifyError::Binding(b));
        },
        Ok(()) => {},
    }
    let firmware_log = match &ev.cc_eventlog {
        None => None,
        Some(s) => {
            if s.as_str().is_empty() {
                None
            } else {
                let lb = match decode_base64(s.as_str()) {
                    None => return Err(VerifyError::FirmwareLogEncoding),
                    Some(b) => b,
                };
                let entries = match decode_firmware_log(lb.as_slice()) {
                    Err(e) => return Err(VerifyError::FirmwareLog(e)),
                    Ok(v) => v,
                };
                let refs = vec![
                    sha384_ref(1, &q.rtmr_0),
                    sha384_ref(2, &q.rtmr_1),
                    sha384_ref(3, &q.rtmr_2),
                    sha384_ref(4, &q.rtmr_3),
                ];
                assert(refs_view(refs@) =~= firmware_refs(qb@));
                match replay_and_match(entries.as_slice(), refs.as_slice()) {
                    Err(e) => return Err(VerifyError::FirmwareReplay(e)),
                    Ok(()) => {},
                }
                Some(entries)
            }
        },
    };
    let app_log = match &ev.aa_eventlog {
        None => None,
        Some(s) => {
            if s.as_str().is_empty() {
                None
            } else {
                let entries = match parse_app_log(s.as_str()) {
                    Err(e) => return Err(VerifyError::AppLog(e)),
                    Ok(v) => v,
                };
                let refs = vec![sha384_ref(APP_REGISTER_INDEX, &q.rtmr_3)];
                assert(refs_view(refs@) =~= app_refs(qb@));
                match replay_and_match(entries.as_slice(), refs.as_slice()) {
                    Err(e) => return Err(VerifyError::AppReplay(e)),
                    Ok(()) => {},
                }
                Some(entries)
            }
        },
    };
    Ok(ParsedClaim { quote: q, firmware_log, app_log, custom })
}

} // verus!
