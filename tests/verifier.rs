use attestation_core::binding::{check_binding, regularize, BindingErrorKind, ExpectedValue};
use attestation_core::eventlog::{decode_firmware_log, parse_app_log, AppLogError, LogDecodeError};
use attestation_core::quote::{decode, DecodeError, FIXED_LEN};
use attestation_core::replay::{
    replay_and_match, HashAlgorithm, LogEntry, ReferenceMeasurement, ReplayError,
};
use attestation_core::tdx::{verify_evidence, Tdx, TdxEvidence, VerifyError};
use base64::Engine;
use sha2::Digest;

fn sha384(data: &[u8]) -> Vec<u8> {
    sha2::Sha384::digest(data).to_vec()
}

fn b64(data: &[u8]) -> String {
    base64::engine::general_purpose::STANDARD.encode(data)
}

fn hex(data: &[u8]) -> String {
    data.iter().map(|b| format!("{:02x}", b)).collect()
}

/// A quote with the fixed layout, the given fields and a signature block.
fn quote_with(rtmr: [&[u8]; 4], report_data: &[u8], mr_config_id: &[u8], sig: &[u8]) -> Vec<u8> {
    let mut q = vec![0u8; FIXED_LEN];
    q[0] = 4;
    q[232..280].copy_from_slice(mr_config_id);
    for (i, r) in rtmr.iter().enumerate() {
        q[376 + 48 * i..424 + 48 * i].copy_from_slice(r);
    }
    q[568..632].copy_from_slice(report_data);
    q[632..636].copy_from_slice(&(sig.len() as u32).to_le_bytes());
    q.extend_from_slice(sig);
    q
}

fn entry(index: u32, digest: Vec<u8>) -> LogEntry {
    LogEntry { index, algorithm: HashAlgorithm::Sha384, digest }
}

fn reference(index: u32, value: Vec<u8>) -> ReferenceMeasurement {
    ReferenceMeasurement { index, algorithm: HashAlgorithm::Sha384, reference: value }
}

fn record(index: u32, alg: u16, digest: &[u8]) -> Vec<u8> {
    let mut r = index.to_le_bytes().to_vec();
    r.extend_from_slice(&alg.to_le_bytes());
    r.extend_from_slice(digest);
    r
}

#[test]
fn decode_rejects_every_short_prefix() {
    let q = quote_with([&[1; 48], &[2; 48], &[3; 48], &[4; 48]], &[5; 64], &[6; 48], &[7; 10]);
    for len in 0..FIXED_LEN {
        assert!(matches!(decode(&q[..len]), Err(DecodeError::Truncated)));
    }
}

#[test]
fn decode_reads_fields_at_fixed_offsets() {
    let q = quote_with([&[1; 48], &[2; 48], &[3; 48], &[4; 48]], &[5; 64], &[6; 48], &[7, 8, 9]);
    let d = decode(&q).unwrap();
    assert_eq!(d.rtmr_0, vec![1u8; 48]);
    assert_eq!(d.rtmr_1, vec![2u8; 48]);
    assert_eq!(d.rtmr_2, vec![3u8; 48]);
    assert_eq!(d.rtmr_3, vec![4u8; 48]);
    assert_eq!(d.report_data, vec![5u8; 64]);
    assert_eq!(d.mr_config_id, vec![6u8; 48]);
    assert_eq!(d.signature, vec![7u8, 8, 9]);
    assert_eq!(d.header.len(), 48);
    assert_eq!(d.body.len(), 584);
}

#[test]
fn decode_signature_length_is_little_endian() {
    let mut q = quote_with([&[0; 48]; 4], &[0; 64], &[0; 48], &[]);
    q[632] = 0x02;
    q[633] = 0x01;
    q.extend_from_slice(&vec![0xAA; 0x0102]);
    assert_eq!(decode(&q).unwrap().signature.len(), 0x0102);
    q.truncate(q.len() - 1);
    assert!(matches!(decode(&q), Err(DecodeError::Malformed)));
}

#[test]
fn binding_exact_on_equal_width() {
    let a = vec![0x11u8; 48];
    let mut b = a.clone();
    b[47] ^= 1;
    assert!(check_binding(&ExpectedValue::Value(a.clone()), &a, "MRCONFIGID", "TDX").is_ok());
    let e = check_binding(&ExpectedValue::Value(a), &b, "MRCONFIGID", "TDX").unwrap_err();
    assert_eq!(e.kind, BindingErrorKind::Mismatch);
    assert_eq!(e.field_name, "MRCONFIGID");
    assert_eq!(e.tee_name, "TDX");
    assert!(check_binding(&ExpectedValue::Any, &b, "MRCONFIGID", "TDX").is_ok());
}

#[test]
fn binding_regularizes_short_values() {
    let v = vec![0x5Au8; 32];
    let mut field = v.clone();
    field.extend_from_slice(&[0u8; 32]);
    assert!(check_binding(&ExpectedValue::Value(v.clone()), &field, "REPORT_DATA", "TDX").is_ok());
    field[40] = 1;
    let e = check_binding(&ExpectedValue::Value(v), &field, "REPORT_DATA", "TDX").unwrap_err();
    assert_eq!(e.kind, BindingErrorKind::Mismatch);
    let long = vec![0u8; 65];
    let e = check_binding(&ExpectedValue::Value(long), &[0u8; 64], "REPORT_DATA", "TDX").unwrap_err();
    assert_eq!(e.kind, BindingErrorKind::TooLong);
    assert_eq!(regularize(&[1, 2], 4), Some(vec![1, 2, 0, 0]));
    assert_eq!(regularize(&[1, 2, 3], 2), None);
}

#[test]
fn replay_of_untouched_register_is_zero() {
    let log = vec![entry(1, vec![9; 48])];
    assert!(replay_and_match(&log, &[reference(2, vec![0; 48])]).is_ok());
    assert_eq!(
        replay_and_match(&log, &[reference(2, vec![1; 48])]),
        Err(ReplayError::RegisterMismatch(2))
    );
    assert!(replay_and_match(&[], &[reference(3, vec![0; 48])]).is_ok());
}

#[test]
fn replay_chains_in_log_order() {
    let e1 = vec![0x01u8; 48];
    let e2 = vec![0x02u8; 48];
    let mut first = vec![0u8; 48];
    first.extend_from_slice(&e1);
    let mut second = sha384(&first);
    second.extend_from_slice(&e2);
    let expected = sha384(&second);
    let log = vec![entry(4, e1.clone()), entry(1, vec![7; 48]), entry(4, e2.clone())];
    assert!(replay_and_match(&log, &[reference(4, expected.clone())]).is_ok());
    let swapped = vec![entry(4, e2), entry(4, e1)];
    assert_eq!(
        replay_and_match(&swapped, &[reference(4, expected)]),
        Err(ReplayError::RegisterMismatch(4))
    );
}

#[test]
fn replay_is_deterministic() {
    let log = vec![entry(1, vec![3; 48]), entry(1, vec![4; 48])];
    let refs = vec![reference(1, vec![0; 48])];
    let a = replay_and_match(&log, &refs);
    let b = replay_and_match(&log, &refs);
    assert_eq!(a, b);
    assert_eq!(a, Err(ReplayError::RegisterMismatch(1)));
}

#[test]
fn replay_rejects_other_algorithm() {
    let log = vec![LogEntry { index: 2, algorithm: HashAlgorithm::Sha256, digest: vec![0; 32] }];
    assert_eq!(
        replay_and_match(&log, &[reference(2, vec![0; 48])]),
        Err(ReplayError::AlgorithmMismatch(2))
    );
}

#[test]
fn replay_sha256_register() {
    let d = vec![0xEEu8; 32];
    let mut data = vec![0u8; 32];
    data.extend_from_slice(&d);
    let expected = sha2::Sha256::digest(&data).to_vec();
    let log = vec![LogEntry { index: 0, algorithm: HashAlgorithm::Sha256, digest: d }];
    let r = ReferenceMeasurement { index: 0, algorithm: HashAlgorithm::Sha256, reference: expected };
    assert!(replay_and_match(&log, &[r]).is_ok());
}

#[test]
fn firmware_log_records_decode() {
    let mut b = record(1, 0x000C, &[0xAB; 48]);
    b.extend(record(3, 0x000B, &[0xCD; 32]));
    let log = decode_firmware_log(&b).unwrap();
    assert_eq!(log.len(), 2);
    assert_eq!(log[0].index, 1);
    assert_eq!(log[0].algorithm, HashAlgorithm::Sha384);
    assert_eq!(log[0].digest, vec![0xAB; 48]);
    assert_eq!(log[1].index, 3);
    assert_eq!(log[1].algorithm, HashAlgorithm::Sha256);
    assert!(matches!(decode_firmware_log(&b[..b.len() - 1]), Err(LogDecodeError::Truncated)));
    let bad = record(1, 0x0004, &[0; 20]);
    assert!(matches!(decode_firmware_log(&bad), Err(LogDecodeError::UnknownAlgorithm)));
    assert_eq!(decode_firmware_log(&[]).unwrap().len(), 0);
}

#[test]
fn app_log_lines_parse() {
    let text = format!("{}\n{}\n", hex(&[0x0F; 48]), "A0".repeat(48));
    let log = parse_app_log(&text).unwrap();
    assert_eq!(log.len(), 2);
    assert_eq!(log[0].index, 4);
    assert_eq!(log[0].digest, vec![0x0F; 48]);
    assert_eq!(log[1].digest, vec![0xA0; 48]);
    assert!(matches!(parse_app_log("zz\n"), Err(AppLogError::BadLine)));
    let no_newline = hex(&[1; 48]);
    assert!(matches!(parse_app_log(&no_newline), Err(AppLogError::BadLine)));
}

fn scenario_quote(e1: &[u8], e2: &[u8]) -> Vec<u8> {
    let mut first = vec![0u8; 48];
    first.extend_from_slice(e1);
    let mut second = sha384(&first);
    second.extend_from_slice(e2);
    let rtmr3 = sha384(&second);
    let zero = [0u8; 48];
    quote_with([&zero, &zero, &zero, &rtmr3], &[0u8; 64], &[0u8; 48], &[1, 2, 3, 4])
}

#[test]
fn evaluate_accepts_matching_log() {
    let e1 = sha384(b"");
    let e2 = sha384(b"");
    let q = scenario_quote(&e1, &e2);
    let mut log = record(4, 0x000C, &e1);
    log.extend(record(4, 0x000C, &e2));
    let ev = TdxEvidence { cc_eventlog: Some(b64(&log)), quote: b64(&q), aa_eventlog: None };
    let (claim, class) = Tdx::new()
        .evaluate(&ev, &ExpectedValue::Any, &ExpectedValue::Any, vec![("k".to_string(), "v".to_string())])
        .unwrap();
    assert_eq!(class, "cpu");
    assert_eq!(claim.quote.rtmr_3, q[520..568].to_vec());
    assert_eq!(claim.firmware_log.unwrap().len(), 2);
    assert!(claim.app_log.is_none());
    assert_eq!(claim.custom, vec![("k".to_string(), "v".to_string())]);
}

#[test]
fn evaluate_rejects_flipped_log_entry() {
    let e1 = sha384(b"");
    let e2 = sha384(b"");
    let q = scenario_quote(&e1, &e2);
    let mut flipped = e2.clone();
    flipped[0] ^= 0x80;
    let mut log = record(4, 0x000C, &e1);
    log.extend(record(4, 0x000C, &flipped));
    let ev = TdxEvidence { cc_eventlog: Some(b64(&log)), quote: b64(&q), aa_eventlog: None };
    let r = Tdx::new().evaluate(&ev, &ExpectedValue::Any, &ExpectedValue::Any, vec![]);
    assert!(matches!(r, Err(VerifyError::FirmwareReplay(ReplayError::RegisterMismatch(4)))));
}

#[test]
fn evaluate_replays_application_log() {
    let e1 = [0x31u8; 48];
    let e2 = [0x32u8; 48];
    let q = scenario_quote(&e1, &e2);
    let text = format!("{}\n{}\n", hex(&e1), hex(&e2));
    let ev = TdxEvidence { cc_eventlog: None, quote: b64(&q), aa_eventlog: Some(text) };
    let claim = verify_evidence(&ExpectedValue::Any, &ExpectedValue::Any, &ev, vec![]).unwrap();
    assert_eq!(claim.app_log.unwrap().len(), 2);
    let text = format!("{}\n{}\n", hex(&e2), hex(&e1));
    let ev = TdxEvidence { cc_eventlog: None, quote: b64(&q), aa_eventlog: Some(text) };
    let r = verify_evidence(&ExpectedValue::Any, &ExpectedValue::Any, &ev, vec![]);
    assert!(matches!(r, Err(VerifyError::AppReplay(ReplayError::RegisterMismatch(4)))));
}

#[test]
fn evaluate_checks_bindings_and_encoding() {
    let q = scenario_quote(&[0; 48], &[0; 48]);
    let ev = TdxEvidence { cc_eventlog: Some(String::new()), quote: b64(&q), aa_eventlog: None };
    let r = verify_evidence(&ExpectedValue::Value(vec![1]), &ExpectedValue::Any, &ev, vec![]);
    match r {
        Err(VerifyError::Binding(b)) => {
            assert_eq!(b.field_name, "REPORT_DATA");
            assert_eq!(b.tee_name, "TDX");
            assert_eq!(b.kind, BindingErrorKind::Mismatch);
        }
        other => panic!("unexpected {:?}", other),
    }
    let r = verify_evidence(&ExpectedValue::Any, &ExpectedValue::Value(vec![0; 49]), &ev, vec![]);
    match r {
        Err(VerifyError::Binding(b)) => {
            assert_eq!(b.field_name, "MRCONFIGID");
            assert_eq!(b.tee_name, "TDX");
            assert_eq!(b.kind, BindingErrorKind::TooLong);
        }
        other => panic!("unexpected {:?}", other),
    }
    assert!(verify_evidence(&ExpectedValue::Value(vec![0; 8]), &ExpectedValue::Any, &ev, vec![]).is_ok());
    let empty = TdxEvidence { cc_eventlog: None, quote: String::new(), aa_eventlog: None };
    assert!(matches!(verify_evidence(&ExpectedValue::Any, &ExpectedValue::Any, &empty, vec![]), Err(VerifyError::EmptyQuote)));
    let bad = TdxEvidence { cc_eventlog: None, quote: "***".to_string(), aa_eventlog: None };
    assert!(matches!(verify_evidence(&ExpectedValue::Any, &ExpectedValue::Any, &bad, vec![]), Err(VerifyError::QuoteEncoding)));
    let short = TdxEvidence { cc_eventlog: None, quote: b64(&q[..100]), aa_eventlog: None };
    assert!(matches!(
        verify_evidence(&ExpectedValue::Any, &ExpectedValue::Any, &short, vec![]),
        Err(VerifyError::Decode(DecodeError::Truncated))
    ));
    let bad_log = TdxEvidence { cc_eventlog: Some("@@".to_string()), quote: b64(&q), aa_eventlog: None };
    assert!(matches!(
        verify_evidence(&ExpectedValue::Any, &ExpectedValue::Any, &bad_log, vec![]),
        Err(VerifyError::FirmwareLogEncoding)
    ));
}
