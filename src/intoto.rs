//! The in-toto provenance extractor: checks a provenance bundle and lays out
//! its files for the external link verifier.

use vstd::prelude::*;
use vstd::utf8::encode_utf8;
use crate::encoding::{base64_decoded, decode_base64};
use crate::paths::{cleaned_path, get_file_path, has_suffix, is_layout_path, is_pub_key_path, layout_suffix, pub_suffix};
use crate::store::ReferenceValue;

verus! {

/// A provenance bundle.
#[derive(Debug, Clone)]
pub struct Provenance {
    /// Version of the in-toto metadata.
    pub version: String,
    /// Whether CRLF line separators are normalized to LF.
    pub line_normalization: bool,
    /// Relative path and base64 content of each file.
    pub files: Vec<(String, String)>,
}

/// The in-toto metadata version this extractor accepts.
pub open spec fn intoto_version() -> Seq<char> {
    seq!['0', '.', '9']
}

/// The version a bundle has when it states none.
pub fn default_version() -> (r: String)
    ensures
        r@ == intoto_version(),
{
    proof {
        reveal_strlit("0.9");
    }
    let r = "0.9".to_string();
    assert(r@ =~= intoto_version());
    r
}

/// Why an extraction failed.
#[derive(Debug, Clone, Copy, PartialEq, Eq, Structural)]
pub enum ExtractorError {
    /// The bundle's version is not the supported one.
    VersionMismatch,
    /// A file's content is not valid base64.
    ContentEncoding,
    /// No file of the bundle is a layout.
    MissingLayout,
    /// The external link verifier rejected the bundle.
    VerificationFailed,
    /// The layout envelope declares a payload type other than in-toto JSON.
    UnsupportedPayloadType,
    /// The layout envelope's payload is not a base64 string.
    MalformedPayload,
}

/// The payload type a layout envelope must declare.
pub open spec fn in_toto_payload_type() -> Seq<char> {
    seq![
        'a', 'p', 'p', 'l', 'i', 'c', 'a', 't', 'i', 'o', 'n', '/', 'v', 'n', 'd', '.', 'i', 'n',
        '-', 't', 'o', 't', 'o', '+', 'j', 's', 'o', 'n',
    ]
}

/// The layout carried by an envelope whose `payloadType` and `payload`
/// fields are given as strings (`None` where the field is missing or is not
/// a string): the payload type must be in-toto JSON, and the payload is
/// base64 of the layout document.
pub fn layout_payload(payload_type: &Option<String>, payload: &Option<String>) -> (r: Result<Vec<u8>, ExtractorError>)
    ensures
        !(payload_type matches Some(t) && t@ == in_toto_payload_type()) ==> r == Err::<Vec<u8>, ExtractorError>(
            ExtractorError::UnsupportedPayloadType,
        ),
        (payload_type matches Some(t) && t@ == in_toto_payload_type()) ==> match r {
            Ok(b) => payload matches Some(p) && base64_decoded(p@) == Some(b@),
            Err(e) => e == ExtractorError::MalformedPayload && (payload is None || base64_decoded(payload.unwrap()@) is None),
        },
{
    proof {
        reveal_strlit("application/vnd.in-toto+json");
    }
    let expected = "application/vnd.in-toto+json".to_string();
    assert(expected@ =~= in_toto_payload_type());
    match payload_type {
        None => return Err(ExtractorError::UnsupportedPayloadType),
        Some(t) => {
            if !(*t == expected) {
                return Err(ExtractorError::UnsupportedPayloadType);
            }
        },
    }
    match payload {
        None => Err(ExtractorError::MalformedPayload),
        Some(p) => match decode_base64(p.as_str()) {
            None => Err(ExtractorError::MalformedPayload),
            Some(b) => Ok(b),
        },
    }
}

/// One file to write into the working directory.
#[derive(Debug)]
pub struct PlannedFile {
    pub path: String,
    pub dir: String,
    pub content: Vec<u8>,
}

/// What the external verifier is to be run on.
#[derive(Debug)]
pub struct ExtractionPlan {
    pub files: Vec<PlannedFile>,
    pub layout_path: String,
    pub pub_key_paths: Vec<String>,
    pub line_normalization: bool,
}

/// Where the file at relative path `rel` goes under `tempdir`.
pub open spec fn planned_path(tempdir: Seq<char>, rel: Seq<char>) -> Seq<char> {
    cleaned_path(tempdir + seq!['/'] + rel)
}

/// The path names a layout file.
pub open spec fn is_layout(p: Seq<char>) -> bool {
    has_suffix(encode_utf8(p), layout_suffix())
}

/// The path names a public key file.
pub open spec fn is_pub_key(p: Seq<char>) -> bool {
    has_suffix(encode_utf8(p), pub_suffix())
}

/// The public key paths among `paths`, in order.
pub open spec fn pub_keys(paths: Seq<Seq<char>>) -> Seq<Seq<char>>
    decreases paths.len(),
{
    if paths.len() == 0 {
        Seq::empty()
    } else {
        let last = paths[paths.len() - 1];
        pub_keys(paths.drop_last()) + if is_pub_key(last) {
            seq![last]
        } else {
            Seq::empty()
        }
    }
}

/// The paths the files of `files` get under `tempdir`.
pub open spec fn planned_paths(tempdir: Seq<char>, files: Seq<(String, String)>) -> Seq<Seq<char>> {
    files.map_values(|f: (String, String)| planned_path(tempdir, f.0@))
}

/// How planning `p` under `tempdir` fails, if it does.
pub open spec fn plan_failure(p: Provenance, tempdir: Seq<char>) -> Option<ExtractorError> {
    if p.version@ != intoto_version() {
        Some(ExtractorError::VersionMismatch)
    } else if exists|i: int| 0 <= i < p.files@.len() && base64_decoded(p.files@[i].1@) is None {
        Some(ExtractorError::ContentEncoding)
    } else if forall|i: int| 0 <= i < p.files@.len() ==> !is_layout(planned_path(tempdir, p.files@[i].0@)) {
        Some(ExtractorError::MissingLayout)
    } else {
        None
    }
}

/// Accepts a bundle of the supported version; fails with
/// `VersionMismatch` otherwise.
pub fn check_version(payload: &Provenance) -> (r: Result<(), ExtractorError>)
    ensures
        r is Ok <==> payload.version@ == intoto_version(),
        r is Err ==> r == Err::<(), ExtractorError>(ExtractorError::VersionMismatch),
{
    let v = default_version();
    if payload.version == v {
        Ok(())
    } else {
        Err(ExtractorError::VersionMismatch)
    }
}

/// The provenance formats that have an extractor.
#[derive(Debug, Clone, Copy, PartialEq, Eq, Structural)]
pub enum ProvenanceKind {
    InToto,
}

/// The tag that selects the in-toto extractor.
pub open spec fn in_toto_tag() -> Seq<char> {
    seq!['i', 'n', '-', 't', 'o', 't', 'o']
}

/// The extractor a provenance message's type tag selects, if any.
pub fn provenance_kind(tag: &String) -> (r: Option<ProvenanceKind>)
    ensures
        r == if tag@ == in_toto_tag() {
            Some(ProvenanceKind::InToto)
        } else {
            None::<ProvenanceKind>
        },
{
    proof {
        reveal_strlit("in-toto");
    }
    let t = "in-toto".to_string();
    assert(t@ =~= in_toto_tag());
    if *tag == t {
        Some(ProvenanceKind::InToto)
    } else {
        None
    }
}

/// The extractor for in-toto provenance.
#[derive(Debug)]
pub struct InTotoExtractor;

impl InTotoExtractor {
    pub fn new() -> (r: InTotoExtractor) {
        InTotoExtractor
    }

    /// Checks the bundle and lays out its files under `tempdir`: the path,
    /// parent directory and decoded content of each, the first layout
    /// file, and every public key file.
    pub fn plan(&self, payload: &Provenance, tempdir: &str) -> (r: Result<ExtractionPlan, ExtractorError>)
        ensures
            r is Ok <==> plan_failure(*payload, tempdir@) is None,
            r matches Err(e) ==> plan_failure(*payload, tempdir@) == Some(e),
            r matches Ok(plan) ==> {
                &&& plan.line_normalization == payload.line_normalization
                &&& plan.files@.len() == payload.files@.len()
                &&& forall|i: int|
                    0 <= i < plan.files@.len() ==> {
                        &&& (#[trigger] plan.files@[i]).path@ == planned_path(tempdir@, payload.files@[i].0@)
                        &&& encode_utf8(plan.files@[i].dir@) == crate::paths::dir_part(encode_utf8(plan.files@[i].path@))
                        &&& base64_decoded(payload.files@[i].1@) == Some(plan.files@[i].content@)
                    }
                &&& exists|k: int|
                    0 <= k < payload.files@.len() && plan.layout_path@ == planned_path(tempdir@, payload.files@[k].0@)
                        && is_layout(plan.layout_path@) && forall|j: int|
                        0 <= j < k ==> !is_layout(planned_path(tempdir@, payload.files@[j].0@))
                &&& plan.pub_key_paths@.map_values(|s: String| s@) == pub_keys(planned_paths(tempdir@, payload.files@))
            },
    {
        match check_version(payload) {
            Err(e) => return Err(e),
            Ok(()) => {},
        }
        let n: usize = payload.files.len();
        let mut files: Vec<PlannedFile> = Vec::new();
        let mut i: usize = 0;
        while i < n
            invariant
                n == payload.files@.len(),
                payload.version@ == intoto_version(),
                i <= n,
                files@.len() == i,
                forall|j: int| 0 <= j < i ==> base64_decoded(payload.files@[j].1@) is Some,
                forall|j: int|
                    0 <= j < i ==> {
                        &&& (#[trigger] files@[j]).path@ == planned_path(tempdir@, payload.files@[j].0@)
                        &&& encode_utf8(files@[j].dir@) == crate::paths::dir_part(encode_utf8(files@[j].path@))
                        &&& base64_decoded(payload.files@[j].1@) == Some(files@[j].content@)
                    },
            decreases n - i,
        {
            let (path, dir) = get_file_path(tempdir, payload.files[i].0.as_str());
            let content = match decode_base64(payload.files[i].1.as_str()) {
                None => {
                    assert(base64_decoded(payload.files@[i as int].1@) is None);
                    return Err(ExtractorError::ContentEncoding);
                },
                Some(c) => c,
            };
            files.push(PlannedFile { path, dir, content });
            i = i + 1;
        }
        let mut layout: Option<usize> = None;
        let mut keys: Vec<String> = Vec::new();
        let mut k: usize = 0;
        let ghost paths = planned_paths(tempdir@, payload.files@);
        while k < n
            invariant
                n == payload.files@.len(),
                payload.version@ == intoto_version(),
                forall|j: int| 0 <= j < n ==> base64_decoded(payload.files@[j].1@) is Some,
                files@.len() == n,
                k <= n,
                paths == planned_paths(tempdir@, payload.files@),
                forall|j: int| 0 <= j < n ==> (#[trigger] files@[j]).path@ == planned_path(tempdir@, payload.files@[j].0@),
                match layout {
                    None => forall|j: int| 0 <= j < k ==> !is_layout(planned_path(tempdir@, payload.files@[j].0@)),
                    Some(l) => l < k && is_layout(planned_path(tempdir@, payload.files@[l as int].0@)) && forall|j: int|
                        0 <= j < l ==> !is_layout(planned_path(tempdir@, payload.files@[j].0@)),
                },
                keys@.map_values(|s: String| s@) == pub_keys(paths.subrange(0, k as int)),
            decreases n - k,
        {
            let p = files[k].path.as_str();
            if layout.is_none() && is_layout_path(p) {
                layout = Some(k);
            }
            let ghost before = keys@;
            if is_pub_key_path(p) {
                keys.push(files[k].path.clone());
                assert(keys@.map_values(|s: String| s@) =~= before.map_values(|s: String| s@).push(paths[k as int]));
            }
            assert(paths.subrange(0, k + 1).drop_last() =~= paths.subrange(0, k as int));
            assert(pub_keys(paths.subrange(0, k + 1)) =~= pub_keys(paths.subrange(0, k as int)) + if is_pub_key(paths[k as int]) {
                seq![paths[k as int]]
            } else {
                Seq::empty()
            });
            k = k + 1;
        }
        assert(paths.subrange(0, n as int) =~= paths);
        let l = match layout {
            None => return Err(ExtractorError::MissingLayout),
            Some(l) => l,
        };
        let layout_path = files[l].path.clone();
        Ok(ExtractionPlan { files, layout_path, pub_key_paths: keys, line_normalization: payload.line_normalization })
    }

    /// The reference values of a bundle once the external link verifier has
    /// run: none when it accepted the bundle (the link files it checks carry
    /// no digest of the measured memory yet), `VerificationFailed` when it
    /// rejected it.
    pub fn finish(&self, verified: bool) -> (r: Result<Vec<ReferenceValue>, ExtractorError>)
        ensures
            verified ==> (r matches Ok(v) && v@.len() == 0),
            !verified ==> r == Err::<Vec<ReferenceValue>, ExtractorError>(ExtractorError::VerificationFailed),
    {
        if verified {
            Ok(Vec::new())
        } else {
            Err(ExtractorError::VerificationFailed)
        }
    }
}

} // verus!
