use tiny_decision_core::hf::{
    decode_hf_token, detect_formats, digest_accepted, encode_hf_token, formats_from_lowercase_names,
    has_decision_head, hf_token_label, model_meta_url, part_file_name, protect_data, resolve_url,
    resume_range_header, search_models_url, sha256_matches, token_from_secret, unprotect_data, DownloadControl,
    DownloadSession, DpapiError, DpapiStore, HfSibling,
};
use tiny_decision_core::types::{DownloadStatus, ModelFormat};

fn sibling(name: &str) -> HfSibling {
    HfSibling { rfilename: name.to_string(), size: None, blob_id: None, lfs: None }
}

#[test]
fn protected_secret_reads_back() {
    let mut store = DpapiStore::new();
    let label = hf_token_label();
    assert_eq!(label, "tiny-decision-hf-token");
    assert_eq!(unprotect_data(&store, label), Err(DpapiError::TokenNotFound));
    assert_eq!(protect_data(&mut store, b"hf_abc", label), Ok(()));
    protect_data(&mut store, b"other", "another-label").unwrap();
    assert_eq!(unprotect_data(&store, label), Ok(b"hf_abc".to_vec()));
    protect_data(&mut store, b"hf_new", label).unwrap();
    assert_eq!(unprotect_data(&store, label), Ok(b"hf_new".to_vec()));
    assert_eq!(unprotect_data(&store, "another-label"), Ok(b"other".to_vec()));
}

#[test]
fn token_file_is_base64_of_the_token() {
    assert_eq!(encode_hf_token("hf_abc"), "aGZfYWJj");
    assert_eq!(encode_hf_token("hf"), "aGY=");
    assert_eq!(encode_hf_token(""), "");
}

#[test]
fn token_file_round_trip() {
    for token in ["hf_XyZ123", "", "jeton-é-ü", "a"] {
        let encoded = encode_hf_token(token);
        assert_eq!(decode_hf_token(&encoded), Some(token.to_string()));
    }
}

#[test]
fn token_file_is_trimmed_before_decoding() {
    assert_eq!(decode_hf_token("  aGZfYWJj\n"), Some("hf_abc".to_string()));
}

#[test]
fn token_file_with_bad_contents_reads_nothing() {
    assert_eq!(decode_hf_token("not base64!"), None);
    // Valid Base64 of bytes that are not UTF-8.
    assert_eq!(decode_hf_token("/w=="), None);
}

#[test]
fn hub_urls() {
    assert_eq!(
        search_models_url("phi", None),
        "https://huggingface.co/api/models?search=phi&sort=downloads&limit=30"
    );
    assert_eq!(
        search_models_url("phi", Some("gguf")),
        "https://huggingface.co/api/models?search=phi&sort=downloads&limit=30&filter=gguf"
    );
    assert_eq!(model_meta_url("microsoft/phi-2"), "https://huggingface.co/api/models/microsoft/phi-2");
    assert_eq!(
        resolve_url("microsoft/phi-2", "model.gguf"),
        "https://huggingface.co/microsoft/phi-2/resolve/main/model.gguf"
    );
    assert_eq!(part_file_name("model.gguf"), "model.gguf.part");
}

#[test]
fn resume_header_is_decimal_offset() {
    assert_eq!(resume_range_header(0), "bytes=0-");
    assert_eq!(resume_range_header(1048576), "bytes=1048576-");
    assert_eq!(resume_range_header(u64::MAX), "bytes=18446744073709551615-");
}

#[test]
fn formats_are_listed_once_in_order_of_appearance() {
    let names: Vec<String> = ["model.onnx", "a.gguf", "b.gguf", "weights.safetensors", "x.pt", "readme.md"]
        .iter()
        .map(|s| s.to_string())
        .collect();
    assert_eq!(
        formats_from_lowercase_names(&names),
        vec![ModelFormat::Onnx, ModelFormat::Gguf, ModelFormat::SafeTensors, ModelFormat::TorchScript]
    );
}

#[test]
fn format_detection_ignores_case() {
    let siblings = vec![sibling("Model-Q4.GGUF"), sibling("config.json"), sibling("Weights.SafeTensors")];
    assert_eq!(detect_formats(&siblings), vec![ModelFormat::Gguf, ModelFormat::SafeTensors]);
    assert!(detect_formats(&[sibling("README.md")]).is_empty());
}

#[test]
fn decision_head_detection() {
    let arch = vec!["BertForSequenceClassification".to_string()];
    assert!(has_decision_head(&arch));
    let arch = vec!["LlamaForCausalLM".to_string(), "XDecisionHeadModel".to_string()];
    assert!(has_decision_head(&arch));
    let arch = vec!["LlamaForCausalLM".to_string()];
    assert!(!has_decision_head(&arch));
    assert!(!has_decision_head(&[]));
}

#[test]
fn digest_checks() {
    assert!(digest_accepted(None, "abcd"));
    assert!(digest_accepted(Some("abcd"), "abcd"));
    assert!(!digest_accepted(Some("ABCD"), "abcd"));
    assert!(sha256_matches(Some("ABCD"), "abcd"));
    assert!(!sha256_matches(Some("abce"), "abcd"));
    assert!(sha256_matches(None, "abcd"));
}

const SHA256_OF_ABC: &str = "ba7816bf8f01cfea414140de5dae2223b00361a396177a9cb410ff61f20015ad";
const SHA256_OF_EMPTY: &str = "e3b0c44298fc1c149afbf4c8996fb92427ae41e4649b934ca495991b7852b855";

#[test]
fn session_hashes_existing_bytes_and_chunks() {
    let mut s = DownloadSession::begin(b"a", Some(3));
    assert_eq!(s.bytes_written(), 1);
    assert_eq!(s.total_bytes(), Some(3));
    assert_eq!(s.status(), DownloadStatus::Downloading);
    s.record_chunk(b"b");
    s.record_chunk(b"c");
    assert_eq!(s.bytes_written(), 3);
    let expected = SHA256_OF_ABC.to_uppercase();
    let digest = s.finish(Some(expected.as_str()));
    assert_eq!(digest, SHA256_OF_ABC);
    assert_eq!(s.status(), DownloadStatus::Completed);
}

#[test]
fn session_without_expected_digest_completes() {
    let mut s = DownloadSession::begin(b"", None);
    let digest = s.finish(None);
    assert_eq!(digest, SHA256_OF_EMPTY);
    assert_eq!(s.status(), DownloadStatus::Completed);
}

#[test]
fn session_with_wrong_digest_fails() {
    let mut s = DownloadSession::begin(b"", None);
    s.record_chunk(b"abc");
    let digest = s.finish(Some(SHA256_OF_EMPTY));
    assert_eq!(digest, SHA256_OF_ABC);
    assert_eq!(s.status(), DownloadStatus::Failed);
}

#[test]
fn session_controls() {
    let mut s = DownloadSession::begin(b"xy", None);
    s.apply_control(DownloadControl::Run);
    assert_eq!(s.status(), DownloadStatus::Downloading);
    s.apply_control(DownloadControl::Pause);
    assert_eq!(s.status(), DownloadStatus::Paused);
    s.resume();
    assert_eq!(s.status(), DownloadStatus::Downloading);
    s.record_stream_error();
    assert_eq!(s.status(), DownloadStatus::Failed);
    assert_eq!(s.bytes_written(), 2);
    let mut c = DownloadSession::begin(b"", None);
    c.apply_control(DownloadControl::Cancel);
    assert_eq!(c.status(), DownloadStatus::Cancelled);
}

#[test]
fn ended_sessions_ignore_controls() {
    let mut c = DownloadSession::begin(b"ab", None);
    c.apply_control(DownloadControl::Cancel);
    c.apply_control(DownloadControl::Run);
    c.apply_control(DownloadControl::Pause);
    assert_eq!(c.status(), DownloadStatus::Cancelled);
    assert_eq!(c.bytes_written(), 2);
    let mut f = DownloadSession::begin(b"", None);
    f.finish(None);
    f.apply_control(DownloadControl::Cancel);
    assert_eq!(f.status(), DownloadStatus::Completed);
}

#[test]
fn paused_sessions_follow_controls() {
    let mut s = DownloadSession::begin(b"", None);
    s.apply_control(DownloadControl::Pause);
    s.apply_control(DownloadControl::Pause);
    assert_eq!(s.status(), DownloadStatus::Paused);
    s.apply_control(DownloadControl::Run);
    assert_eq!(s.status(), DownloadStatus::Downloading);
    s.apply_control(DownloadControl::Pause);
    s.apply_control(DownloadControl::Cancel);
    assert_eq!(s.status(), DownloadStatus::Cancelled);
}

#[test]
fn resumed_download_digest_equals_uninterrupted() {
    let mut resumed = DownloadSession::begin(b"a", None);
    resumed.record_chunk(b"bc");
    let mut full = DownloadSession::begin(b"", None);
    full.record_chunk(b"ab");
    full.record_chunk(b"c");
    assert_eq!(resumed.finish(None), full.finish(None));
}

#[test]
fn last_secret_stored_under_a_label_wins() {
    let mut store = DpapiStore::new();
    protect_data(&mut store, b"first", "l").unwrap();
    protect_data(&mut store, b"second", "l").unwrap();
    protect_data(&mut store, b"x", "m").unwrap();
    assert_eq!(unprotect_data(&store, "l"), Ok(b"second".to_vec()));
    assert_eq!(unprotect_data(&store, "l"), Ok(b"second".to_vec()));
}

#[test]
fn secret_bytes_become_a_token() {
    assert_eq!(token_from_secret(b"hf_abc".to_vec()), Some("hf_abc".to_string()));
    assert_eq!(token_from_secret(vec![0xff, 0xfe]), None);
}
