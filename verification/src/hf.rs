//! Hugging Face Hub integration: model metadata, addresses, format
//! detection, the access token's storage, and the bookkeeping of resumable
//! downloads with their SHA-256 integrity check.
//!
//! HTTP requests and file writes are performed by the caller; this module
//! decides what to request and what a response means, hashes the bytes the
//! caller writes, and moves a download session between its states.

use vstd::prelude::*;
use crate::table::KeyedTable;
use crate::text::{occurs_at, chars_of, ends_with_chars, ends_with_seq, str_equal, to_lowercase, unicode_lowercase, contains_chars, contains_seq, push_char, trim_str, unicode_trim, is_ascii_graphic, string_from_utf8};
use vstd::utf8::{decode_utf8, encode_utf8, valid_utf8};
use crate::types::{DownloadStatus, ModelFormat};

verus! {

/// Minimal representation of a model returned by the Hub search API.
pub struct HfModelSummary {
    pub model_id: String,
    pub pipeline_tag: Option<String>,
    pub downloads: Option<u64>,
    pub likes: Option<u64>,
    pub private: bool,
    pub tags: Vec<String>,
    pub siblings: Vec<HfSibling>,
    pub last_modified: Option<String>,
    pub library_name: Option<String>,
}

/// A single file within a Hub repository.
pub struct HfSibling {
    pub rfilename: String,
    pub size: Option<u64>,
    pub blob_id: Option<String>,
    pub lfs: Option<HfLfsMeta>,
}

/// LFS metadata for a sibling file.
pub struct HfLfsMeta {
    pub sha256: String,
    pub size: u64,
    pub pointer_size: u64,
}

// ─────────────────────────────────────────────────────────────────────────────
// Secret store
// ─────────────────────────────────────────────────────────────────────────────

/// Labelled secrets held by the process (the store behind the platform's
/// data-protection API).
pub struct DpapiStore {
    entries: KeyedTable<Vec<u8>>,
}

/// Why a secret could not be read back.
#[derive(Clone, Copy, Debug, PartialEq, Eq, Structural)]
pub enum DpapiError {
    /// No secret is stored under the label.
    TokenNotFound,
}

impl DpapiStore {
    /// The stored secrets by label.
    pub closed spec fn view(&self) -> Map<Seq<char>, Seq<u8>> {
        self.entries@.map_values(|v: Vec<u8>| v@)
    }

    /// An empty store.
    pub fn new() -> (s: Self)
        ensures
            s@ == Map::<Seq<char>, Seq<u8>>::empty(),
    {
        let s = DpapiStore { entries: KeyedTable::new() };
        assert(s@ =~= Map::<Seq<char>, Seq<u8>>::empty());
        s
    }
}

/// Stores `data` under `label`, replacing what was stored there.
pub fn protect_data(store: &mut DpapiStore, data: &[u8], label: &str) -> (r: Result<(), DpapiError>)
    ensures
        r is Ok,
        final(store)@ == old(store)@.insert(label@, data@),
{
    store.entries.insert(String::from_str(label), vstd::slice::slice_to_vec(data));
    assert(store@ =~= old(store)@.insert(label@, data@));
    Ok(())
}

/// The secret stored under `label`; an error when there is none.
pub fn unprotect_data(store: &DpapiStore, label: &str) -> (r: Result<Vec<u8>, DpapiError>)
    ensures
        match r {
            Ok(v) => store@.contains_key(label@) && v@ == store@[label@],
            Err(e) => e == DpapiError::TokenNotFound && !store@.contains_key(label@),
        },
{
    match store.entries.get(label) {
        Some(v) => Ok(v.clone()),
        None => Err(DpapiError::TokenNotFound),
    }
}

/// The label under which the Hub access token is kept.
pub fn hf_token_label() -> (l: &'static str)
    ensures
        l@ == "tiny-decision-hf-token"@,
{
    "tiny-decision-hf-token"
}

/// Reading a label back right after storing it gives the stored bytes;
/// other labels are unaffected.
pub proof fn lemma_protect_then_unprotect(before: Map<Seq<char>, Seq<u8>>, label: Seq<char>, data: Seq<u8>, other: Seq<char>)
    requires
        other != label,
    ensures
        before.insert(label, data).contains_key(label),
        before.insert(label, data)[label] == data,
        before.insert(label, data).contains_key(other) == before.contains_key(other),
        before.contains_key(other) ==> before.insert(label, data)[other] == before[other],
{
}

/// The secrets held after storing each `(label, data)` of `ops` in turn,
/// starting from `before` (what a sequence of `protect_data` calls does).
pub open spec fn after_stores(before: Map<Seq<char>, Seq<u8>>, ops: Seq<(Seq<char>, Seq<u8>)>) -> Map<
    Seq<char>,
    Seq<u8>,
>
    decreases ops.len(),
{
    if ops.len() == 0 {
        before
    } else {
        after_stores(before, ops.drop_last()).insert(ops.last().0, ops.last().1)
    }
}

/// The last secret stored under a label is the one read back under it,
/// whatever is stored under other labels afterwards.
pub proof fn lemma_last_store_wins(before: Map<Seq<char>, Seq<u8>>, ops: Seq<(Seq<char>, Seq<u8>)>, i: int)
    requires
        0 <= i < ops.len(),
        forall|j: int| i < j < ops.len() ==> #[trigger] ops[j].0 != ops[i].0,
    ensures
        after_stores(before, ops).contains_key(ops[i].0),
        after_stores(before, ops)[ops[i].0] == ops[i].1,
    decreases ops.len(),
{
    if i < ops.len() - 1 {
        let rest = ops.drop_last();
        assert forall|j: int| i < j < rest.len() implies #[trigger] rest[j].0 != rest[i].0 by {
            assert(ops[j].0 != ops[i].0);
        }
        lemma_last_store_wins(before, rest, i);
        assert(ops[ops.len() - 1].0 != ops[i].0);
    }
}

// ─────────────────────────────────────────────────────────────────────────────
// Token file
// ─────────────────────────────────────────────────────────────────────────────

/// The standard-alphabet, padded Base64 encoding of `bytes`, as
/// `base64::encode` produces it.
pub uninterp spec fn base64_standard_encode(bytes: Seq<u8>) -> Seq<char>;

/// What `base64::decode` recovers from `text`: the bytes, or `None` where it
/// reports an error.
pub uninterp spec fn base64_standard_decode(text: Seq<char>) -> Option<Seq<u8>>;

/// A character of the standard Base64 alphabet, or the padding `=`.
pub open spec fn is_base64_char(c: char) -> bool {
    ('A' <= c && c <= 'Z') || ('a' <= c && c <= 'z') || ('0' <= c && c <= '9') || c == '+'
        || c == '/' || c == '='
}

/// `base64::encode` (standard alphabet, padded). The encoding is named, not
/// described; what is stated of it is that every character it writes is from
/// the alphabet `A-Z a-z 0-9 + /` or the padding `=`. The call panics when
/// the encoded length does not fit in a `usize`, which the bound rules out.
#[verifier::external_body]
#[allow(deprecated)]
fn base64_encode(bytes: &[u8]) -> (r: String)
    requires
        4 * ((bytes@.len() + 2) / 3) <= isize::MAX,
    ensures
        r@ == base64_standard_encode(bytes@),
        forall|i: int| 0 <= i < r@.len() ==> is_base64_char(#[trigger] r@[i]),
{
    base64::encode(bytes)
}

/// `base64::decode` (standard alphabet, canonical padding required), with
/// its error turned into `None`. The decoding is named, not described; what
/// is stated of it is that the encoding of any bytes decodes back to them.
#[verifier::external_body]
#[allow(deprecated)]
fn base64_decode(text: &str) -> (r: Option<Vec<u8>>)
    ensures
        r is Some <==> base64_standard_decode(text@) is Some,
        r matches Some(v) ==> base64_standard_decode(text@) == Some(v@),
        forall|b: Seq<u8>| #[trigger] base64_standard_encode(b) == text@ ==> r is Some && r.unwrap()@ == b,
{
    base64::decode(text).ok()
}

/// The token read from a token file holding `contents`: the contents with
/// surrounding white space trimmed, Base64-decoded, and read as UTF-8;
/// `None` where the decoding or the UTF-8 check fails.
pub open spec fn token_from_file(contents: Seq<char>) -> Option<Seq<char>> {
    match base64_standard_decode(unicode_trim(contents)) {
        Some(b) => if valid_utf8(b) {
            Some(decode_utf8(b))
        } else {
            None
        },
        None => None,
    }
}

/// The characters of an optional string.
pub open spec fn opt_string_view(o: Option<String>) -> Option<Seq<char>> {
    match o {
        Some(s) => Some(s@),
        None => None,
    }
}

/// What reading a token file guarantees when the file holds only Base64
/// characters: if it holds the encoding of valid UTF-8 bytes, the token read
/// is those bytes decoded.
pub open spec fn reads_back_encoding(contents: Seq<char>, token: Option<Seq<char>>) -> bool {
    (forall|i: int| 0 <= i < contents.len() ==> is_base64_char(#[trigger] contents[i])) ==> forall|
        b: Seq<u8>,
    |
        #![trigger base64_standard_encode(b)]
        base64_standard_encode(b) == contents && valid_utf8(b) ==> token == Some(decode_utf8(b))
}

/// The token held by the bytes read back from the secret store: those
/// bytes as UTF-8 text, or `None` when they are not valid UTF-8.
pub fn token_from_secret(bytes: Vec<u8>) -> (token: Option<String>)
    ensures
        token is Some <==> valid_utf8(bytes@),
        token matches Some(t) ==> t@ == decode_utf8(bytes@),
{
    string_from_utf8(bytes)
}

/// The contents of the token file for `token` on platforms without a
/// data-protection API: the Base64 encoding of its UTF-8 bytes.
pub fn encode_hf_token(token: &str) -> (encoded: String)
    requires
        4 * ((encode_utf8(token@).len() + 2) / 3) <= isize::MAX,
    ensures
        encoded@ == base64_standard_encode(encode_utf8(token@)),
        forall|i: int| 0 <= i < encoded@.len() ==> is_base64_char(#[trigger] encoded@[i]),
{
    base64_encode(token.as_bytes())
}

/// The token held by a token file with `contents`, or `None` when the file
/// does not hold the Base64 encoding of UTF-8 text.
pub fn decode_hf_token(contents: &str) -> (token: Option<String>)
    ensures
        opt_string_view(token) == token_from_file(contents@),
        reads_back_encoding(contents@, opt_string_view(token)),
{
    let trimmed = trim_str(contents);
    proof {
        if forall|i: int| 0 <= i < contents@.len() ==> is_base64_char(#[trigger] contents@[i]) {
            assert forall|i: int| 0 <= i < contents@.len() implies is_ascii_graphic(
                #[trigger] contents@[i],
            ) by {
                assert(is_base64_char(contents@[i]));
            }
        }
    }
    match base64_decode(trimmed) {
        Some(bytes) => string_from_utf8(bytes),
        None => None,
    }
}

/// A token written with `encode_hf_token` reads back, through
/// `decode_hf_token`, as the same token.
pub proof fn lemma_token_file_round_trip(token: Seq<char>, encoded: Seq<char>, read_back: Option<Seq<char>>)
    requires
        encoded == base64_standard_encode(encode_utf8(token)),
        forall|i: int| 0 <= i < encoded.len() ==> is_base64_char(#[trigger] encoded[i]),
        reads_back_encoding(encoded, read_back),
    ensures
        read_back == Some(token),
{
    vstd::utf8::encode_utf8_valid_utf8(token);
    vstd::utf8::encode_utf8_decode_utf8(token);
    assert(base64_standard_encode(encode_utf8(token)) == encoded);
}

// ─────────────────────────────────────────────────────────────────────────────
// Hub addresses
// ─────────────────────────────────────────────────────────────────────────────

/// The Hub search URL: the 30 most downloaded models matching `query`,
/// optionally restricted to a pipeline tag.
pub fn search_models_url(query: &str, filter: Option<&str>) -> (url: String)
    ensures
        url@ == "https://huggingface.co/api/models?search="@ + query@ + "&sort=downloads&limit=30"@
            + match filter {
            Some(f) => "&filter="@ + f@,
            None => Seq::<char>::empty(),
        },
{
    let mut url = String::from_str("https://huggingface.co/api/models?search=");
    url.append(query);
    url.append("&sort=downloads&limit=30");
    match filter {
        Some(f) => {
            url.append("&filter=");
            url.append(f);
        },
        None => {
            assert(url@ + Seq::<char>::empty() =~= url@);
        },
    }
    url
}

/// The metadata URL of a model (includes its file list).
pub fn model_meta_url(model_id: &str) -> (url: String)
    ensures
        url@ == "https://huggingface.co/api/models/"@ + model_id@,
{
    let mut url = String::from_str("https://huggingface.co/api/models/");
    url.append(model_id);
    url
}

/// The download URL of a file on the main branch of a repository.
pub fn resolve_url(repo_id: &str, filename: &str) -> (url: String)
    ensures
        url@ == "https://huggingface.co/"@ + repo_id@ + "/resolve/main/"@ + filename@,
{
    let mut url = String::from_str("https://huggingface.co/");
    url.append(repo_id);
    url.append("/resolve/main/");
    url.append(filename);
    url
}

/// The name of the partial file a download writes to: `<filename>.part`.
pub fn part_file_name(filename: &str) -> (name: String)
    ensures
        name@ == filename@ + ".part"@,
{
    let mut name = String::from_str(filename);
    name.append(".part");
    name
}

/// The decimal digit character for `d < 10`.
pub open spec fn digit_char(d: int) -> char {
    if d == 0 {
        '0'
    } else if d == 1 {
        '1'
    } else if d == 2 {
        '2'
    } else if d == 3 {
        '3'
    } else if d == 4 {
        '4'
    } else if d == 5 {
        '5'
    } else if d == 6 {
        '6'
    } else if d == 7 {
        '7'
    } else if d == 8 {
        '8'
    } else {
        '9'
    }
}

/// The decimal representation of `n`, without leading zeros.
pub open spec fn decimal(n: nat) -> Seq<char>
    decreases n,
{
    if n < 10 {
        seq![digit_char(n as int)]
    } else {
        decimal(n / 10).push(digit_char((n % 10) as int))
    }
}

pub(crate) fn push_decimal(out: &mut String, n: u64)
    ensures
        final(out)@ == old(out)@ + decimal(n as nat),
    decreases n,
{
    let digits: [char; 10] = ['0', '1', '2', '3', '4', '5', '6', '7', '8', '9'];
    if n < 10 {
        push_char(out, digits[n as usize]);
        assert(final(out)@ =~= old(out)@ + decimal(n as nat));
    } else {
        push_decimal(out, n / 10);
        let d = (n % 10) as usize;
        push_char(out, digits[d]);
        assert(final(out)@ =~= old(out)@ + decimal(n as nat));
    }
}

/// The `Range` header value that resumes a download after `already`
/// bytes: `bytes=<already>-`.
pub fn resume_range_header(already: u64) -> (h: String)
    ensures
        h@ == "bytes="@ + decimal(already as nat) + "-"@,
{
    let mut h = String::from_str("bytes=");
    push_decimal(&mut h, already);
    h.append("-");
    h
}

// ─────────────────────────────────────────────────────────────────────────────
// Capability probing
// ─────────────────────────────────────────────────────────────────────────────

/// The formats found among lowercased file names, each once, in order of
/// first appearance: `.gguf`, `.onnx`, `.safetensors` and `.pt` files.
pub open spec fn formats_found(names: Seq<Seq<char>>) -> Seq<ModelFormat>
    decreases names.len(),
{
    if names.len() == 0 {
        Seq::empty()
    } else {
        let before = formats_found(names.drop_last());
        let name = names.last();
        if ends_with_seq(name, ".gguf"@) {
            if before.contains(ModelFormat::Gguf) { before } else { before.push(ModelFormat::Gguf) }
        } else if ends_with_seq(name, ".onnx"@) {
            if before.contains(ModelFormat::Onnx) { before } else { before.push(ModelFormat::Onnx) }
        } else if ends_with_seq(name, ".safetensors"@) {
            if before.contains(ModelFormat::SafeTensors) {
                before
            } else {
                before.push(ModelFormat::SafeTensors)
            }
        } else if ends_with_seq(name, ".pt"@) {
            if before.contains(ModelFormat::TorchScript) {
                before
            } else {
                before.push(ModelFormat::TorchScript)
            }
        } else {
            before
        }
    }
}

fn vec_has_format(v: &Vec<ModelFormat>, f: ModelFormat) -> (b: bool)
    ensures
        b == v@.contains(f),
{
    let mut i: usize = 0;
    while i < v.len()
        invariant
            i <= v.len(),
            forall|j: int| 0 <= j < i ==> v@[j] != f,
        decreases v.len() - i,
    {
        if v[i] == f {
            return true;
        }
        i = i + 1;
    }
    false
}

/// The model formats offered by files whose lowercased names are `names`.
pub fn formats_from_lowercase_names(names: &[String]) -> (formats: Vec<ModelFormat>)
    ensures
        formats@ == formats_found(names@.map_values(|s: String| s@)),
{
    let ghost views = names@.map_values(|s: String| s@);
    let gguf = chars_of(".gguf");
    let onnx = chars_of(".onnx");
    let safetensors = chars_of(".safetensors");
    let pt = chars_of(".pt");
    let mut formats: Vec<ModelFormat> = Vec::new();
    let mut i: usize = 0;
    while i < names.len()
        invariant
            i <= names.len(),
            views == names@.map_values(|s: String| s@),
            gguf@ == ".gguf"@,
            onnx@ == ".onnx"@,
            safetensors@ == ".safetensors"@,
            pt@ == ".pt"@,
            formats@ == formats_found(views.take(i as int)),
        decreases names.len() - i,
    {
        let name = chars_of(names[i].as_str());
        assert(views.take(i + 1).drop_last() =~= views.take(i as int));
        assert(views.take(i + 1).last() == name@);
        if ends_with_chars(&name, &gguf) {
            if !vec_has_format(&formats, ModelFormat::Gguf) {
                formats.push(ModelFormat::Gguf);
            }
        } else if ends_with_chars(&name, &onnx) {
            if !vec_has_format(&formats, ModelFormat::Onnx) {
                formats.push(ModelFormat::Onnx);
            }
        } else if ends_with_chars(&name, &safetensors) {
            if !vec_has_format(&formats, ModelFormat::SafeTensors) {
                formats.push(ModelFormat::SafeTensors);
            }
        } else if ends_with_chars(&name, &pt) {
            if !vec_has_format(&formats, ModelFormat::TorchScript) {
                formats.push(ModelFormat::TorchScript);
            }
        }
        i = i + 1;
    }
    assert(views.take(names.len() as int) =~= views);
    formats
}

/// Detects the model formats available in a repository from its files'
/// extensions (compared case-insensitively).
pub fn detect_formats(siblings: &[HfSibling]) -> (formats: Vec<ModelFormat>)
    ensures
        formats@ == formats_found(siblings@.map_values(|s: HfSibling| unicode_lowercase(s.rfilename@))),
{
    let mut lowered: Vec<String> = Vec::new();
    let mut i: usize = 0;
    while i < siblings.len()
        invariant
            i <= siblings.len(),
            lowered@.len() == i,
            forall|j: int| 0 <= j < i ==> #[trigger] lowered@[j]@ == unicode_lowercase(siblings@[j].rfilename@),
        decreases siblings.len() - i,
    {
        lowered.push(to_lowercase(siblings[i].rfilename.as_str()));
        i = i + 1;
    }
    let formats = formats_from_lowercase_names(&lowered);
    assert(lowered@.map_values(|s: String| s@) =~= siblings@.map_values(
        |s: HfSibling| unicode_lowercase(s.rfilename@),
    ));
    formats
}

/// An architecture name that marks a typed decision head: a sequence or
/// token classification model, or one with a decision head.
pub open spec fn is_decision_architecture(a: Seq<char>) -> bool {
    contains_seq(a, "ForSequenceClassification"@) || contains_seq(a, "ForTokenClassification"@)
        || contains_seq(a, "DecisionHead"@)
}

/// A name holding `ForSequenceClassification`, `ForTokenClassification` or
/// `DecisionHead` anywhere (with any text before and after) marks a typed
/// decision head.
pub proof fn lemma_decision_head_markers(before: Seq<char>, after: Seq<char>)
    ensures
        is_decision_architecture(before + "ForSequenceClassification"@ + after),
        is_decision_architecture(before + "ForTokenClassification"@ + after),
        is_decision_architecture(before + "DecisionHead"@ + after),
{
    lemma_occurs_in_middle(before, "ForSequenceClassification"@, after);
    lemma_occurs_in_middle(before, "ForTokenClassification"@, after);
    lemma_occurs_in_middle(before, "DecisionHead"@, after);
}

proof fn lemma_occurs_in_middle(before: Seq<char>, pat: Seq<char>, after: Seq<char>)
    ensures
        contains_seq(before + pat + after, pat),
{
    let s = before + pat + after;
    assert(s.subrange(before.len() as int, (before.len() + pat.len()) as int) =~= pat);
    assert(occurs_at(s, pat, before.len() as int));
}

/// Whether a model's `config.json` architectures include a typed decision
/// head.
pub fn has_decision_head(architectures: &[String]) -> (b: bool)
    ensures
        b == exists|i: int| 0 <= i < architectures.len() && is_decision_architecture(#[trigger] architectures@[i]@),
        forall|i: int|
            0 <= i < architectures.len() && (contains_seq(architectures@[i]@, "ForSequenceClassification"@)
                || contains_seq(architectures@[i]@, "ForTokenClassification"@) || contains_seq(
                architectures@[i]@,
                "DecisionHead"@,
            )) ==> b,
{
    let seq_cls = chars_of("ForSequenceClassification");
    let tok_cls = chars_of("ForTokenClassification");
    let head = chars_of("DecisionHead");
    let mut i: usize = 0;
    while i < architectures.len()
        invariant
            i <= architectures.len(),
            seq_cls@ == "ForSequenceClassification"@,
            tok_cls@ == "ForTokenClassification"@,
            head@ == "DecisionHead"@,
            forall|j: int| 0 <= j < i ==> !is_decision_architecture(#[trigger] architectures@[j]@),
        decreases architectures.len() - i,
    {
        let a = chars_of(architectures[i].as_str());
        if contains_chars(&a, &seq_cls) || contains_chars(&a, &tok_cls) || contains_chars(&a, &head) {
            return true;
        }
        i = i + 1;
    }
    false
}

// ─────────────────────────────────────────────────────────────────────────────
// Download sessions
// ─────────────────────────────────────────────────────────────────────────────

/// Whether an expected digest (already lowercased) accepts the computed
/// hex digest: a missing expectation accepts any digest.
pub fn digest_accepted(expected_lowercase: Option<&str>, digest_hex: &str) -> (ok: bool)
    ensures
        ok == match expected_lowercase {
            Some(e) => e@ == digest_hex@,
            None => true,
        },
{
    match expected_lowercase {
        Some(e) => str_equal(e, digest_hex),
        None => true,
    }
}

/// Whether the SHA-256 recorded for a model (compared case-insensitively)
/// accepts the digest of the downloaded file; with nothing recorded, the
/// check is skipped.
pub fn sha256_matches(expected: Option<&str>, digest_hex: &str) -> (ok: bool)
    ensures
        ok == match expected {
            Some(e) => unicode_lowercase(e@) == digest_hex@,
            None => true,
        },
{
    match expected {
        Some(e) => {
            let lowered = to_lowercase(e);
            digest_accepted(Some(lowered.as_str()), digest_hex)
        },
        None => digest_accepted(None, digest_hex),
    }
}

// ─────────────────────────────────────────────────────────────────────────────
// Streaming SHA-256
// ─────────────────────────────────────────────────────────────────────────────

/// The incremental SHA-256 state of a download (`sha2::Sha256`), held
/// opaquely: the hasher type is an alias of a generic wrapper, which Verus
/// does not accept as a declared outside type.
#[verifier::external_body]
pub struct Sha256Stream {
    inner: sha2::Sha256,
}

/// The bytes fed to a SHA-256 stream since it was created or last reset.
pub uninterp spec fn sha256_stream_input(h: Sha256Stream) -> Seq<u8>;

/// The SHA-256 digest of `bytes`, as `sha2::Sha256` computes it.
pub uninterp spec fn sha256_digest(bytes: Seq<u8>) -> Seq<u8>;

impl Sha256Stream {
    /// A fresh stream (`Sha256::new`): nothing fed yet.
    #[verifier::external_body]
    pub(crate) fn new() -> (h: Self)
        ensures
            sha256_stream_input(h) == Seq::<u8>::empty(),
    {
        Sha256Stream { inner: <sha2::Sha256 as sha2::Digest>::new() }
    }

    /// Feeds `data` to the stream (`Digest::update`).
    #[verifier::external_body]
    pub(crate) fn update(&mut self, data: &[u8])
        ensures
            sha256_stream_input(*final(self)) == sha256_stream_input(*old(self)) + data@,
    {
        sha2::Digest::update(&mut self.inner, data)
    }

    /// The 32-byte digest of everything fed, leaving the stream fresh
    /// (`Digest::finalize_reset`).
    #[verifier::external_body]
    pub(crate) fn finalize_reset(&mut self) -> (d: Vec<u8>)
        ensures
            d@ == sha256_digest(sha256_stream_input(*old(self))),
            d@.len() == 32,
            sha256_stream_input(*final(self)) == Seq::<u8>::empty(),
    {
        sha2::Digest::finalize_reset(&mut self.inner).to_vec()
    }
}

/// The lowercase hexadecimal digit for `d < 16`.
pub open spec fn hex_lower_digit(d: int) -> char {
    if d < 10 {
        digit_char(d)
    } else if d == 10 {
        'a'
    } else if d == 11 {
        'b'
    } else if d == 12 {
        'c'
    } else if d == 13 {
        'd'
    } else if d == 14 {
        'e'
    } else {
        'f'
    }
}

/// Two lowercase hexadecimal digits per byte, high nibble first.
pub open spec fn hex_lower(bytes: Seq<u8>) -> Seq<char>
    decreases bytes.len(),
{
    if bytes.len() == 0 {
        Seq::empty()
    } else {
        let b = bytes.last();
        hex_lower(bytes.drop_last()) + seq![hex_lower_digit((b / 16) as int), hex_lower_digit((b % 16) as int)]
    }
}

/// Hex-encodes `bytes` in lowercase (`hex::encode`).
#[verifier::external_body]
fn hex_encode(bytes: &[u8]) -> (s: String)
    ensures
        s@ == hex_lower(bytes@),
{
    hex::encode(bytes)
}

// ─────────────────────────────────────────────────────────────────────────────
// Download sessions
// ─────────────────────────────────────────────────────────────────────────────

/// A control signal sent to a running download.
#[derive(Clone, Copy, Debug, PartialEq, Eq, Structural)]
pub enum DownloadControl {
    Run,
    Pause,
    Cancel,
}

/// A status from which a session never moves again.
pub open spec fn is_terminal(s: DownloadStatus) -> bool {
    s == DownloadStatus::Completed || s == DownloadStatus::Failed || s == DownloadStatus::Cancelled
}

/// The status a session moves to on a control signal: an ended session
/// stays as it is; otherwise cancel ends it, pause suspends it and run
/// lets it go on.
pub open spec fn control_outcome(status: DownloadStatus, control: DownloadControl) -> DownloadStatus {
    if is_terminal(status) {
        status
    } else {
        match control {
            DownloadControl::Run => DownloadStatus::Downloading,
            DownloadControl::Pause => DownloadStatus::Paused,
            DownloadControl::Cancel => DownloadStatus::Cancelled,
        }
    }
}

/// Whether the digest check of a finished download passes: the recorded
/// SHA-256, lowercased, equals the computed hex digest, or nothing is
/// recorded.
pub open spec fn digest_check(expected: Option<Seq<char>>, digest_hex: Seq<char>) -> bool {
    match expected {
        Some(e) => unicode_lowercase(e) == digest_hex,
        None => true,
    }
}

/// The characters of an optional string slice.
pub open spec fn opt_str_view(o: Option<&str>) -> Option<Seq<char>> {
    match o {
        Some(s) => Some(s@),
        None => None,
    }
}

/// The bookkeeping of one download: the bytes in the partial file, the size
/// the server announced, the status, and the running SHA-256 of the file's
/// bytes.
pub struct DownloadSession {
    bytes_written: u64,
    total_bytes: Option<u64>,
    status: DownloadStatus,
    hasher: Sha256Stream,
}

impl DownloadSession {
    /// Until the session ends, the hasher has been fed exactly the bytes of
    /// the partial file.
    #[verifier::type_invariant]
    spec fn hashes_whole_file(self) -> bool {
        !is_terminal(self.status) ==> sha256_stream_input(self.hasher).len() == self.bytes_written
    }

    /// Bytes in the partial file.
    pub closed spec fn written(&self) -> u64 {
        self.bytes_written
    }

    /// The size the server announced, if any.
    pub closed spec fn total(&self) -> Option<u64> {
        self.total_bytes
    }

    /// The status of the session.
    pub closed spec fn state(&self) -> DownloadStatus {
        self.status
    }

    /// The bytes hashed so far: those of the partial file while the
    /// session runs.
    pub closed spec fn hashed(&self) -> Seq<u8> {
        sha256_stream_input(self.hasher)
    }

    /// Bytes in the partial file.
    pub fn bytes_written(&self) -> (n: u64)
        ensures
            n == self.written(),
    {
        self.bytes_written
    }

    /// The size the server announced, if any.
    pub fn total_bytes(&self) -> (t: Option<u64>)
        ensures
            t == self.total(),
    {
        self.total_bytes
    }

    /// The status of the session.
    pub fn status(&self) -> (s: DownloadStatus)
        ensures
            s == self.state(),
    {
        self.status
    }

    /// Starts (or resumes) a download whose partial file already holds
    /// `existing`; those bytes are hashed first.
    pub fn begin(existing: &[u8], total_bytes: Option<u64>) -> (s: Self)
        requires
            existing@.len() <= u64::MAX,
        ensures
            s.written() == existing@.len(),
            s.hashed() == existing@,
            s.total() == total_bytes,
            s.state() == DownloadStatus::Downloading,
    {
        let mut hasher = Sha256Stream::new();
        hasher.update(existing);
        assert(sha256_stream_input(hasher) =~= existing@);
        DownloadSession {
            bytes_written: existing.len() as u64,
            total_bytes,
            status: DownloadStatus::Downloading,
            hasher,
        }
    }

    /// Applies a control signal: cancel ends a running or paused download,
    /// pause suspends it, run lets it go on. A session that has ended
    /// (completed, failed or cancelled) ignores every signal.
    pub fn apply_control(&mut self, control: DownloadControl)
        ensures
            final(self).written() == old(self).written(),
            final(self).total() == old(self).total(),
            final(self).hashed() == old(self).hashed(),
            final(self).state() == control_outcome(old(self).state(), control),
            !is_terminal(final(self).state()) ==> final(self).hashed().len() == final(self).written(),
    {
        proof {
            use_type_invariant(&*self);
        }
        if self.status == DownloadStatus::Completed || self.status == DownloadStatus::Failed
            || self.status == DownloadStatus::Cancelled {
            return;
        }
        match control {
            DownloadControl::Run => {
                self.status = DownloadStatus::Downloading;
            },
            DownloadControl::Pause => {
                self.status = DownloadStatus::Paused;
            },
            DownloadControl::Cancel => {
                self.status = DownloadStatus::Cancelled;
            },
        }
    }

    /// Resumes a paused download once the control signal is no longer
    /// pause.
    pub fn resume(&mut self)
        requires
            old(self).state() == DownloadStatus::Paused,
        ensures
            final(self).written() == old(self).written(),
            final(self).total() == old(self).total(),
            final(self).hashed() == old(self).hashed(),
            final(self).state() == DownloadStatus::Downloading,
            final(self).hashed().len() == final(self).written(),
    {
        proof {
            use_type_invariant(&*self);
        }
        self.status = DownloadStatus::Downloading;
    }

    /// Records a chunk written to the partial file, feeding it to the hash.
    pub fn record_chunk(&mut self, chunk: &[u8])
        requires
            old(self).state() == DownloadStatus::Downloading,
            old(self).written() + chunk@.len() <= u64::MAX,
        ensures
            final(self).written() == old(self).written() + chunk@.len(),
            final(self).hashed() == old(self).hashed() + chunk@,
            final(self).hashed().len() == final(self).written(),
            final(self).total() == old(self).total(),
            final(self).state() == DownloadStatus::Downloading,
    {
        proof {
            use_type_invariant(&*self);
        }
        let n = chunk.len() as u64;
        // The session is marked failed while its hasher is out, so that it
        // ends up failed should hashing unwind.
        self.status = DownloadStatus::Failed;
        let mut hasher = Sha256Stream::new();
        std::mem::swap(&mut hasher, &mut self.hasher);
        hasher.update(chunk);
        std::mem::swap(&mut hasher, &mut self.hasher);
        self.bytes_written = self.bytes_written + n;
        self.status = DownloadStatus::Downloading;
    }

    /// Records a failure of the byte stream.
    pub fn record_stream_error(&mut self)
        requires
            old(self).state() == DownloadStatus::Downloading,
        ensures
            final(self).written() == old(self).written(),
            final(self).total() == old(self).total(),
            final(self).hashed() == old(self).hashed(),
            final(self).state() == DownloadStatus::Failed,
    {
        self.status = DownloadStatus::Failed;
    }

    /// Concludes a fully streamed download: computes the hex SHA-256 of the
    /// file and checks it against the recorded one (if any). The session
    /// completes when the check passes and fails otherwise; the digest is
    /// returned either way.
    pub fn finish(&mut self, expected: Option<&str>) -> (digest_hex: String)
        requires
            old(self).state() == DownloadStatus::Downloading,
        ensures
            digest_hex@ == hex_lower(sha256_digest(old(self).hashed())),
            final(self).written() == old(self).written(),
            final(self).total() == old(self).total(),
            final(self).state() == if digest_check(opt_str_view(expected), digest_hex@) {
                DownloadStatus::Completed
            } else {
                DownloadStatus::Failed
            },
            is_terminal(final(self).state()),
    {
        proof {
            use_type_invariant(&*self);
        }
        self.status = DownloadStatus::Failed;
        let mut hasher = Sha256Stream::new();
        std::mem::swap(&mut hasher, &mut self.hasher);
        let digest = hasher.finalize_reset();
        let digest_hex = hex_encode(digest.as_slice());
        if sha256_matches(expected, digest_hex.as_str()) {
            self.status = DownloadStatus::Completed;
        }
        digest_hex
    }
}

/// The bytes a session has hashed after starting on `existing` and then
/// recording `chunks` in order (`begin` hashes `existing`, and each
/// `record_chunk` appends its chunk).
pub open spec fn fed(existing: Seq<u8>, chunks: Seq<Seq<u8>>) -> Seq<u8>
    decreases chunks.len(),
{
    if chunks.len() == 0 {
        existing
    } else {
        fed(existing, chunks.drop_last()) + chunks.last()
    }
}

/// The bytes of `chunks`, one after the other.
pub open spec fn joined(chunks: Seq<Seq<u8>>) -> Seq<u8> {
    fed(Seq::empty(), chunks)
}

proof fn lemma_fed_is_existing_then_joined(existing: Seq<u8>, chunks: Seq<Seq<u8>>)
    ensures
        fed(existing, chunks) == existing + joined(chunks),
    decreases chunks.len(),
{
    if chunks.len() > 0 {
        lemma_fed_is_existing_then_joined(existing, chunks.drop_last());
        lemma_fed_is_existing_then_joined(Seq::empty(), chunks.drop_last());
        assert(fed(existing, chunks) =~= existing + joined(chunks));
    } else {
        assert(existing + Seq::<u8>::empty() =~= existing);
    }
}

/// A download resumed after the first `k` bytes of `file`, whose chunks
/// carry the rest of the file, hashes exactly the bytes that an
/// uninterrupted download of the file hashes (the whole file, however the
/// server splits it into chunks), and so its digest check is the same.
pub proof fn lemma_resumed_download_matches_full(
    file: Seq<u8>,
    k: int,
    resumed_chunks: Seq<Seq<u8>>,
    full_chunks: Seq<Seq<u8>>,
)
    requires
        0 <= k <= file.len(),
        joined(resumed_chunks) == file.subrange(k, file.len() as int),
        joined(full_chunks) == file,
    ensures
        fed(file.subrange(0, k), resumed_chunks) == file,
        fed(Seq::empty(), full_chunks) == file,
        hex_lower(sha256_digest(fed(file.subrange(0, k), resumed_chunks))) == hex_lower(
            sha256_digest(fed(Seq::empty(), full_chunks)),
        ),
{
    lemma_fed_is_existing_then_joined(file.subrange(0, k), resumed_chunks);
    assert(file.subrange(0, k) + file.subrange(k, file.len() as int) =~= file);
}

} // verus!
