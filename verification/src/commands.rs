//! Request and response shapes of the desktop commands, with the parts of
//! the command handlers that are decisions rather than I/O: defaults, Hub
//! addresses, batch planning and version bookkeeping.

use vstd::prelude::*;
use crate::hf::{decimal, push_decimal};
use crate::text::{chars_of, contains_seq, ends_with_chars, ends_with_seq, occurs_at, push_char};

verus! {

broadcast use vstd::string::group_string_axioms;

/// Standard error envelope returned by all commands on failure.
pub struct CommandError {
    pub code: String,
    pub message: String,
}

impl CommandError {
    /// An error with the given code and message.
    pub fn new(code: &str, message: String) -> (e: Self)
        ensures
            e.code@ == code@,
            e.message == message,
    {
        CommandError { code: String::from_str(code), message }
    }

    /// The envelope of an unexpected internal failure.
    pub fn internal(message: String) -> (e: Self)
        ensures
            e.code@ == "INTERNAL_ERROR"@,
            e.message == message,
    {
        CommandError::new("INTERNAL_ERROR", message)
    }
}

/// A model found by the Hub search command.
pub struct HfModelSummary {
    pub model_id: String,
    pub name: String,
    pub author: String,
    pub downloads: u64,
    pub likes: u32,
    pub tags: Vec<String>,
    pub pipeline_tag: Option<String>,
    pub private: bool,
    pub last_modified: String,
}

/// The characters of an optional string slice, or none when absent.
pub open spec fn text_or_empty(o: Option<&str>) -> Seq<char> {
    match o {
        Some(t) => t@,
        None => Seq::empty(),
    }
}

/// The string entries of a JSON list, in order; other entries are skipped.
pub open spec fn string_entries(s: Seq<Option<String>>) -> Seq<Seq<char>>
    decreases s.len(),
{
    if s.len() == 0 {
        Seq::empty()
    } else {
        let rest = string_entries(s.drop_last());
        match s.last() {
            Some(t) => rest.push(t@),
            None => rest,
        }
    }
}

/// Keeps the string entries of a list, in order.
fn keep_strings(entries: Vec<Option<String>>) -> (kept: Vec<String>)
    ensures
        kept@.map_values(|t: String| t@) == string_entries(entries@),
{
    let mut kept: Vec<String> = Vec::new();
    let mut i: usize = 0;
    while i < entries.len()
        invariant
            i <= entries.len(),
            kept@.map_values(|t: String| t@) == string_entries(entries@.take(i as int)),
        decreases entries.len() - i,
    {
        assert(entries@.take(i + 1).drop_last() =~= entries@.take(i as int));
        match &entries[i] {
            Some(t) => {
                kept.push(t.clone());
            },
            None => {},
        }
        assert(kept@.map_values(|t: String| t@) =~= string_entries(entries@.take(i + 1)));
        i = i + 1;
    }
    assert(entries@.take(entries.len() as int) =~= entries@);
    kept
}

impl HfModelSummary {
    /// The summary of one row of a Hub search answer, built from the row's
    /// fields as found (`None` where a field is missing or not of the
    /// expected JSON type, and `None` entries for tags that are not
    /// strings): a missing id, author or date is empty, missing counts are
    /// zero, a missing privacy flag is false, the name is the part of the
    /// id after its last `/`, and the like count is kept in 32 bits
    /// (truncated).
    pub fn from_hub_row(
        model_id: Option<&str>,
        author: Option<&str>,
        downloads: Option<u64>,
        likes: Option<u64>,
        tags: Option<Vec<Option<String>>>,
        pipeline_tag: Option<String>,
        private: Option<bool>,
        last_modified: Option<&str>,
    ) -> (m: Self)
        ensures
            m.model_id@ == text_or_empty(model_id),
            m.name@ == after_last_slash(text_or_empty(model_id)),
            m.author@ == text_or_empty(author),
            m.downloads == match downloads {
                Some(d) => d,
                None => 0u64,
            },
            m.likes == match likes {
                Some(l) => l as u32,
                None => 0u32,
            },
            m.tags@.map_values(|t: String| t@) == match tags {
                Some(ts) => string_entries(ts@),
                None => Seq::<Seq<char>>::empty(),
            },
            m.pipeline_tag == pipeline_tag,
            m.private == match private {
                Some(p) => p,
                None => false,
            },
            m.last_modified@ == text_or_empty(last_modified),
    {
        let id: &str = match model_id {
            Some(t) => t,
            None => "",
        };
        proof {
            reveal_strlit("");
        }
        let name = model_short_name(id);
        let tag_list: Vec<String> = match tags {
            Some(ts) => keep_strings(ts),
            None => {
                let v: Vec<String> = Vec::new();
                assert(v@.map_values(|t: String| t@) =~= Seq::<Seq<char>>::empty());
                v
            },
        };
        HfModelSummary {
            model_id: String::from_str(id),
            name,
            author: match author {
                Some(a) => String::from_str(a),
                None => String::new(),
            },
            downloads: match downloads {
                Some(d) => d,
                None => 0,
            },
            likes: match likes {
                Some(l) => #[verifier::truncate] (l as u32),
                None => 0,
            },
            tags: tag_list,
            pipeline_tag,
            private: match private {
                Some(p) => p,
                None => false,
            },
            last_modified: match last_modified {
                Some(d) => String::from_str(d),
                None => String::new(),
            },
        }
    }
}

/// Filters of the Hub search command.
pub struct SearchFilter {
    pub pipeline_tag: Option<String>,
    pub language: Option<String>,
    pub library: Option<String>,
    /// `downloads`, `likes` or `lastModified`.
    pub sort: Option<String>,
    pub limit: Option<u32>,
}

/// The filter used when none is given: the 20 most downloaded GGUF
/// text-generation models.
pub fn default_search_filter() -> (f: SearchFilter)
    ensures
        f.pipeline_tag matches Some(t) && t@ == "text-generation"@,
        f.language is None,
        f.library matches Some(l) && l@ == "gguf"@,
        f.sort matches Some(s) && s@ == "downloads"@,
        f.limit == Some(20u32),
{
    SearchFilter {
        pipeline_tag: Some(String::from_str("text-generation")),
        language: None,
        library: Some(String::from_str("gguf")),
        sort: Some(String::from_str("downloads")),
        limit: Some(20),
    }
}

/// An uppercase hexadecimal digit for `d < 16`.
pub open spec fn hex_upper(d: int) -> char {
    if d < 10 {
        crate::hf::digit_char(d)
    } else if d == 10 {
        'A'
    } else if d == 11 {
        'B'
    } else if d == 12 {
        'C'
    } else if d == 13 {
        'D'
    } else if d == 14 {
        'E'
    } else {
        'F'
    }
}

/// Bytes left as they are by percent-encoding: ASCII letters, digits and
/// `-`, `_`, `.`, `~`.
pub open spec fn is_unreserved(b: u8) -> bool {
    (0x30 <= b <= 0x39) || (0x41 <= b <= 0x5a) || (0x61 <= b <= 0x7a) || b == 0x2d || b == 0x5f
        || b == 0x2e || b == 0x7e
}

/// Percent-encoding of a byte string: unreserved bytes stay, every other
/// byte becomes `%` and two uppercase hex digits.
pub open spec fn percent_encode(bytes: Seq<u8>) -> Seq<char>
    decreases bytes.len(),
{
    if bytes.len() == 0 {
        Seq::empty()
    } else {
        let b = bytes.last();
        percent_encode(bytes.drop_last()) + if is_unreserved(b) {
            seq![b as char]
        } else {
            seq!['%', hex_upper((b / 16) as int), hex_upper((b % 16) as int)]
        }
    }
}

/// Percent-encodes the UTF-8 bytes of `s` (`urlencoding::encode`).
#[verifier::external_body]
fn url_encode(s: &str) -> (r: String)
    ensures
        r@ == percent_encode(vstd::utf8::encode_utf8(s@)),
{
    urlencoding::encode(s).into_owned()
}

/// `opt`, or `default` when it is absent.
pub open spec fn or_default(opt: Option<String>, default: Seq<char>) -> Seq<char> {
    match opt {
        Some(s) => s@,
        None => default,
    }
}

/// The Hub search URL of the search command: the percent-encoded query,
/// the sort key (default `downloads`), the limit (default 20), then the
/// pipeline tag and language filters when given.
pub open spec fn hub_search_url_spec(query: Seq<char>, f: SearchFilter) -> Seq<char> {
    "https://huggingface.co/api/models?search="@ + percent_encode(vstd::utf8::encode_utf8(query))
        + "&sort="@ + or_default(f.sort, "downloads"@) + "&limit="@ + decimal(
        match f.limit {
            Some(l) => l as nat,
            None => 20,
        },
    ) + match f.pipeline_tag {
        Some(t) => "&pipeline_tag="@ + t@,
        None => Seq::empty(),
    } + match f.language {
        Some(l) => "&language[]="@ + l@,
        None => Seq::empty(),
    }
}

/// Whenever the filter names a pipeline tag `t`, the search URL asks for
/// that tag (`&pipeline_tag=t`), whatever the other filters are.
pub proof fn lemma_search_url_keeps_pipeline_tag(query: Seq<char>, f: SearchFilter)
    ensures
        f.pipeline_tag matches Some(t) ==> contains_seq(
            hub_search_url_spec(query, f),
            "&pipeline_tag="@ + t@,
        ),
{
    if let Some(t) = f.pipeline_tag {
        let pre = "https://huggingface.co/api/models?search="@ + percent_encode(
            vstd::utf8::encode_utf8(query),
        ) + "&sort="@ + or_default(f.sort, "downloads"@) + "&limit="@ + decimal(
            match f.limit {
                Some(l) => l as nat,
                None => 20,
            },
        );
        let pat = "&pipeline_tag="@ + t@;
        let rest = match f.language {
            Some(l) => "&language[]="@ + l@,
            None => Seq::empty(),
        };
        let url = hub_search_url_spec(query, f);
        assert(url =~= pre + pat + rest);
        assert(url.subrange(pre.len() as int, (pre.len() + pat.len()) as int) =~= pat);
        assert(occurs_at(url, pat, pre.len() as int));
    }
}

/// A language filter only appends `&language[]=<language>` to the URL the
/// same search has without it: the other parts, the pipeline tag among
/// them, do not depend on it.
pub proof fn lemma_search_url_language_appends(query: Seq<char>, f: SearchFilter, language: String)
    ensures
        hub_search_url_spec(query, SearchFilter { language: Some(language), ..f }) == hub_search_url_spec(
            query,
            SearchFilter { language: None, ..f },
        ) + "&language[]="@ + language@,
{
    let with = hub_search_url_spec(query, SearchFilter { language: Some(language), ..f });
    let without = hub_search_url_spec(query, SearchFilter { language: None, ..f });
    assert(without + Seq::<char>::empty() =~= without);
    assert(with =~= without + "&language[]="@ + language@);
}

/// Builds the Hub search URL for `query` under `filter`.
pub fn hub_search_url(query: &str, filter: &SearchFilter) -> (url: String)
    ensures
        url@ == hub_search_url_spec(query@, *filter),
{
    let mut url = String::from_str("https://huggingface.co/api/models?search=");
    let encoded = url_encode(query);
    url.append(encoded.as_str());
    url.append("&sort=");
    match &filter.sort {
        Some(s) => url.append(s.as_str()),
        None => url.append("downloads"),
    }
    url.append("&limit=");
    let limit: u64 = match filter.limit {
        Some(l) => l as u64,
        None => 20,
    };
    push_decimal(&mut url, limit);
    match &filter.pipeline_tag {
        Some(t) => {
            url.append("&pipeline_tag=");
            url.append(t.as_str());
        },
        None => {},
    }
    match &filter.language {
        Some(l) => {
            url.append("&language[]=");
            url.append(l.as_str());
        },
        None => {},
    }
    assert(url@ =~= hub_search_url_spec(query@, *filter));
    url
}

/// The part of `s` after its last `/` (all of `s` when it has none).
pub open spec fn after_last_slash(s: Seq<char>) -> Seq<char>
    decreases s.len(),
{
    if s.len() == 0 || s.last() == '/' {
        Seq::empty()
    } else {
        after_last_slash(s.drop_last()).push(s.last())
    }
}

/// The short name of a model id: the part after the last `/`
/// (e.g. `phi-2` for `microsoft/phi-2`).
pub fn model_short_name(model_id: &str) -> (name: String)
    ensures
        name@ == after_last_slash(model_id@),
{
    let cs = chars_of(model_id);
    let mut start: usize = cs.len();
    assert(cs@.take(cs.len() as int) =~= cs@);
    while start > 0 && cs[start - 1] != '/'
        invariant
            start <= cs.len(),
            after_last_slash(cs@) == after_last_slash(cs@.take(start as int)) + cs@.subrange(
                start as int,
                cs.len() as int,
            ),
        decreases start,
    {
        let ghost t = cs@.take(start as int);
        assert(t.drop_last() =~= cs@.take(start - 1));
        assert(cs@.subrange(start - 1, cs.len() as int) =~= seq![t.last()] + cs@.subrange(
            start as int,
            cs.len() as int,
        ));
        assert(after_last_slash(t) =~= after_last_slash(t.drop_last()).push(t.last()));
        start = start - 1;
    }
    assert(after_last_slash(cs@.take(start as int)) =~= Seq::<char>::empty());
    let mut name = String::new();
    let mut i: usize = start;
    while i < cs.len()
        invariant
            start <= i <= cs.len(),
            name@ == cs@.subrange(start as int, i as int),
        decreases cs.len() - i,
    {
        push_char(&mut name, cs[i]);
        i = i + 1;
        assert(name@ =~= cs@.subrange(start as int, i as int));
    }
    name
}

/// The raw README URL of a model used by the model-card command.
pub fn readme_raw_url(model_id: &str) -> (url: String)
    ensures
        url@ == "https://huggingface.co/"@ + model_id@ + "/raw/main/README.md"@,
{
    let mut url = String::from_str("https://huggingface.co/");
    url.append(model_id);
    url.append("/raw/main/README.md");
    url
}

/// The marketplace search URL for `query` (percent-encoded).
pub fn marketplace_search_url(query: &str) -> (url: String)
    ensures
        url@ == "https://api.tiny-decision.com/marketplace/search?q="@ + percent_encode(
            vstd::utf8::encode_utf8(query@),
        ),
{
    let mut url = String::from_str("https://api.tiny-decision.com/marketplace/search?q=");
    let encoded = url_encode(query);
    url.append(encoded.as_str());
    url
}

/// The marketplace URL of a template.
pub fn marketplace_template_url(template_id: &str) -> (url: String)
    ensures
        url@ == "https://api.tiny-decision.com/marketplace/templates/"@ + template_id@,
{
    let mut url = String::from_str("https://api.tiny-decision.com/marketplace/templates/");
    url.append(template_id);
    url
}

/// A file of a model repository, as listed in a model card.
pub struct ModelFile {
    pub filename: String,
    pub size_bytes: u64,
    pub is_gguf: bool,
}

impl ModelFile {
    /// A listed file; GGUF files are recognised by their `.gguf` ending.
    pub fn new(filename: String, size_bytes: u64) -> (f: Self)
        ensures
            f.filename == filename,
            f.size_bytes == size_bytes,
            f.is_gguf == ends_with_seq(filename@, ".gguf"@),
    {
        let cs = chars_of(filename.as_str());
        let suffix = chars_of(".gguf");
        let is_gguf = ends_with_chars(&cs, &suffix);
        ModelFile { filename, size_bytes, is_gguf }
    }
}

/// The handle returned when a download starts.
pub struct DownloadHandle {
    pub download_id: String,
    pub model_id: String,
    pub filename: String,
    pub status: String,
    pub bytes_downloaded: u64,
    pub total_bytes: u64,
}

impl DownloadHandle {
    /// The handle of a download that has just started.
    pub fn started(download_id: String, model_id: String, filename: String) -> (h: Self)
        ensures
            h.download_id == download_id,
            h.model_id == model_id,
            h.filename == filename,
            h.status@ == "downloading"@,
            h.bytes_downloaded == 0,
            h.total_bytes == 0,
    {
        DownloadHandle {
            download_id,
            model_id,
            filename,
            status: String::from_str("downloading"),
            bytes_downloaded: 0,
            total_bytes: 0,
        }
    }
}

/// Options of the load-model command.
pub struct LoadModelConfig {
    pub n_ctx: Option<u32>,
    pub n_threads: Option<u32>,
    pub n_gpu_layers: Option<i32>,
    pub use_mmap: Option<bool>,
    pub use_mlock: Option<bool>,
    pub seed: Option<u32>,
}

impl LoadModelConfig {
    /// The options used when none are given: a 2048-token context, four
    /// threads, CPU only, memory-mapped, not locked, seed 42.
    pub fn defaults() -> (c: Self)
        ensures
            c.n_ctx == Some(2048u32),
            c.n_threads == Some(4u32),
            c.n_gpu_layers == Some(0i32),
            c.use_mmap == Some(true),
            c.use_mlock == Some(false),
            c.seed == Some(42u32),
    {
        LoadModelConfig {
            n_ctx: Some(2048),
            n_threads: Some(4),
            n_gpu_layers: Some(0),
            use_mmap: Some(true),
            use_mlock: Some(false),
            seed: Some(42),
        }
    }

    /// The context size a load reports: the requested one, or 2048.
    pub fn context_size(&self) -> (n: u32)
        ensures
            n == match self.n_ctx {
                Some(v) => v,
                None => 2048u32,
            },
    {
        match self.n_ctx {
            Some(v) => v,
            None => 2048,
        }
    }
}

/// Options of the batch command.
pub struct BatchConfig {
    pub concurrency: Option<usize>,
    pub calibrate: Option<bool>,
    /// `jsonl` or `csv`.
    pub output_format: Option<String>,
}

impl BatchConfig {
    /// The options used when none are given: four rows at a time,
    /// calibrated, JSON lines.
    pub fn defaults() -> (c: Self)
        ensures
            c.concurrency == Some(4usize),
            c.calibrate == Some(true),
            c.output_format matches Some(f) && f@ == "jsonl"@,
    {
        BatchConfig {
            concurrency: Some(4),
            calibrate: Some(true),
            output_format: Some(String::from_str("jsonl")),
        }
    }
}

/// The `[start, end)` rows of chunk `k` when rows are taken `c` at a time.
pub open spec fn chunk_bounds(k: int, c: int, total: int) -> (usize, usize) {
    ((k * c) as usize, (if (k + 1) * c <= total { (k + 1) * c } else { total }) as usize)
}

/// Splits `total_rows` rows into consecutive groups of `concurrency` rows
/// (the last group may be shorter), as `[start, end)` ranges in order.
pub fn plan_batch_chunks(total_rows: usize, concurrency: usize) -> (chunks: Vec<(usize, usize)>)
    requires
        concurrency > 0,
    ensures
        chunks@.len() == if total_rows == 0 { 0 } else { (total_rows - 1) / concurrency as int + 1 },
        forall|k: int| 0 <= k < chunks@.len() ==> #[trigger] chunks@[k] == chunk_bounds(k, concurrency as int, total_rows as int),
{
    let mut chunks: Vec<(usize, usize)> = Vec::new();
    let n_chunks: usize = if total_rows == 0 { 0 } else { (total_rows - 1) / concurrency + 1 };
    let mut j: usize = 0;
    while j < n_chunks
        invariant
            concurrency > 0,
            n_chunks == if total_rows == 0 { 0 } else { (total_rows - 1) / concurrency as int + 1 },
            j <= n_chunks,
            chunks@.len() == j,
            forall|k: int| 0 <= k < chunks@.len() ==> #[trigger] chunks@[k] == chunk_bounds(k, concurrency as int, total_rows as int),
        decreases n_chunks - j,
    {
        proof {
            lemma_chunk_start_in_range(j as int, concurrency as int, total_rows as int);
        }
        let start: usize = j * concurrency;
        let end: usize = if total_rows - start >= concurrency { start + concurrency } else { total_rows };
        assert((start, end) == chunk_bounds(j as int, concurrency as int, total_rows as int));
        chunks.push((start, end));
        j = j + 1;
    }
    chunks
}

proof fn lemma_chunk_start_in_range(j: int, c: int, total: int)
    by (nonlinear_arith)
    requires
        c > 0,
        j >= 0,
        total > 0,
        j < (total - 1) / c + 1,
    ensures
        j * c < total,
        (j + 1) * c == j * c + c,
{
    assert(j <= (total - 1) / c);
    assert(j * c <= ((total - 1) / c) * c);
    assert(((total - 1) / c) * c <= total - 1);
}

proof fn lemma_last_chunk_reaches_total(total: int, c: int)
    by (nonlinear_arith)
    requires
        c > 0,
        total > 0,
    ensures
        ((total - 1) / c + 1) * c >= total,
{
    let q = (total - 1) / c;
    assert(q * c <= total - 1 && total - 1 < q * c + c);
}

/// The planned chunks cut the rows `0 .. total` into consecutive, non-empty
/// ranges of at most `c` rows: every row is processed exactly once, and in
/// order.
pub proof fn lemma_batch_chunks_partition(total: usize, c: usize)
    requires
        c > 0,
    ensures
        ({
            let n = if total == 0 { 0 } else { (total - 1) / c as int + 1 };
            &&& n > 0 ==> chunk_bounds(0, c as int, total as int).0 == 0
            &&& n > 0 ==> chunk_bounds(n - 1, c as int, total as int).1 == total
            &&& forall|k: int|
                0 <= k < n ==> {
                    let b = #[trigger] chunk_bounds(k, c as int, total as int);
                    &&& b.0 < b.1 <= total
                    &&& b.1 - b.0 <= c
                }
            &&& forall|k: int|
                0 <= k < n - 1 ==> #[trigger] chunk_bounds(k, c as int, total as int).1 == chunk_bounds(
                    k + 1,
                    c as int,
                    total as int,
                ).0
        }),
{
    let n = if total == 0 { 0 } else { (total - 1) / c as int + 1 };
    assert forall|k: int| 0 <= k < n implies {
        let b = #[trigger] chunk_bounds(k, c as int, total as int);
        &&& b.0 < b.1 <= total
        &&& b.1 - b.0 <= c
    } by {
        lemma_chunk_start_in_range(k, c as int, total as int);
    }
    assert forall|k: int| 0 <= k < n - 1 implies #[trigger] chunk_bounds(k, c as int, total as int).1
        == chunk_bounds(k + 1, c as int, total as int).0 by {
        lemma_chunk_start_in_range(k, c as int, total as int);
        lemma_chunk_start_in_range(k + 1, c as int, total as int);
    }
    if n > 0 {
        lemma_chunk_start_in_range(n - 1, c as int, total as int);
        lemma_last_chunk_reaches_total(total as int, c as int);
    }
}

/// The result of saving a pipeline definition.
pub struct PipelineSaveResult {
    pub pipeline_id: String,
    pub version: u32,
    pub saved_at: String,
}

impl PipelineSaveResult {
    /// The result of saving version `version` of a pipeline: the saved
    /// definition is reported as the next version.
    pub fn saved(pipeline_id: String, version: u32, saved_at: String) -> (r: Self)
        requires
            version < u32::MAX,
        ensures
            r.pipeline_id == pipeline_id,
            r.version == version + 1,
            r.saved_at == saved_at,
    {
        PipelineSaveResult { pipeline_id, version: version + 1, saved_at }
    }
}

/// Options of the fit-calibration command.
pub struct FitCalibrationRequest {
    /// `platt`, `isotonic` or `temperature`.
    pub method: String,
    pub max_iter: Option<u32>,
    pub cv_folds: Option<u32>,
}

/// State of the local SOMI server.
pub struct ServerStatus {
    pub running: bool,
    pub port: u16,
    pub uptime_seconds: u64,
    pub requests_served: u64,
}

/// A member of a shared workspace.
pub struct WorkspaceMember {
    pub user_id: String,
    pub email: String,
    pub display_name: String,
    /// `owner`, `editor` or `viewer`.
    pub role: String,
    pub joined_at: String,
}

/// The result of installing a plugin.
pub struct PluginInstallResult {
    pub plugin_id: String,
    pub name: String,
    pub version: String,
    pub plugin_type: String,
    pub installed_at: String,
}

} // verus!
