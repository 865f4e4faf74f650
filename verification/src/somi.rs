//! System One Model Interface (SOMI): adapter descriptors and the
//! deterministic parts of decision routing.
//!
//! The adapters' `decide` calls (model inference, HTTP to hosted models)
//! run outside this library; what is decided here is which adapter the
//! auto-router picks, the grammar that constrains adapted LLMs, and the
//! addresses and headers a hosted call uses.

use vstd::prelude::*;
use crate::text::push_char;
use crate::types::QuestionType;

verus! {

/// One option of a choice question.
pub struct ChoiceOption {
    pub id: String,
}

/// A typed SOMI question, as far as the library reads it.
pub enum TypedQuestion {
    /// Pick exactly one of `options`.
    Choice { id: String, text: String, options: Vec<ChoiceOption> },
    /// Detect whether a concept is present.
    Noul { id: String, text: String },
    /// Estimate a score within a range (the range is carried by the caller).
    Score { id: String, text: String },
}

impl TypedQuestion {
    /// The question's id.
    pub open spec fn id_view(&self) -> Seq<char> {
        match self {
            TypedQuestion::Choice { id, .. } => id@,
            TypedQuestion::Noul { id, .. } => id@,
            TypedQuestion::Score { id, .. } => id@,
        }
    }

    /// The question's text.
    pub open spec fn text_view(&self) -> Seq<char> {
        match self {
            TypedQuestion::Choice { text, .. } => text@,
            TypedQuestion::Noul { text, .. } => text@,
            TypedQuestion::Score { text, .. } => text@,
        }
    }
}

/// Number of logical CPUs (`num_cpus::get`); documented to be at least 1.
#[verifier::external_body]
pub(crate) fn cpu_count() -> (n: usize)
    ensures
        n >= 1,
{
    num_cpus::get()
}

/// The thread count used for `cpus` logical CPUs (the count as a `u32`).
pub open spec fn thread_count_of(cpus: usize) -> u32 {
    cpus as u32
}

/// In-process GGUF model adapter (native decision head).
pub struct LocalGgufAdapter {
    pub model_id: String,
    pub model_path: String,
    pub context_size: u32,
    pub n_threads: u32,
}

impl LocalGgufAdapter {
    /// A GGUF adapter with a 4096-token context and one thread per logical
    /// CPU.
    pub fn new(model_id: String, model_path: String) -> (a: Self)
        ensures
            a.model_id == model_id,
            a.model_path == model_path,
            a.context_size == 4096,
            exists|cpus: usize| cpus >= 1 && a.n_threads == #[trigger] thread_count_of(cpus),
    {
        let cpus = cpu_count();
        assert(thread_count_of(cpus) == cpus as u32);
        LocalGgufAdapter { model_id, model_path, context_size: 4096, n_threads: cpus as u32 }
    }

    /// The adapter's id: its model id.
    pub fn adapter_id(&self) -> (id: &str)
        ensures
            id@ == self.model_id@,
    {
        self.model_id.as_str()
    }

    /// GGUF adapters are native System One models.
    /// The model version reported with this adapter's answers.
    pub fn model_version(&self) -> (v: &'static str)
        ensures
            v@ == "gguf-native-v1"@,
    {
        "gguf-native-v1"
    }

    pub fn is_native(&self) -> (b: bool)
        ensures
            b,
    {
        true
    }
}

/// In-process ONNX model adapter (native decision head).
pub struct LocalOnnxAdapter {
    pub model_id: String,
    pub model_path: String,
}

impl LocalOnnxAdapter {
    /// An ONNX adapter for the model at `model_path`.
    pub fn new(model_id: String, model_path: String) -> (a: Self)
        ensures
            a.model_id == model_id,
            a.model_path == model_path,
    {
        LocalOnnxAdapter { model_id, model_path }
    }

    /// The adapter's id: its model id.
    pub fn adapter_id(&self) -> (id: &str)
        ensures
            id@ == self.model_id@,
    {
        self.model_id.as_str()
    }

    /// ONNX adapters are native System One models.
    /// The model version reported with this adapter's answers.
    pub fn model_version(&self) -> (v: &'static str)
        ensures
            v@ == "onnx-runtime-v1"@,
    {
        "onnx-runtime-v1"
    }

    pub fn is_native(&self) -> (b: bool)
        ensures
            b,
    {
        true
    }
}

/// Adapter for a general-purpose LLM constrained to SOMI answers
/// (badged "Adapted").
pub struct AdaptedLlmAdapter {
    pub model_id: String,
    pub base_url: String,
    pub api_key: Option<String>,
}

/// The GBNF grammar that constrains an adapted LLM's output to a SOMI
/// answers object.
pub open spec fn gbnf_grammar_text() -> Seq<char> {
    "root ::= \"{\\\"answers\\\":[\" answer (\",\" answer)* \"]}\"\n"@
        + "answer ::= choice_ans | noul_ans | score_ans\n"@
        + "choice_ans ::= \"{\\\"type\\\":\\\"Choice\\\",\\\"value\\\":\\\"\" [a-zA-Z0-9_-]+ \"\\\"}\"\n"@
        + "noul_ans ::= \"{\\\"type\\\":\\\"Noul\\\",\\\"value\\\":(\"true\"|\"false\")}\"\n"@
        + "score_ans ::= \"{\\\"type\\\":\\\"Score\\\",\\\"value\\\":\" [0-9]+ (\".\" [0-9]+)? \"}\"\n"@
}

impl AdaptedLlmAdapter {
    /// An adapted-LLM adapter talking to `base_url`.
    pub fn new(model_id: String, base_url: String, api_key: Option<String>) -> (a: Self)
        ensures
            a.model_id == model_id,
            a.base_url == base_url,
            a.api_key == api_key,
    {
        AdaptedLlmAdapter { model_id, base_url, api_key }
    }

    /// The GBNF grammar for constrained decoding of an answers object; the
    /// same grammar serves every question list.
    pub fn build_gbnf_grammar(&self, questions: &[TypedQuestion]) -> (g: String)
        ensures
            g@ == gbnf_grammar_text(),
    {
        let mut grammar = String::from_str("root ::= \"{\\\"answers\\\":[\" answer (\",\" answer)* \"]}\"\n");
        grammar.append("answer ::= choice_ans | noul_ans | score_ans\n");
        grammar.append("choice_ans ::= \"{\\\"type\\\":\\\"Choice\\\",\\\"value\\\":\\\"\" [a-zA-Z0-9_-]+ \"\\\"}\"\n");
        grammar.append("noul_ans ::= \"{\\\"type\\\":\\\"Noul\\\",\\\"value\\\":(\"true\"|\"false\")}\"\n");
        grammar.append("score_ans ::= \"{\\\"type\\\":\\\"Score\\\",\\\"value\\\":\" [0-9]+ (\".\" [0-9]+)? \"}\"\n");
        grammar
    }

    /// The adapter's id: its model id.
    pub fn adapter_id(&self) -> (id: &str)
        ensures
            id@ == self.model_id@,
    {
        self.model_id.as_str()
    }

    /// Adapted LLMs are never native.
    /// The model version reported with this adapter's answers.
    pub fn model_version(&self) -> (v: &'static str)
        ensures
            v@ == "adapted-llm-constrained-v1"@,
    {
        "adapted-llm-constrained-v1"
    }

    pub fn is_native(&self) -> (b: bool)
        ensures
            !b,
    {
        false
    }
}

// ─────────────────────────────────────────────────────────────────────────────
// Hosted (Jev) adapter addressing
// ─────────────────────────────────────────────────────────────────────────────

/// `s` without its trailing run of `c` characters.
pub open spec fn trim_trailing(s: Seq<char>, c: char) -> Seq<char>
    decreases s.len(),
{
    if s.len() > 0 && s.last() == c {
        trim_trailing(s.drop_last(), c)
    } else {
        s
    }
}

/// The decide endpoint of a hosted SOMI service: the endpoint without its
/// trailing slashes, followed by `/somi/v1/decide`.
pub fn jev_decide_url(endpoint: &str) -> (url: String)
    ensures
        url@ == trim_trailing(endpoint@, '/') + "/somi/v1/decide"@,
{
    let cs = crate::text::chars_of(endpoint);
    let mut end: usize = cs.len();
    assert(cs@.take(cs.len() as int) =~= cs@);
    while end > 0 && cs[end - 1] == '/'
        invariant
            end <= cs.len(),
            trim_trailing(cs@.take(end as int), '/') == trim_trailing(cs@, '/'),
        decreases end,
    {
        assert(cs@.take(end as int).drop_last() =~= cs@.take(end - 1));
        end = end - 1;
    }
    let mut url = String::new();
    let mut i: usize = 0;
    while i < end
        invariant
            i <= end <= cs.len(),
            url@ == cs@.take(i as int),
        decreases end - i,
    {
        push_char(&mut url, cs[i]);
        i = i + 1;
        assert(url@ =~= cs@.take(i as int));
    }
    url.append("/somi/v1/decide");
    url
}

/// The `Authorization` header value for an API key: `Bearer <key>`.
pub fn bearer_authorization(api_key: &str) -> (h: String)
    ensures
        h@ == "Bearer "@ + api_key@,
{
    let mut h = String::from_str("Bearer ");
    h.append(api_key);
    h
}

/// The hosted Jev adapter: decisions are sent to a remote SOMI service.
/// The HTTP client it sends them with is kept by the caller.
pub struct JevHostedAdapter {
    pub endpoint: String,
    pub api_key: String,
    pub model_id: String,
}

impl JevHostedAdapter {
    /// An adapter for `model_id` served at `endpoint` with `api_key`.
    pub fn new(endpoint: String, api_key: String, model_id: String) -> (a: Self)
        ensures
            a.endpoint == endpoint,
            a.api_key == api_key,
            a.model_id == model_id,
    {
        JevHostedAdapter { endpoint, api_key, model_id }
    }

    /// The adapter's id: its model id.
    pub fn adapter_id(&self) -> (id: &str)
        ensures
            id@ == self.model_id@,
    {
        self.model_id.as_str()
    }

    /// Hosted Jev models have a native decision head.
    pub fn is_native(&self) -> (b: bool)
        ensures
            b,
    {
        true
    }

    /// The URL the adapter posts decisions to.
    pub fn decide_url(&self) -> (url: String)
        ensures
            url@ == trim_trailing(self.endpoint@, '/') + "/somi/v1/decide"@,
    {
        jev_decide_url(self.endpoint.as_str())
    }

    /// The `Authorization` header value of the adapter's requests.
    pub fn authorization(&self) -> (h: String)
        ensures
            h@ == "Bearer "@ + self.api_key@,
    {
        bearer_authorization(self.api_key.as_str())
    }
}

// ─────────────────────────────────────────────────────────────────────────────
// Auto-router: best of the loaded adapters
// ─────────────────────────────────────────────────────────────────────────────

/// Whether the adapter recorded last under `id` among the first `hi`
/// adapters is native (`None` if no adapter has that id). The router keeps
/// one record per id, so a later adapter with the same id overrides an
/// earlier one.
pub open spec fn tracked_native(ids: Seq<String>, natives: Seq<bool>, id: Seq<char>, hi: int) -> Option<bool>
    decreases hi,
{
    if hi <= 0 {
        None
    } else if ids[hi - 1]@ == id {
        Some(natives[hi - 1])
    } else {
        tracked_native(ids, natives, id, hi - 1)
    }
}

/// Adapter `i` is ranked best-in-class: its id is tracked with the native
/// calibration error (lower than the adapted one) and the native latency.
pub open spec fn router_prefers(ids: Seq<String>, natives: Seq<bool>, i: int) -> bool {
    tracked_native(ids, natives, ids[i]@, ids.len() as int) == Some(true)
}

/// The id the auto-router answers under.
pub fn auto_router_id() -> (id: &'static str)
    ensures
        id@ == "auto-best-of-loaded"@,
{
    "auto-best-of-loaded"
}

/// The model version the auto-router reports for an answer routed to
/// `adapter_id`.
pub fn auto_routed_version(adapter_id: &str) -> (v: String)
    ensures
        v@ == "auto-routed:"@ + adapter_id@,
{
    let mut v = String::from_str("auto-routed:");
    v.append(adapter_id);
    v
}

fn tracked_native_exec(ids: &[String], natives: &[bool], id: &String) -> (r: bool)
    requires
        ids.len() == natives.len(),
        tracked_native(ids@, natives@, id@, ids.len() as int) is Some,
    ensures
        Some(r) == tracked_native(ids@, natives@, id@, ids.len() as int),
{
    let mut j: usize = ids.len();
    while j > 0
        invariant
            j <= ids.len(),
            ids.len() == natives.len(),
            tracked_native(ids@, natives@, id@, ids.len() as int) == tracked_native(
                ids@,
                natives@,
                id@,
                j as int,
            ),
        decreases j,
    {
        if ids[j - 1] == *id {
            return natives[j - 1];
        }
        j = j - 1;
    }
    false
}

proof fn lemma_tracked_some(ids: Seq<String>, natives: Seq<bool>, i: int, hi: int)
    requires
        0 <= i < hi <= ids.len(),
    ensures
        tracked_native(ids, natives, ids[i]@, hi) is Some,
    decreases hi,
{
    if ids[hi - 1]@ != ids[i]@ {
        lemma_tracked_some(ids, natives, i, hi - 1);
    }
}

/// The adapter the auto-router dispatches to, among adapters with ids
/// `ids` and nativeness `natives`: the lowest tracked calibration error,
/// ties broken by the lowest tracked latency, and the first such adapter
/// in load order. Native adapters are tracked with both the lower error
/// and the lower latency, so this is the first preferred adapter, or the
/// first adapter (index 0) if none is preferred.
pub fn best_adapter_index(ids: &[String], natives: &[bool]) -> (r: Option<usize>)
    requires
        ids.len() == natives.len(),
    ensures
        ids.len() == 0 <==> r is None,
        r matches Some(i) ==> {
            &&& i < ids.len()
            &&& forall|j: int| 0 <= j < i ==> !router_prefers(ids@, natives@, j)
            &&& (router_prefers(ids@, natives@, i as int) || (i == 0 && forall|j: int|
                0 <= j < ids.len() ==> !router_prefers(ids@, natives@, j)))
        },
{
    if ids.len() == 0 {
        return None;
    }
    let mut i: usize = 0;
    while i < ids.len()
        invariant
            i <= ids.len(),
            ids.len() == natives.len(),
            forall|j: int| 0 <= j < i ==> !router_prefers(ids@, natives@, j),
        decreases ids.len() - i,
    {
        proof {
            lemma_tracked_some(ids@, natives@, i as int, ids.len() as int);
        }
        if tracked_native_exec(ids, natives, &ids[i]) {
            return Some(i);
        }
        i = i + 1;
    }
    Some(0)
}

/// The auto-router over the loaded adapters, described by their ids and
/// whether each is native, in load order. The adapters themselves are kept
/// by the caller in the same order.
pub struct AutoRouterAdapter {
    ids: Vec<String>,
    natives: Vec<bool>,
}

impl AutoRouterAdapter {
    #[verifier::type_invariant]
    spec fn paired(self) -> bool {
        self.ids@.len() == self.natives@.len()
    }

    /// The ids of the loaded adapters, in load order.
    pub closed spec fn adapter_ids(&self) -> Seq<String> {
        self.ids@
    }

    /// Whether each loaded adapter is native, in load order.
    pub closed spec fn adapter_natives(&self) -> Seq<bool> {
        self.natives@
    }

    /// A router over adapters with ids `ids` and nativeness `natives`.
    pub fn new(ids: Vec<String>, natives: Vec<bool>) -> (r: Self)
        requires
            ids.len() == natives.len(),
        ensures
            r.adapter_ids() == ids@,
            r.adapter_natives() == natives@,
    {
        AutoRouterAdapter { ids, natives }
    }

    /// The index of the adapter decisions are routed to, `None` when no
    /// adapter is loaded.
    pub fn select_best_adapter(&self) -> (r: Option<usize>)
        ensures
            self.adapter_ids().len() == 0 <==> r is None,
            r matches Some(i) ==> {
                &&& i < self.adapter_ids().len()
                &&& forall|j: int| 0 <= j < i ==> !router_prefers(self.adapter_ids(), self.adapter_natives(), j)
                &&& (router_prefers(self.adapter_ids(), self.adapter_natives(), i as int) || (i == 0 && forall|j: int|
                    0 <= j < self.adapter_ids().len() ==> !router_prefers(self.adapter_ids(), self.adapter_natives(), j)))
            },
    {
        proof {
            use_type_invariant(self);
        }
        best_adapter_index(self.ids.as_slice(), self.natives.as_slice())
    }

    /// The router's own id.
    pub fn adapter_id(&self) -> (id: &'static str)
        ensures
            id@ == "auto-best-of-loaded"@,
    {
        auto_router_id()
    }

    /// The router presents itself as native.
    pub fn is_native(&self) -> (b: bool)
        ensures
            b,
    {
        true
    }
}

// ─────────────────────────────────────────────────────────────────────────────
// Answer plan of a decision
// ─────────────────────────────────────────────────────────────────────────────

/// Why a decision request is refused before any model runs.
#[derive(Clone, Debug, PartialEq, Eq)]
pub enum SomiError {
    /// The choice question with this id offers no options.
    MissingChoices(String),
}

/// The kind of a question.
pub open spec fn kind_of(q: TypedQuestion) -> QuestionType {
    match q {
        TypedQuestion::Choice { .. } => QuestionType::Choice,
        TypedQuestion::Noul { .. } => QuestionType::Noul,
        TypedQuestion::Score { .. } => QuestionType::Score,
    }
}

/// A choice question without options.
pub open spec fn is_empty_choice(q: TypedQuestion) -> bool {
    q matches TypedQuestion::Choice { options, .. } && options@.len() == 0
}

/// What an adapter answers for one question, before any probability is
/// computed: the question's id and kind, and for a choice the index of the
/// selected option.
pub struct AnswerPlan {
    pub question_id: String,
    pub kind: QuestionType,
    pub selected_option: Option<usize>,
}

/// `p` answers question `q`: same id and kind, and a choice selects its
/// first option (the local adapters rank it above every other option).
pub open spec fn plan_answers_question(q: TypedQuestion, p: AnswerPlan) -> bool {
    &&& p.question_id@ == q.id_view()
    &&& p.kind == kind_of(q)
    &&& p.selected_option == if q is Choice {
        Some(0usize)
    } else {
        None::<usize>
    }
}

/// Plans the answers of a decision: one answer per question, in order,
/// with the question's id and kind, a choice selecting its first option.
/// A request with a choice question that offers no options is refused,
/// naming the first such question.
pub fn plan_answers(questions: &[TypedQuestion]) -> (r: Result<Vec<AnswerPlan>, SomiError>)
    ensures
        match r {
            Ok(plans) => {
                &&& plans@.len() == questions.len()
                &&& forall|k: int|
                    0 <= k < questions.len() ==> #[trigger] plan_answers_question(
                        questions@[k],
                        plans@[k],
                    )
                &&& forall|k: int| 0 <= k < questions.len() ==> !is_empty_choice(#[trigger] questions@[k])
            },
            Err(SomiError::MissingChoices(id)) => exists|k: int|
                0 <= k < questions.len() && is_empty_choice(#[trigger] questions@[k]) && id@
                    == questions@[k].id_view() && forall|j: int|
                    0 <= j < k ==> !is_empty_choice(questions@[j]),
        },
{
    let mut plans: Vec<AnswerPlan> = Vec::new();
    let mut k: usize = 0;
    while k < questions.len()
        invariant
            k <= questions.len(),
            plans@.len() == k,
            forall|j: int| 0 <= j < k ==> #[trigger] plan_answers_question(questions@[j], plans@[j]),
            forall|j: int| 0 <= j < k ==> !is_empty_choice(#[trigger] questions@[j]),
        decreases questions.len() - k,
    {
        let p = match &questions[k] {
            TypedQuestion::Choice { id, options, .. } => {
                if options.len() == 0 {
                    assert(is_empty_choice(questions@[k as int]));
                    return Err(SomiError::MissingChoices(id.clone()));
                }
                AnswerPlan { question_id: id.clone(), kind: QuestionType::Choice, selected_option: Some(0) }
            },
            TypedQuestion::Noul { id, .. } => AnswerPlan {
                question_id: id.clone(),
                kind: QuestionType::Noul,
                selected_option: None,
            },
            TypedQuestion::Score { id, .. } => AnswerPlan {
                question_id: id.clone(),
                kind: QuestionType::Score,
                selected_option: None,
            },
        };
        assert(plan_answers_question(questions@[k as int], p));
        plans.push(p);
        k = k + 1;
    }
    Ok(plans)
}

} // verus!
