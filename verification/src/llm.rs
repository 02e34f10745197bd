//! The LLM client's logic: URL normalization, endpoint and model
//! selection, request assembly, context windowing, response parsing,
//! and the per-turn decisions of the two orchestrated operations.
//! The shell performs the HTTP calls and hands the bodies back.

use vstd::prelude::*;
use crate::Doc;
use crate::types::{ChatMessage, ChatSession, EndpointConfig, GenerationResponse, LlmConfig, ModelParameters, SummaryRecord};
use crate::prompt::{WireMessage, build_system_prompt, build_user_prompt, pair_views, system_prompt_spec, to_openai_messages, user_prompt_spec};
use crate::store::{ProjectFiles, load_chapter, load_llm_config, load_preset, load_chat_session, load_summaries, session_doc, summaries_seq, text_lookup, meta_malformed, default_session_title};
use crate::strutil::{first_match, is_blank, is_blank_str, lemma_first_match_props, str_eq, take_chars, trim, trim_spec};

verus! {

// ---------------------------------------------------------------------
// URLs and headers
// ---------------------------------------------------------------------

/// A base URL without its trailing slashes.
pub open spec fn strip_slashes_spec(s: Seq<char>) -> Seq<char>
    decreases s.len(),
{
    if s.len() > 0 && s.last() == '/' {
        strip_slashes_spec(s.drop_last())
    } else {
        s
    }
}

proof fn lemma_strip_slashes_at(s: Seq<char>, j: int)
    requires
        0 <= j <= s.len(),
        forall|k: int| j <= k < s.len() ==> s[k] == '/',
        j == 0 || s[j - 1] != '/',
    ensures
        strip_slashes_spec(s) =~= s.subrange(0, j),
    decreases s.len(),
{
    if j == s.len() {
        assert(strip_slashes_spec(s) =~= s.subrange(0, j));
    } else {
        let t = s.drop_last();
        lemma_strip_slashes_at(t, j);
        assert(t.subrange(0, j) =~= s.subrange(0, j));
    }
}

/// Strips trailing slashes; endpoint paths are appended with a single
/// slash of their own.
pub fn normalize_base_url(base_url: &str) -> (r: String)
    ensures
        r@ == strip_slashes_spec(base_url@),
{
    let n: usize = base_url.unicode_len();
    let mut j: usize = n;
    while j > 0 && base_url.get_char(j - 1) == '/'
        invariant
            j <= n,
            n == base_url@.len(),
            forall|k: int| j <= k < n ==> base_url@[k] == '/',
        decreases j,
    {
        j = j - 1;
    }
    proof {
        lemma_strip_slashes_at(base_url@, j as int);
    }
    let piece = base_url.substring_char(0, j);
    piece.to_owned()
}

/// The URL of the model listing: `{base}/models`.
pub fn models_url(base_url: &str) -> (r: String)
    ensures
        r@ == strip_slashes_spec(base_url@) + "/models"@,
{
    let mut s = normalize_base_url(base_url);
    s.append("/models");
    s
}

/// The URL of the chat-completion call: `{base}/chat/completions`.
pub fn chat_completions_url(base_url: &str) -> (r: String)
    ensures
        r@ == strip_slashes_spec(base_url@) + "/chat/completions"@,
{
    let mut s = normalize_base_url(base_url);
    s.append("/chat/completions");
    s
}

/// The value of the `Authorization` header: `Bearer {key}`.
pub fn bearer_header_value(api_key: &str) -> (r: String)
    ensures
        r@ == "Bearer "@ + api_key@,
{
    let mut s = "Bearer ".to_owned();
    s.append(api_key);
    s
}

// ---------------------------------------------------------------------
// Endpoint and model selection
// ---------------------------------------------------------------------

/// The first endpoint carrying the id.
pub open spec fn endpoint_lookup(eps: Seq<EndpointConfig>, id: Seq<char>) -> Option<EndpointConfig>
    decreases eps.len(),
{
    if eps.len() == 0 {
        None
    } else if eps[0].id@ == id {
        Some(eps[0])
    } else {
        endpoint_lookup(eps.drop_first(), id)
    }
}

proof fn lemma_endpoint_lookup_at(eps: Seq<EndpointConfig>, id: Seq<char>, i: int)
    requires
        0 <= i < eps.len(),
        eps[i].id@ == id,
        forall|k: int| 0 <= k < i ==> eps[k].id@ != id,
    ensures
        endpoint_lookup(eps, id) == Some(eps[i]),
    decreases i,
{
    if i > 0 {
        lemma_endpoint_lookup_at(eps.drop_first(), id, i - 1);
    }
}

proof fn lemma_endpoint_lookup_none(eps: Seq<EndpointConfig>, id: Seq<char>)
    requires
        forall|k: int| 0 <= k < eps.len() ==> eps[k].id@ != id,
    ensures
        endpoint_lookup(eps, id) is None,
    decreases eps.len(),
{
    if eps.len() > 0 {
        lemma_endpoint_lookup_none(eps.drop_first(), id);
    }
}

/// The endpoint a call uses: the one matching `active`, else the
/// first; selection never fails once an endpoint exists.
pub open spec fn active_endpoint_of(eps: Seq<EndpointConfig>, active: Option<String>) -> EndpointConfig
    recommends
        eps.len() > 0,
{
    match active {
        Some(id) => match endpoint_lookup(eps, id@) {
            Some(ep) => ep,
            None => eps[0],
        },
        None => eps[0],
    }
}

/// Picks the active endpoint; fails only when no endpoint is
/// configured at all.
pub fn active_endpoint(cfg: &LlmConfig) -> (r: Result<EndpointConfig, String>)
    ensures
        r is Err <==> cfg.endpoints@.len() == 0,
        r matches Err(e) ==> e@ == "请先在“模型设置”中添加一个 API 端点"@,
        r matches Ok(ep) ==> ep == active_endpoint_of(cfg.endpoints@, cfg.active_endpoint_id),
{
    if cfg.endpoints.len() == 0 {
        return Err("请先在“模型设置”中添加一个 API 端点".to_owned());
    }
    match &cfg.active_endpoint_id {
        Some(id) => {
            let mut i: usize = 0;
            while i < cfg.endpoints.len()
                invariant
                    i <= cfg.endpoints@.len(),
                    cfg.endpoints@.len() > 0,
                    cfg.active_endpoint_id matches Some(v) && v == *id,
                    forall|k: int| 0 <= k < i ==> cfg.endpoints@[k].id@ != id@,
                decreases cfg.endpoints@.len() - i,
            {
                if str_eq(cfg.endpoints[i].id.as_str(), id.as_str()) {
                    proof {
                        lemma_endpoint_lookup_at(cfg.endpoints@, id@, i as int);
                        assert(cfg.active_endpoint_id matches Some(v) && v@ == id@);
                        assert(active_endpoint_of(cfg.endpoints@, cfg.active_endpoint_id)
                            == cfg.endpoints@[i as int]);
                    }
                    return Ok(cfg.endpoints[i].duplicate());
                }
                i = i + 1;
            }
            proof {
                lemma_endpoint_lookup_none(cfg.endpoints@, id@);
            }
            Ok(cfg.endpoints[0].duplicate())
        },
        None => Ok(cfg.endpoints[0].duplicate()),
    }
}

/// The model a call uses: the configured active model when non-blank,
/// else the endpoint's default.
pub open spec fn active_model_of(active: Option<String>, ep: EndpointConfig) -> Seq<char> {
    match active {
        Some(m) => if !is_blank_str(m@) {
            m@
        } else {
            ep.default_model@
        },
        None => ep.default_model@,
    }
}

pub fn active_model(cfg: &LlmConfig, ep: &EndpointConfig) -> (r: String)
    ensures
        r@ == active_model_of(cfg.active_model, *ep),
{
    match &cfg.active_model {
        Some(m) => {
            if !is_blank(m.as_str()) {
                m.clone()
            } else {
                ep.default_model.clone()
            }
        },
        None => ep.default_model.clone(),
    }
}

// ---------------------------------------------------------------------
// Request assembly
// ---------------------------------------------------------------------

/// The body of a chat-completion request, ready for the wire.  The
/// optional sampling fields are already resolved: `None` means the
/// field is omitted from the serialized body.
#[derive(Clone, Debug)]
pub struct ChatRequest {
    pub model: String,
    pub messages: Vec<WireMessage>,
    pub max_tokens: u32,
    pub temperature_milli: u32,
    pub top_p_milli: Option<u32>,
    pub top_k: Option<u32>,
}

/// `top_p` is sent only when strictly below 1.0 (1000 thousandths).
pub open spec fn sent_top_p(o: Option<u32>) -> Option<u32> {
    match o {
        Some(p) => if p < 1000 {
            Some(p)
        } else {
            None
        },
        None => None,
    }
}

/// `top_k` is sent only when above zero.
pub open spec fn sent_top_k(o: Option<u32>) -> Option<u32> {
    match o {
        Some(k) => if k > 0 {
            Some(k)
        } else {
            None
        },
        None => None,
    }
}

/// Resolves which optional sampling fields the request carries:
/// defaults are omitted to stay compatible with providers that reject
/// unknown or zero-valued fields.
pub fn build_chat_request(model: String, params: &ModelParameters, messages: Vec<WireMessage>) -> (r: ChatRequest)
    ensures
        r.model == model,
        r.messages == messages,
        r.max_tokens == params.max_tokens,
        r.temperature_milli == params.temperature_milli,
        r.top_p_milli == sent_top_p(params.top_p_milli),
        r.top_k == sent_top_k(params.top_k),
{
    let top_p_milli = match params.top_p_milli {
        Some(p) => if p < 1000 {
            Some(p)
        } else {
            None
        },
        None => None,
    };
    let top_k = match params.top_k {
        Some(k) => if k > 0 {
            Some(k)
        } else {
            None
        },
        None => None,
    };
    ChatRequest {
        model,
        messages,
        max_tokens: params.max_tokens,
        temperature_milli: params.temperature_milli,
        top_p_milli,
        top_k,
    }
}

// ---------------------------------------------------------------------
// Generation response parsing
// ---------------------------------------------------------------------

/// The interior of the first fenced `json` block, trimmed; `None`
/// when no complete block is present.
pub open spec fn extract_json_block_spec(s: Seq<char>) -> Option<Seq<char>> {
    match first_match(s, "```json"@) {
        Some(i) => {
            let after = s.subrange(i + "```json"@.len(), s.len() as int);
            match first_match(after, "```"@) {
                Some(j) => Some(trim_spec(after.subrange(0, j))),
                None => None,
            }
        },
        None => None,
    }
}

/// Finds the first ```` ```json ```` fence and returns its interior up
/// to the next ```` ``` ````, trimmed.
#[verifier::rlimit(30)]
pub fn extract_json_block(raw: &str) -> (r: Option<String>)
    ensures
        match r {
            Some(s) => extract_json_block_spec(raw@) matches Some(v) && s@ == v,
            None => extract_json_block_spec(raw@) is None,
        },
{
    let open_pat = "```json";
    let close_pat = "```";
    proof {
        lemma_first_match_props(raw@, open_pat@);
    }
    let i = match crate::strutil::find_sub(raw, open_pat) {
        None => {
            return None;
        },
        Some(i) => i,
    };
    let plen: usize = open_pat.unicode_len();
    let n: usize = raw.unicode_len();
    let after = raw.substring_char(i + plen, n);
    proof {
        lemma_first_match_props(after@, close_pat@);
    }
    let j = match crate::strutil::find_sub(after, close_pat) {
        None => {
            return None;
        },
        Some(j) => j,
    };
    let interior = after.substring_char(0, j);
    Some(trim(interior))
}

/// Whether a text parses as JSON, as `serde_json::from_str` decides
/// it; a function of the text alone.
pub uninterp spec fn json_parses(s: Seq<char>) -> bool;

/// The string field a parsed JSON text holds under a key, if any; a
/// function of the text and the key alone.
pub uninterp spec fn json_str_field(s: Seq<char>, key: Seq<char>) -> Option<Seq<char>>;

/// Relies on `serde_json::from_str::<Value>`, `Value::get` and
/// `Value::as_str`: the outer `Option` reports whether the text is
/// valid JSON, the inner one the string field under the key.
#[verifier::external_body]
fn json_string_field(s: &str, key: &str) -> (r: Option<Option<String>>)
    ensures
        r is Some <==> json_parses(s@),
        r matches Some(inner) ==> match (inner, json_str_field(s@, key@)) {
            (Some(v), Some(w)) => v@ == w,
            (None, None) => true,
            _ => false,
        },
{
    match serde_json::from_str::<serde_json::Value>(s) {
        Err(_) => None,
        Ok(v) => Some(v.get(key).and_then(|x| x.as_str()).map(|t| t.to_string())),
    }
}

/// The string under `body[k1][idx][k2][k3]` of a JSON text, if the
/// text parses and the path leads to a string; a function of the text
/// and the path alone.
pub uninterp spec fn json_path_str_spec(
    s: Seq<char>,
    k1: Seq<char>,
    idx: int,
    k2: Seq<char>,
    k3: Seq<char>,
) -> Option<Seq<char>>;

/// Relies on `serde_json::from_str::<Value>`, `Value::get` and
/// `Value::as_str`: walks the object/array path and reads the string
/// at its end.
#[verifier::external_body]
fn json_path_str(s: &str, k1: &str, idx: usize, k2: &str, k3: &str) -> (r: Option<String>)
    ensures
        match (r, json_path_str_spec(s@, k1@, idx as int, k2@, k3@)) {
            (Some(v), Some(w)) => v@ == w,
            (None, None) => true,
            _ => false,
        },
{
    match serde_json::from_str::<serde_json::Value>(s) {
        Err(_) => None,
        Ok(v) => v
            .get(k1)
            .and_then(|c| c.get(idx))
            .and_then(|c0| c0.get(k2))
            .and_then(|m| m.get(k3))
            .and_then(|c| c.as_str())
            .map(|t| t.to_string()),
    }
}

/// The reply text of a chat-completion response body:
/// `choices[0].message.content`.  Fails exactly when the body does
/// not carry a string there.
pub fn extract_chat_content(body: &str) -> (r: Result<String, String>)
    ensures
        match r {
            Ok(c) => json_path_str_spec(body@, "choices"@, 0, "message"@, "content"@)
                matches Some(w) && c@ == w,
            Err(e) => json_path_str_spec(body@, "choices"@, 0, "message"@, "content"@) is None
                && e@ == "响应缺少 choices[0].message.content"@,
        },
{
    match json_path_str(body, "choices", 0, "message", "content") {
        Some(c) => Ok(c),
        None => Err("响应缺少 choices[0].message.content".to_owned()),
    }
}

/// The text the structured branch works on: the fenced block's
/// interior, and only when that interior parses as JSON.  Output with
/// no fence at all never takes the structured branch.
pub open spec fn structured_candidate(raw: Seq<char>) -> Option<Seq<char>> {
    match extract_json_block_spec(raw) {
        Some(c) => if json_parses(c) {
            Some(c)
        } else {
            None
        },
        None => None,
    }
}

/// Parses raw model output under the structured-JSON convention.
/// When a fenced block is present and its interior parses, `content`
/// and `summary` are its string fields (empty when missing) and `raw`
/// stays absent; when no block is found or parsing fails, the whole
/// raw text becomes `content` and is preserved in `raw` as the signal
/// that structured parsing did not succeed.
pub fn parse_generation(raw: &str) -> (r: GenerationResponse)
    ensures
        structured_candidate(raw@) matches Some(c) ==> {
            &&& r.content@ == (match json_str_field(c, "content"@) {
                Some(v) => v,
                None => Seq::<char>::empty(),
            })
            &&& r.summary@ == (match json_str_field(c, "summary"@) {
                Some(v) => v,
                None => Seq::<char>::empty(),
            })
            &&& r.raw is None
        },
        structured_candidate(raw@) is None ==> {
            &&& r.content@ == raw@
            &&& r.summary@.len() == 0
            &&& r.raw matches Some(x) && x@ == raw@
        },
{
    let candidate = match extract_json_block(raw) {
        Some(c) => c,
        None => {
            return GenerationResponse {
                content: raw.to_owned(),
                summary: crate::strutil::empty_string(),
                raw: Some(raw.to_owned()),
            };
        },
    };
    let content_field = json_string_field(candidate.as_str(), "content");
    let summary_field = json_string_field(candidate.as_str(), "summary");
    match (content_field, summary_field) {
        (Some(cf), Some(sf)) => GenerationResponse {
            content: match cf {
                Some(v) => v,
                None => crate::strutil::empty_string(),
            },
            summary: match sf {
                Some(v) => v,
                None => crate::strutil::empty_string(),
            },
            raw: None,
        },
        (None, None) => GenerationResponse {
            content: raw.to_owned(),
            summary: crate::strutil::empty_string(),
            raw: Some(raw.to_owned()),
        },
        _ => vstd::pervasive::unreached(),
    }
}

// ---------------------------------------------------------------------
// Summary context windowing
// ---------------------------------------------------------------------

/// All (title, summary) pairs whose summary is non-blank, in log
/// order.
pub open spec fn context_pairs(rs: Seq<SummaryRecord>) -> Seq<(String, String)>
    decreases rs.len(),
{
    if rs.len() == 0 {
        Seq::empty()
    } else {
        context_pairs(rs.drop_last()) + (if !is_blank_str(rs.last().summary@) {
            seq![(rs.last().chapter_title, rs.last().summary)]
        } else {
            Seq::<(String, String)>::empty()
        })
    }
}

/// The prompt context: the 20 most recent non-blank summaries, in
/// chronological order.
pub open spec fn context_window(rs: Seq<SummaryRecord>) -> Seq<(String, String)> {
    let all = context_pairs(rs);
    if all.len() > 20 {
        all.skip(all.len() - 20)
    } else {
        all
    }
}

/// Filters out blank summaries and keeps the 20 most recent records,
/// re-reversed to chronological order.
pub fn summary_context(records: &Vec<SummaryRecord>) -> (r: Vec<(String, String)>)
    ensures
        r@ == context_window(records@),
{
    let mut all: Vec<(String, String)> = Vec::new();
    let mut i: usize = 0;
    while i < records.len()
        invariant
            i <= records@.len(),
            all@ == context_pairs(records@.take(i as int)),
        decreases records@.len() - i,
    {
        proof {
            assert(records@.take(i + 1).drop_last() =~= records@.take(i as int));
        }
        if !is_blank(records[i].summary.as_str()) {
            all.push((records[i].chapter_title.clone(), records[i].summary.clone()));
            proof {
                assert(all@ =~= context_pairs(records@.take(i + 1)));
            }
        }
        i = i + 1;
    }
    proof {
        assert(records@.take(records@.len() as int) =~= records@);
    }
    if all.len() > 20 {
        let start: usize = all.len() - 20;
        let mut out: Vec<(String, String)> = Vec::new();
        let mut k: usize = start;
        while k < all.len()
            invariant
                start <= k <= all@.len(),
                start == all@.len() - 20,
                all@ == context_pairs(records@),
                out@ == all@.subrange(start as int, k as int),
            decreases all@.len() - k,
        {
            out.push((all[k].0.clone(), all[k].1.clone()));
            proof {
                assert(out@ =~= all@.subrange(start as int, k + 1));
            }
            k = k + 1;
        }
        out
    } else {
        all
    }
}

// ---------------------------------------------------------------------
// Orchestrated operations: what each turn decides
// ---------------------------------------------------------------------

/// Everything the shell needs to perform one chat-completion call:
/// where to post, as whom, and what.
#[derive(Clone, Debug)]
pub struct ChatCallPlan {
    pub endpoint: EndpointConfig,
    pub model: String,
    pub url: String,
    pub request: ChatRequest,
}

/// The preset style the prompts use: the stored one, else the
/// built-in default.
pub open spec fn preset_style_of(m: ProjectFiles) -> Seq<char> {
    match m.preset {
        Doc::Present(p) => p.style@,
        _ => "细腻、沉浸、画面感强"@,
    }
}

pub open spec fn preset_pov_of(m: ProjectFiles) -> Seq<char> {
    match m.preset {
        Doc::Present(p) => p.pov@,
        _ => "第三人称限定视角"@,
    }
}

pub open spec fn preset_rules_of(m: ProjectFiles) -> Seq<Seq<char>> {
    match m.preset {
        Doc::Present(p) => crate::prompt::rule_views(p.rules@),
        _ => seq!["保持文风一致"@, "注重感官描写"@, "避免上帝视角"@, "通过行为和细节展现情感"@],
    }
}

pub open spec fn config_endpoints(m: ProjectFiles) -> Seq<EndpointConfig> {
    match m.llm_config {
        Doc::Present(c) => c.endpoints@,
        _ => Seq::empty(),
    }
}

pub open spec fn config_active_id(m: ProjectFiles) -> Option<String> {
    match m.llm_config {
        Doc::Present(c) => c.active_endpoint_id,
        _ => None,
    }
}

pub open spec fn config_active_model(m: ProjectFiles) -> Option<String> {
    match m.llm_config {
        Doc::Present(c) => c.active_model,
        _ => None,
    }
}

/// The request fields every call plan shares.
pub open spec fn plan_matches_config(plan: ChatCallPlan, m: ProjectFiles) -> bool {
    &&& plan.endpoint == active_endpoint_of(config_endpoints(m), config_active_id(m))
    &&& plan.model@ == active_model_of(config_active_model(m), plan.endpoint)
    &&& plan.url@ == strip_slashes_spec(plan.endpoint.base_url@) + "/chat/completions"@
    &&& plan.request.model == plan.model
    &&& plan.request.max_tokens == plan.endpoint.parameters.max_tokens
    &&& plan.request.temperature_milli == plan.endpoint.parameters.temperature_milli
    &&& plan.request.top_p_milli == sent_top_p(plan.endpoint.parameters.top_p_milli)
    &&& plan.request.top_k == sent_top_k(plan.endpoint.parameters.top_k)
}

/// Assembles the whole `continue` call from the project image: preset
/// and configuration, the chapter, and the 20 most recent non-blank
/// summaries in chronological order.  The result is returned to the
/// caller unsaved; persisting generated text is a separate, explicit
/// store call.
pub fn continue_request(files: &ProjectFiles, chapter_id: u32, instruction: &str) -> (r: Result<ChatCallPlan, String>)
    ensures
        r is Ok <==> {
            &&& !(files.preset is Malformed)
            &&& !(files.llm_config is Malformed)
            &&& config_endpoints(*files).len() > 0
            &&& text_lookup(files.chapter_texts@, chapter_id) is Some
            &&& !meta_malformed(*files, chapter_id)
            &&& !(files.summaries is Malformed)
        },
        r matches Ok(plan) ==> {
            &&& plan_matches_config(plan, *files)
            &&& plan.request.messages@.len() == 2
            &&& plan.request.messages@[0].role@ == "system"@
            &&& plan.request.messages@[0].content@ == system_prompt_spec(
                preset_style_of(*files),
                preset_pov_of(*files),
                preset_rules_of(*files),
                "continue"@,
            )
            &&& plan.request.messages@[1].role@ == "user"@
            &&& (text_lookup(files.chapter_texts@, chapter_id) matches Some(t)
                && plan.request.messages@[1].content@ == user_prompt_spec(
                    pair_views(context_window(summaries_seq(*files))),
                    t.content@,
                    "continue"@,
                    instruction@,
                ))
        },
        r matches Err(e) ==> {
            ||| (files.preset is Malformed && e@ == "config.json 格式错误"@)
            ||| (files.llm_config is Malformed && e@ == "llm_config.json 格式错误"@)
            ||| (config_endpoints(*files).len() == 0 && e@ == "请先在“模型设置”中添加一个 API 端点"@)
            ||| (text_lookup(files.chapter_texts@, chapter_id) is None && e@ == "章节不存在"@)
            ||| (meta_malformed(*files, chapter_id) && e@ == "章节元数据格式错误"@)
            ||| (files.summaries is Malformed && e@ == "summaries.json 格式错误"@)
        },
{
    let preset = match load_preset(files) {
        Ok(p) => p,
        Err(e) => {
            return Err(e);
        },
    };
    let cfg = match load_llm_config(files) {
        Ok(c) => c,
        Err(e) => {
            return Err(e);
        },
    };
    let ep = match active_endpoint(&cfg) {
        Ok(ep) => ep,
        Err(e) => {
            return Err(e);
        },
    };
    let model = active_model(&cfg, &ep);
    let chapter = match load_chapter(files, chapter_id) {
        Ok(c) => c,
        Err(e) => {
            return Err(e);
        },
    };
    let summaries = match load_summaries(files) {
        Ok(s) => s,
        Err(e) => {
            return Err(e);
        },
    };
    let ctx = summary_context(&summaries);
    let system = build_system_prompt(&preset, "continue");
    let user = build_user_prompt(&ctx, chapter.content.as_str(), "continue", instruction);
    proof {
        assert(crate::prompt::rule_views(preset.rules@) =~= preset_rules_of(*files));
        assert(system@ == system_prompt_spec(
            preset_style_of(*files), preset_pov_of(*files), preset_rules_of(*files), "continue"@));
    }
    let mut messages: Vec<WireMessage> = Vec::new();
    messages.push(WireMessage { role: "system".to_owned(), content: system });
    messages.push(WireMessage { role: "user".to_owned(), content: user });
    let url = chat_completions_url(ep.base_url.as_str());
    let request = build_chat_request(model, &ep.parameters, messages);
    let plan_model = request.model.clone();
    Ok(ChatCallPlan { endpoint: ep, model: plan_model, url, request })
}

/// The conversation history a `discuss` call replays: user and
/// assistant turns only, in order.
pub open spec fn kept_history(ms: Seq<ChatMessage>) -> Seq<ChatMessage>
    decreases ms.len(),
{
    if ms.len() == 0 {
        Seq::empty()
    } else {
        kept_history(ms.drop_last()) + (if ms.last().role@ == "user"@ || ms.last().role@ == "assistant"@ {
            seq![ms.last()]
        } else {
            Seq::<ChatMessage>::empty()
        })
    }
}

/// The messages stored under a session id, empty when no file exists.
pub open spec fn base_messages_of(m: ProjectFiles, sid: Seq<char>) -> Seq<ChatMessage> {
    match session_doc(m, sid) {
        Doc::Present(q) => q.messages@,
        _ => Seq::empty(),
    }
}

/// Assembles one `discuss` turn: loads (or implicitly creates) the
/// session, appends the user's message to it, and plans the call
/// whose history holds the prior user and assistant turns.  The
/// returned session is the one to persist once the reply arrives.
pub fn discuss_request(files: &ProjectFiles, session_id: &str, user_message: &str, now: String) -> (r: Result<(ChatSession, ChatCallPlan), String>)
    ensures
        r is Ok <==> {
            &&& !(files.preset is Malformed)
            &&& !(files.llm_config is Malformed)
            &&& config_endpoints(*files).len() > 0
            &&& !(session_doc(*files, session_id@) is Malformed)
        },
        r matches Ok(pair) ==> {
            let (s2, plan) = pair;
            &&& plan_matches_config(plan, *files)
            &&& (match session_doc(*files, session_id@) {
                Doc::Present(q) => s2.id == q.id && s2.title == q.title,
                _ => s2.id@ == session_id@ && s2.title@ == default_session_title(),
            })
            &&& s2.messages@.len() == base_messages_of(*files, session_id@).len() + 1
            &&& s2.messages@.take(base_messages_of(*files, session_id@).len() as int)
                == base_messages_of(*files, session_id@)
            &&& s2.messages@.last().role@ == "user"@
            &&& s2.messages@.last().content@ == user_message@
            &&& s2.messages@.last().created_at == now
            &&& plan.request.messages@.len() == kept_history(base_messages_of(*files, session_id@)).len() + 2
            &&& plan.request.messages@[0].role@ == "system"@
            &&& plan.request.messages@[0].content@ == system_prompt_spec(
                preset_style_of(*files),
                preset_pov_of(*files),
                preset_rules_of(*files),
                "discuss"@,
            )
            &&& (forall|i: int| 0 <= i < kept_history(base_messages_of(*files, session_id@)).len() ==>
                #[trigger] plan.request.messages@[i + 1].role
                    == kept_history(base_messages_of(*files, session_id@))[i].role
                && plan.request.messages@[i + 1].content
                    == kept_history(base_messages_of(*files, session_id@))[i].content)
            &&& plan.request.messages@.last().role@ == "user"@
            &&& plan.request.messages@.last().content@ == user_message@
        },
        r matches Err(e) ==> {
            ||| (files.preset is Malformed && e@ == "config.json 格式错误"@)
            ||| (files.llm_config is Malformed && e@ == "llm_config.json 格式错误"@)
            ||| (config_endpoints(*files).len() == 0 && e@ == "请先在“模型设置”中添加一个 API 端点"@)
            ||| (session_doc(*files, session_id@) is Malformed && e@ == "会话格式错误"@)
        },
{
    let preset = match load_preset(files) {
        Ok(p) => p,
        Err(e) => {
            return Err(e);
        },
    };
    let cfg = match load_llm_config(files) {
        Ok(c) => c,
        Err(e) => {
            return Err(e);
        },
    };
    let ep = match active_endpoint(&cfg) {
        Ok(ep) => ep,
        Err(e) => {
            return Err(e);
        },
    };
    let model = active_model(&cfg, &ep);
    let mut session = match load_chat_session(files, session_id) {
        Ok(s) => s,
        Err(e) => {
            return Err(e);
        },
    };
    let system = build_system_prompt(&preset, "discuss");
    proof {
        assert(crate::prompt::rule_views(preset.rules@) =~= preset_rules_of(*files));
    }

    let ghost base = session.messages@;
    let mut history: Vec<ChatMessage> = Vec::new();
    let mut i: usize = 0;
    while i < session.messages.len()
        invariant
            i <= session.messages@.len(),
            session.messages@ == base,
            history@ == kept_history(base.take(i as int)),
        decreases base.len() - i,
    {
        proof {
            assert(base.take(i + 1).drop_last() =~= base.take(i as int));
        }
        let keep = str_eq(session.messages[i].role.as_str(), "user")
            || str_eq(session.messages[i].role.as_str(), "assistant");
        if keep {
            history.push(session.messages[i].duplicate());
            proof {
                assert(history@ =~= kept_history(base.take(i + 1)));
            }
        }
        i = i + 1;
    }
    proof {
        assert(base.take(base.len() as int) =~= base);
    }

    let messages = to_openai_messages(system, &history, user_message.to_owned());
    session.messages.push(ChatMessage {
        role: "user".to_owned(),
        content: user_message.to_owned(),
        created_at: now,
    });
    proof {
        assert(session.messages@.take(base.len() as int) =~= base);
    }
    let url = chat_completions_url(ep.base_url.as_str());
    let request = build_chat_request(model, &ep.parameters, messages);
    let plan_model = request.model.clone();
    Ok((session, ChatCallPlan { endpoint: ep, model: plan_model, url, request }))
}

/// The session title after a user message: a blank or placeholder
/// title becomes the first sixteen characters of the trimmed message
/// (when the message is non-blank); any other title is kept.
pub open spec fn auto_title_spec(title: Seq<char>, msg: Seq<char>) -> Seq<char> {
    if (is_blank_str(title) || title == default_session_title()) && !is_blank_str(msg) {
        trim_spec(msg).take(
            if trim_spec(msg).len() < 16 {
                trim_spec(msg).len() as int
            } else {
                16
            },
        )
    } else {
        title
    }
}

/// Finishes one `discuss` turn: appends the assistant's reply to the
/// session and applies the automatic title.  The caller persists the
/// session afterwards.
pub fn discuss_finish(session: &mut ChatSession, assistant_content: String, now: String, user_message: &str) -> (r: ChatMessage)
    ensures
        final(session).id == old(session).id,
        final(session).messages@ == old(session).messages@.push(r),
        r.role@ == "assistant"@,
        r.content == assistant_content,
        r.created_at == now,
        final(session).title@ == auto_title_spec(old(session).title@, user_message@),
{
    let msg = ChatMessage {
        role: "assistant".to_owned(),
        content: assistant_content,
        created_at: now,
    };
    let ret = msg.duplicate();
    session.messages.push(msg);
    if is_blank(session.title.as_str()) || str_eq(session.title.as_str(), "新对话") {
        let t = trim(user_message);
        proof {
            crate::strutil::lemma_trim_properties(user_message@);
        }
        if !t.as_str().is_empty() {
            session.title = take_chars(t.as_str(), 16);
        }
    }
    ret
}

/// Law: a custom session title — non-blank and not the default
/// placeholder — is never retitled, whatever the message says.
pub proof fn lemma_custom_title_kept(title: Seq<char>, msg: Seq<char>)
    requires
        !is_blank_str(title),
        title != default_session_title(),
    ensures
        auto_title_spec(title, msg) == title,
{
}

/// Law: the automatic title is set exactly once.  Once a non-blank
/// message has replaced a blank or placeholder title, later messages
/// leave the title unchanged — unless the first sixteen characters of
/// that first message happen to spell the placeholder itself.
pub proof fn lemma_auto_title_once(t0: Seq<char>, m1: Seq<char>, m2: Seq<char>)
    requires
        is_blank_str(t0) || t0 == default_session_title(),
        !is_blank_str(m1),
        auto_title_spec(t0, m1) != default_session_title(),
    ensures
        auto_title_spec(auto_title_spec(t0, m1), m2) == auto_title_spec(t0, m1),
{
    let t1 = auto_title_spec(t0, m1);
    crate::strutil::lemma_trim_properties(m1);
    assert(t1[0] == trim_spec(m1)[0]);
    assert(!crate::strutil::is_space_char(t1[0]));
    assert(!is_blank_str(t1));
    lemma_custom_title_kept(t1, m2);
}

// ---------------------------------------------------------------------
// Model listing
// ---------------------------------------------------------------------

/// Lexicographic order on character sequences, as Rust's `String`
/// ordering compares (UTF-8 byte order coincides with code-point
/// order).
pub open spec fn lex_le(a: Seq<char>, b: Seq<char>) -> bool
    decreases a.len(),
{
    if a.len() == 0 {
        true
    } else if b.len() == 0 {
        false
    } else if a[0] != b[0] {
        a[0] < b[0]
    } else {
        lex_le(a.drop_first(), b.drop_first())
    }
}

proof fn lemma_lex_total(a: Seq<char>, b: Seq<char>)
    ensures
        lex_le(a, b) || lex_le(b, a),
    decreases a.len(),
{
    if a.len() > 0 && b.len() > 0 && a[0] == b[0] {
        lemma_lex_total(a.drop_first(), b.drop_first());
    }
}

proof fn lemma_lex_trans(a: Seq<char>, b: Seq<char>, c: Seq<char>)
    requires
        lex_le(a, b),
        lex_le(b, c),
    ensures
        lex_le(a, c),
    decreases a.len(),
{
    if a.len() > 0 {
        if a[0] == b[0] && b[0] == c[0] {
            lemma_lex_trans(a.drop_first(), b.drop_first(), c.drop_first());
        }
    }
}

proof fn lemma_lex_decides_at(a: Seq<char>, b: Seq<char>, i: int)
    requires
        0 <= i <= a.len(),
        0 <= i <= b.len(),
        forall|k: int| 0 <= k < i ==> a[k] == b[k],
        i < a.len() && i < b.len() ==> a[i] != b[i],
    ensures
        i == a.len() ==> lex_le(a, b),
        i == b.len() && i < a.len() ==> !lex_le(a, b),
        i < a.len() && i < b.len() ==> lex_le(a, b) == (a[i] < b[i]),
    decreases i,
{
    if i > 0 {
        assert(a.len() > 0 && b.len() > 0 && a[0] == b[0]);
        let a2 = a.drop_first();
        let b2 = b.drop_first();
        assert(forall|k: int| 0 <= k < i - 1 ==> a2[k] == b2[k]);
        lemma_lex_decides_at(a2, b2, i - 1);
    }
}

/// Character-wise `<=` on string slices, matching `lex_le` on views.
pub fn str_le(a: &str, b: &str) -> (r: bool)
    ensures
        r == lex_le(a@, b@),
{
    let na: usize = a.unicode_len();
    let nb: usize = b.unicode_len();
    let mut i: usize = 0;
    while i < na && i < nb
        invariant
            i <= na,
            i <= nb,
            na == a@.len(),
            nb == b@.len(),
            forall|k: int| 0 <= k < i ==> a@[k] == b@[k],
        decreases na - i,
    {
        let ca = a.get_char(i);
        let cb = b.get_char(i);
        if ca != cb {
            proof {
                lemma_lex_decides_at(a@, b@, i as int);
            }
            return ca < cb;
        }
        i = i + 1;
    }
    proof {
        lemma_lex_decides_at(a@, b@, i as int);
    }
    na <= nb
}

pub open spec fn sorted_strings(v: Seq<String>) -> bool {
    forall|i: int, j: int| 0 <= i < j < v.len() ==> lex_le(v[i]@, v[j]@)
}

proof fn lemma_insert_to_multiset(s: Seq<String>, pos: int, x: String)
    requires
        0 <= pos <= s.len(),
    ensures
        s.insert(pos, x).to_multiset() =~= s.to_multiset().insert(x),
{
    broadcast use vstd::seq_lib::group_to_multiset_ensures;

    let s2 = s.insert(pos, x);
    assert(s2.remove(pos) =~= s);
    assert(s2[pos] == x);
    assert(s.to_multiset() =~= s2.to_multiset().remove(x));
    assert(s2.contains(x));
    assert(s2.to_multiset().count(x) > 0);
    assert(s2.to_multiset() =~= s2.to_multiset().remove(x).insert(x));
}

/// The model ids of a listing response, sorted lexicographically
/// ascending: the same ids, in order.
pub fn sort_model_ids(ids: &Vec<String>) -> (r: Vec<String>)
    ensures
        sorted_strings(r@),
        r@.to_multiset() == ids@.to_multiset(),
{
    broadcast use vstd::seq_lib::group_to_multiset_ensures;

    let mut out: Vec<String> = Vec::new();
    let mut i: usize = 0;
    while i < ids.len()
        invariant
            i <= ids@.len(),
            sorted_strings(out@),
            out@.to_multiset() == ids@.take(i as int).to_multiset(),
        decreases ids@.len() - i,
    {
        let x = ids[i].clone();
        let mut pos: usize = 0;
        while pos < out.len() && str_le(out[pos].as_str(), x.as_str())
            invariant
                pos <= out@.len(),
                x == ids@[i as int],
                sorted_strings(out@),
                forall|k: int| 0 <= k < pos ==> lex_le(out@[k]@, x@),
            decreases out@.len() - pos,
        {
            pos = pos + 1;
        }
        proof {
            if pos < out@.len() {
                lemma_lex_total(out@[pos as int]@, x@);
            }
        }
        let ghost before = out@;
        out.insert(pos, x);
        proof {
            lemma_insert_to_multiset(before, pos as int, x);
            ids@.take(i as int).to_multiset_ensures();
            assert(ids@.take(i + 1) =~= ids@.take(i as int).push(ids@[i as int]));
            assert(ids@.take(i as int).push(ids@[i as int]).to_multiset()
                =~= ids@.take(i as int).to_multiset().insert(ids@[i as int]));
            assert(ids@.take(i + 1).to_multiset() =~= ids@.take(i as int).to_multiset().insert(ids@[i as int]));
            assert(out@.to_multiset() =~= ids@.take(i + 1).to_multiset());
            assert forall|s: int, t: int| 0 <= s < t < out@.len() implies lex_le(out@[s]@, out@[t]@) by {
                if s < pos && t == pos {
                } else if s == pos && t > pos {
                    if pos < before.len() && t - 1 > pos {
                        lemma_lex_trans(x@, before[pos as int]@, before[t - 1]@);
                    }
                } else if s < pos && t > pos {
                } else if s == pos && t == pos {
                } else {
                }
            }
        }
        i = i + 1;
    }
    proof {
        assert(ids@.take(ids@.len() as int) =~= ids@);
    }
    out
}

} // verus!
