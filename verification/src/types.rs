//! Record types of the project document store and the LLM configuration.

use vstd::prelude::*;

verus! {

/// Process-wide UI restore state, persisted outside any project directory.
#[derive(Clone, Debug)]
pub struct AppState {
    pub last_project_dir: Option<String>,
    pub last_session_id: Option<String>,
    pub last_chapter_id: Option<u32>,
}

/// What `init_project` reports back: the root path and a display name.
#[derive(Clone, Debug)]
pub struct ProjectInfo {
    pub project_dir: String,
    pub project_name: String,
}

/// One entry of the chapter index file.
#[derive(Clone, Debug)]
pub struct ChapterIndexItem {
    pub id: u32,
    pub title: String,
}

impl ChapterIndexItem {
    pub fn duplicate(&self) -> (r: Self)
        ensures
            r == *self,
    {
        ChapterIndexItem { id: self.id, title: self.title.clone() }
    }
}

/// A chapter as loaded from its text and metadata files.
#[derive(Clone, Debug)]
pub struct Chapter {
    pub id: u32,
    pub title: String,
    pub content: String,
    pub summary: String,
}

impl Chapter {
    pub fn duplicate(&self) -> (r: Self)
        ensures
            r == *self,
    {
        Chapter {
            id: self.id,
            title: self.title.clone(),
            content: self.content.clone(),
            summary: self.summary.clone(),
        }
    }
}

/// Reusable writing-style configuration, one file per project.
#[derive(Clone, Debug)]
pub struct Preset {
    pub style: String,
    pub pov: String,
    pub rules: Vec<String>,
}

impl Preset {
    pub fn duplicate(&self) -> (r: Self)
        ensures
            r.style == self.style,
            r.pov == self.pov,
            r.rules@ == self.rules@,
    {
        let mut rules: Vec<String> = Vec::new();
        let mut i: usize = 0;
        while i < self.rules.len()
            invariant
                i <= self.rules@.len(),
                rules@ == self.rules@.take(i as int),
            decreases self.rules@.len() - i,
        {
            rules.push(self.rules[i].clone());
            proof {
                assert(rules@ =~= self.rules@.take(i + 1));
            }
            i = i + 1;
        }
        proof {
            assert(self.rules@.take(self.rules@.len() as int) =~= self.rules@);
        }
        Preset { style: self.style.clone(), pov: self.pov.clone(), rules }
    }

    /// The built-in localized default preset.
    pub fn default_zh() -> (r: Self)
        ensures
            r.style@ == "细腻、沉浸、画面感强"@,
            r.pov@ == "第三人称限定视角"@,
            r.rules@.len() == 4,
            r.rules@[0]@ == "保持文风一致"@,
            r.rules@[1]@ == "注重感官描写"@,
            r.rules@[2]@ == "避免上帝视角"@,
            r.rules@[3]@ == "通过行为和细节展现情感"@,
    {
        let mut rules: Vec<String> = Vec::new();
        rules.push("保持文风一致".to_owned());
        rules.push("注重感官描写".to_owned());
        rules.push("避免上帝视角".to_owned());
        rules.push("通过行为和细节展现情感".to_owned());
        Preset {
            style: "细腻、沉浸、画面感强".to_owned(),
            pov: "第三人称限定视角".to_owned(),
            rules,
        }
    }
}

/// Result of parsing a generation response.  `raw` is set only when the
/// structured JSON convention was not recognised in the model output.
#[derive(Clone, Debug)]
pub struct GenerationResponse {
    pub content: String,
    pub summary: String,
    pub raw: Option<String>,
}

/// One record of the append-only summary log.
#[derive(Clone, Debug)]
pub struct SummaryRecord {
    pub id: String,
    pub chapter_id: u32,
    pub chapter_title: String,
    pub summary: String,
    pub created_at: String,
}

impl SummaryRecord {
    pub fn duplicate(&self) -> (r: Self)
        ensures
            r == *self,
    {
        SummaryRecord {
            id: self.id.clone(),
            chapter_id: self.chapter_id,
            chapter_title: self.chapter_title.clone(),
            summary: self.summary.clone(),
            created_at: self.created_at.clone(),
        }
    }
}

/// Sampling parameters of a generation request.  The temperature and
/// top-p values are carried in thousandths, so 800 stands for 0.8;
/// the shell converts when it serializes a request.
#[derive(Clone, Copy, Debug)]
pub struct ModelParameters {
    pub temperature_milli: u32,
    pub max_tokens: u32,
    pub top_p_milli: Option<u32>,
    pub top_k: Option<u32>,
}

/// The writing defaults: temperature 0.8, at most 4000 tokens.
pub open spec fn writing_defaults() -> ModelParameters {
    ModelParameters { temperature_milli: 800, max_tokens: 4000, top_p_milli: None, top_k: None }
}

impl ModelParameters {
    pub fn default_for_writing() -> (r: Self)
        ensures
            r == writing_defaults(),
    {
        ModelParameters { temperature_milli: 800, max_tokens: 4000, top_p_milli: None, top_k: None }
    }

    pub fn duplicate(&self) -> (r: Self)
        ensures
            r == *self,
    {
        ModelParameters {
            temperature_milli: self.temperature_milli,
            max_tokens: self.max_tokens,
            top_p_milli: self.top_p_milli,
            top_k: self.top_k,
        }
    }
}

/// A configured LLM provider connection, identified by a generated id.
#[derive(Clone, Debug)]
pub struct EndpointConfig {
    pub id: String,
    pub name: String,
    pub base_url: String,
    pub default_model: String,
    pub parameters: ModelParameters,
}

/// Relies on `uuid::Uuid::new_v4` and its hyphenated `Display` form:
/// a freshly generated random id rendered as 36 characters.
#[verifier::external_body]
pub(crate) fn new_uuid_string() -> (r: String)
    ensures
        r@.len() == 36,
{
    uuid::Uuid::new_v4().to_string()
}

impl EndpointConfig {
    /// A new endpoint with a generated id and the writing defaults.
    pub fn new(name: String, base_url: String, default_model: String) -> (r: Self)
        ensures
            r.id@.len() == 36,
            r.name == name,
            r.base_url == base_url,
            r.default_model == default_model,
            r.parameters == writing_defaults(),
    {
        EndpointConfig {
            id: new_uuid_string(),
            name,
            base_url,
            default_model,
            parameters: ModelParameters::default_for_writing(),
        }
    }

    pub fn duplicate(&self) -> (r: Self)
        ensures
            r == *self,
    {
        EndpointConfig {
            id: self.id.clone(),
            name: self.name.clone(),
            base_url: self.base_url.clone(),
            default_model: self.default_model.clone(),
            parameters: self.parameters.duplicate(),
        }
    }
}

/// The endpoint configuration file: all endpoints plus the active choice.
#[derive(Clone, Debug)]
pub struct LlmConfig {
    pub endpoints: Vec<EndpointConfig>,
    pub active_endpoint_id: Option<String>,
    pub active_model: Option<String>,
}

impl Default for LlmConfig {
    /// An empty configuration: no endpoints, nothing selected.
    fn default() -> (r: Self)
        ensures
            r.endpoints@ == Seq::<EndpointConfig>::empty(),
            r.active_endpoint_id is None,
            r.active_model is None,
    {
        LlmConfig { endpoints: Vec::new(), active_endpoint_id: None, active_model: None }
    }
}

fn duplicate_opt_string(s: &Option<String>) -> (r: Option<String>)
    ensures
        r == *s,
{
    match s {
        Some(v) => Some(v.clone()),
        None => None,
    }
}

impl LlmConfig {
    pub fn duplicate(&self) -> (r: Self)
        ensures
            r.endpoints@ == self.endpoints@,
            r.active_endpoint_id == self.active_endpoint_id,
            r.active_model == self.active_model,
    {
        let mut endpoints: Vec<EndpointConfig> = Vec::new();
        let mut i: usize = 0;
        while i < self.endpoints.len()
            invariant
                i <= self.endpoints@.len(),
                endpoints@ == self.endpoints@.take(i as int),
            decreases self.endpoints@.len() - i,
        {
            endpoints.push(self.endpoints[i].duplicate());
            proof {
                assert(endpoints@ =~= self.endpoints@.take(i + 1));
            }
            i = i + 1;
        }
        proof {
            assert(self.endpoints@.take(self.endpoints@.len() as int) =~= self.endpoints@);
        }
        LlmConfig {
            endpoints,
            active_endpoint_id: duplicate_opt_string(&self.active_endpoint_id),
            active_model: duplicate_opt_string(&self.active_model),
        }
    }
}

/// One chat message, with its role (`user`, `assistant` or `system`).
#[derive(Clone, Debug)]
pub struct ChatMessage {
    pub role: String,
    pub content: String,
    pub created_at: String,
}

impl ChatMessage {
    pub fn duplicate(&self) -> (r: Self)
        ensures
            r == *self,
    {
        ChatMessage {
            role: self.role.clone(),
            content: self.content.clone(),
            created_at: self.created_at.clone(),
        }
    }
}

/// One entry of the chat-session index file.
#[derive(Clone, Debug)]
pub struct ChatSessionIndexItem {
    pub id: String,
    pub title: String,
}

impl ChatSessionIndexItem {
    pub fn duplicate(&self) -> (r: Self)
        ensures
            r == *self,
    {
        ChatSessionIndexItem { id: self.id.clone(), title: self.title.clone() }
    }
}

/// A chat session file: id, title, and the ordered message log.
#[derive(Clone, Debug)]
pub struct ChatSession {
    pub id: String,
    pub title: String,
    pub messages: Vec<ChatMessage>,
}

impl ChatSession {
    pub fn duplicate(&self) -> (r: Self)
        ensures
            r.id == self.id,
            r.title == self.title,
            r.messages@ == self.messages@,
    {
        let mut messages: Vec<ChatMessage> = Vec::new();
        let mut i: usize = 0;
        while i < self.messages.len()
            invariant
                i <= self.messages@.len(),
                messages@ == self.messages@.take(i as int),
            decreases self.messages@.len() - i,
        {
            messages.push(self.messages[i].duplicate());
            proof {
                assert(messages@ =~= self.messages@.take(i + 1));
            }
            i = i + 1;
        }
        proof {
            assert(self.messages@.take(self.messages@.len() as int) =~= self.messages@);
        }
        ChatSession { id: self.id.clone(), title: self.title.clone(), messages }
    }
}

} // verus!
