//! The values that requests carry and responses hold, and the builder of a
//! chat request.

use vstd::prelude::*;

verus! {

/// A model as the server lists it.
#[derive(Debug, Clone)]
pub struct ModelInfo {
    pub id: String,
    pub author: Option<String>,
    pub downloads: u64,
    pub pipeline_tag: Option<String>,
    pub library_name: Option<String>,
    pub tags: Vec<String>,
    pub created_at: String,
    pub updated_at: String,
}

/// The models that the server lists.
#[derive(Debug, Clone)]
pub struct ModelListResponse {
    pub models: Vec<ModelInfo>,
    pub total: Option<u32>,
    pub has_more: bool,
}

impl ModelListResponse {
    /// The response for a plain list of models: all of them, with their
    /// number in 32 bits, and nothing more to come.
    pub fn from_models(models: Vec<ModelInfo>) -> (r: Self)
        ensures
            r.models == models,
            r.total == Some((models.len() as int % 0x1_0000_0000) as u32),
            !r.has_more,
    {
        let n: u64 = (models.len() as u64) % 0x1_0000_0000;
        ModelListResponse { models, total: Some(n as u32), has_more: false }
    }
}

/// The health of the server.
#[derive(Debug, Clone)]
pub struct HealthInfo {
    pub status: String,
    pub timestamp: String,
    pub server_version: String,
    pub uptime_seconds: u64,
}

/// The request to unload a model.
#[derive(Debug, Clone)]
pub struct UnloadModelRequest {
    pub instance_id: String,
}

/// The answer to a request to unload a model.
#[derive(Debug, Clone)]
pub struct UnloadModelResponse {
    pub success: bool,
    pub message: String,
    pub model_id: String,
    pub instance_id: String,
    pub memory_freed_bytes: u64,
    pub duration_ms: u64,
}

/// The state of a loaded model.
#[derive(Debug, Clone)]
pub struct ModelStatusInfo {
    pub instance_id: String,
    pub model_id: String,
    pub status: String,
    pub memory_usage_bytes: u64,
    pub loaded_at: String,
}

/// The request to download a model.
#[derive(Debug, Clone)]
pub struct DownloadModelRequest {
    pub model_name: String,
    pub format_hint: Option<String>,
    pub force_redownload: bool,
    pub custom_directory: Option<String>,
}

/// One message of a conversation.
#[derive(Debug, Clone)]
pub struct ChatMessage {
    pub role: String,
    pub content: String,
    pub name: Option<String>,
}

/// A request for a chat completion.
#[derive(Debug, Clone)]
pub struct ChatCompletionRequest {
    pub model: String,
    pub messages: Vec<ChatMessage>,
    pub stream: Option<bool>,
    pub max_tokens: Option<u32>,
    pub user: Option<String>,
}

/// A `ChatMessage` as a value.
pub struct MessageModel {
    pub role: Seq<char>,
    pub content: Seq<char>,
    pub name: Option<Seq<char>>,
}

/// A `ChatCompletionRequest` as a value.
pub struct RequestModel {
    pub model: Seq<char>,
    pub messages: Seq<MessageModel>,
    pub stream: Option<bool>,
    pub max_tokens: Option<u32>,
    pub user: Option<Seq<char>>,
}

impl View for ChatMessage {
    type V = MessageModel;

    open spec fn view(&self) -> MessageModel {
        MessageModel {
            role: self.role@,
            content: self.content@,
            name: match self.name {
                Some(n) => Some(n@),
                None => None,
            },
        }
    }
}

impl View for ChatCompletionRequest {
    type V = RequestModel;

    open spec fn view(&self) -> RequestModel {
        RequestModel {
            model: self.model@,
            messages: self.messages@.map_values(|m: ChatMessage| m@),
            stream: self.stream,
            max_tokens: self.max_tokens,
            user: match self.user {
                Some(u) => Some(u@),
                None => None,
            },
        }
    }
}

impl ChatCompletionRequest {
    /// The same request, asking for a streamed answer.
    pub fn for_streaming(self) -> (r: Self)
        ensures
            r@ == (RequestModel { stream: Some(true), ..self@ }),
    {
        let mut r = self;
        r.stream = Some(true);
        r
    }
}

/// Builds a chat request step by step.
pub struct ChatRequestBuilder {
    request: ChatCompletionRequest,
}

impl View for ChatRequestBuilder {
    type V = RequestModel;

    /// The request as built so far.
    closed spec fn view(&self) -> RequestModel {
        self.request@
    }
}

impl ChatRequestBuilder {
    /// The request without model, messages or options.
    pub open spec fn new_model() -> RequestModel {
        RequestModel {
            model: Seq::empty(),
            messages: Seq::empty(),
            stream: None,
            max_tokens: None,
            user: None,
        }
    }

    /// A builder of a request without model, messages or options.
    pub fn new() -> (b: Self)
        ensures
            b@ == Self::new_model(),
    {
        let b = ChatRequestBuilder {
            request: ChatCompletionRequest {
                model: String::new(),
                messages: Vec::new(),
                stream: None,
                max_tokens: None,
                user: None,
            },
        };
        proof {
            assert(b@.messages =~= Seq::empty());
        }
        b
    }

    /// Sets the model.
    pub fn model(self, model: &str) -> (b: Self)
        ensures
            b@ == (RequestModel { model: model@, ..self@ }),
    {
        let mut b = self;
        b.request.model = model.to_owned();
        b
    }

    /// Adds a message with the given role.
    pub fn message(self, role: &str, content: &str) -> (b: Self)
        ensures
            b@ == (RequestModel {
                messages: self@.messages.push(
                    MessageModel { role: role@, content: content@, name: None },
                ),
                ..self@
            }),
    {
        let mut b = self;
        let m = ChatMessage { role: role.to_owned(), content: content.to_owned(), name: None };
        b.request.messages.push(m);
        proof {
            assert(b@.messages =~= self@.messages.push(m@));
        }
        b
    }

    /// Adds a message of the user.
    pub fn user(self, content: &str) -> (b: Self)
        ensures
            b@ == (RequestModel {
                messages: self@.messages.push(
                    MessageModel { role: "user"@, content: content@, name: None },
                ),
                ..self@
            }),
    {
        self.message("user", content)
    }

    /// Adds a message of the system.
    pub fn system(self, content: &str) -> (b: Self)
        ensures
            b@ == (RequestModel {
                messages: self@.messages.push(
                    MessageModel { role: "system"@, content: content@, name: None },
                ),
                ..self@
            }),
    {
        self.message("system", content)
    }

    /// Sets the bound on the tokens of the answer.
    pub fn max_tokens(self, max_tokens: u32) -> (b: Self)
        ensures
            b@ == (RequestModel { max_tokens: Some(max_tokens), ..self@ }),
    {
        let mut b = self;
        b.request.max_tokens = Some(max_tokens);
        b
    }

    /// Sets whether the answer is streamed.
    pub fn stream(self, stream: bool) -> (b: Self)
        ensures
            b@ == (RequestModel { stream: Some(stream), ..self@ }),
    {
        let mut b = self;
        b.request.stream = Some(stream);
        b
    }

    /// The request as built.
    pub fn build(self) -> (r: ChatCompletionRequest)
        ensures
            r@ == self@,
    {
        self.request
    }
}

impl Default for ChatRequestBuilder {
    /// A builder of a request without model, messages or options.
    fn default() -> (b: Self)
        ensures
            b@ == ChatRequestBuilder::new_model(),
    {
        ChatRequestBuilder::new()
    }
}

/// A request built with one message of the user, a model and a bound on
/// tokens holds exactly these, in whatever order the three were given.
pub proof fn lemma_built_request(
    empty: RequestModel,
    content: Seq<char>,
    model: Seq<char>,
    max_tokens: u32,
)
    requires
        empty == ChatRequestBuilder::new_model(),
    ensures
        ({
            let a = RequestModel {
                messages: empty.messages.push(
                    MessageModel { role: "user"@, content, name: None },
                ),
                ..empty
            };
            let b = RequestModel { model, ..a };
            let c = RequestModel { max_tokens: Some(max_tokens), ..b };
            &&& c.messages == seq![MessageModel { role: "user"@, content, name: None }]
            &&& c.model == model
            &&& c.max_tokens == Some(max_tokens)
            &&& c.stream is None
        }),
{
    let m = MessageModel { role: "user"@, content, name: None };
    assert(empty.messages.push(m) =~= seq![m]);
}

} // verus!
