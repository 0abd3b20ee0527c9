//! What a client asks of its server: for each operation the request to
//! make, and for a streaming request what its status means. Sending is left
//! to the caller, who reports back what came of it.

use crate::config::{ClientConfig, Endpoints};
use crate::download::DownloadProgressStream;
use crate::error::{ClientError, ClientResult};
use crate::models::ChatRequestBuilder;
use crate::retry::{is_success, RetryState};
use crate::text::{push_str, string_of};
use vstd::prelude::*;

verus! {

/// `reqwest::header::HeaderValue`, the value of a header, carried through
/// as it is.
#[verifier::external_type_specification]
#[verifier::external_body]
pub struct ExHeaderValue(reqwest::header::HeaderValue);

/// `reqwest::header::InvalidHeaderValue`, the error of reading a header
/// value, carried through as it is.
#[verifier::external_type_specification]
#[verifier::external_body]
pub struct ExInvalidHeaderValue(reqwest::header::InvalidHeaderValue);

/// The characters that a header value may hold: the tab, and everything
/// from the space on but for the delete character.
pub open spec fn is_header_char(c: char) -> bool {
    c == '\t' || (c >= ' ' && c != '\x7f')
}

/// Whether `text` can be the value of a header.
pub open spec fn is_header_value(text: Seq<char>) -> bool {
    forall|i: int| 0 <= i < text.len() ==> is_header_char(#[trigger] text[i])
}

/// Reads `text` as the value of a header.
///
/// Trusted: calls `reqwest::header::HeaderValue::from_str`, which accepts
/// exactly the texts whose bytes are each a tab or at least 32 and not 127;
/// every byte of a character beyond ASCII is above 127.
#[verifier::external_body]
fn header_value(text: &str) -> (r: Result<
    reqwest::header::HeaderValue,
    reqwest::header::InvalidHeaderValue,
>)
    ensures
        r is Ok <==> is_header_value(text@),
{
    reqwest::header::HeaderValue::from_str(text)
}

/// Why a text is no header value, in words.
///
/// Trusted: calls `to_string` on an `InvalidHeaderValue`, which always
/// writes the same sentence.
#[verifier::external_body]
fn header_error_text(e: &reqwest::header::InvalidHeaderValue) -> (r: String)
    ensures
        r@ == "failed to parse header value"@,
{
    e.to_string()
}

/// The method of a request.
#[derive(Debug, Clone, Copy, PartialEq, Eq)]
pub enum Method {
    Get,
    Post,
}

/// What a client can ask of its server.
#[derive(Debug, Clone)]
pub enum Operation {
    Health,
    ListModels,
    LoadModel,
    UnloadModel,
    /// The state of the model with this id.
    ModelStatus(String),
    LoadedModels,
    DownloadModel,
    ChatCompletion,
    ChatCompletionStream,
    DownloadStart,
    /// Pausing, resuming or cancelling the download with this id.
    DownloadControl(String),
    DownloadModelLegacy,
}

/// One header of a request.
#[derive(Debug, Clone, PartialEq, Eq)]
pub struct Header {
    pub name: String,
    pub value: String,
}

/// A request to make.
#[derive(Debug, Clone, PartialEq, Eq)]
pub struct RequestPlan {
    pub method: Method,
    pub url: String,
    /// The headers of this request, beyond those of every request.
    pub headers: Vec<Header>,
    /// Whether the response is a stream. A streaming request is made once;
    /// any other request is retried as the retry policy says.
    pub streaming: bool,
}

/// A `RequestPlan` as a value.
pub struct PlanModel {
    pub method: Method,
    pub url: Seq<char>,
    pub headers: Seq<(Seq<char>, Seq<char>)>,
    pub streaming: bool,
}

impl View for RequestPlan {
    type V = PlanModel;

    open spec fn view(&self) -> PlanModel {
        PlanModel {
            method: self.method,
            url: self.url@,
            headers: self.headers@.map_values(|h: Header| (h.name@, h.value@)),
            streaming: self.streaming,
        }
    }
}

/// The headers that ask for a stream of events that no cache holds back.
pub open spec fn streaming_header_model() -> Seq<(Seq<char>, Seq<char>)> {
    seq![("Accept"@, "text/event-stream"@), ("Cache-Control"@, "no-cache"@)]
}

impl Operation {
    /// The method of the operation: reading is a GET, everything that
    /// carries a body a POST.
    pub open spec fn method_model(self) -> Method {
        match self {
            Operation::Health => Method::Get,
            Operation::ListModels => Method::Get,
            Operation::ModelStatus(_) => Method::Get,
            Operation::LoadedModels => Method::Get,
            _ => Method::Post,
        }
    }

    /// The path of the operation below the server URL.
    pub open spec fn path_model(self) -> Seq<char> {
        match self {
            Operation::Health => Endpoints::HEALTH@,
            Operation::ListModels => Endpoints::MODELS_LIST@,
            Operation::LoadModel => Endpoints::MODELS_LOAD@,
            Operation::UnloadModel => Endpoints::MODELS_UNLOAD@,
            Operation::ModelStatus(id) => Endpoints::MODELS_STATUS@ + seq!['/'] + id@,
            Operation::LoadedModels => Endpoints::MODELS_LOADED@,
            Operation::DownloadModel => Endpoints::MODELS_DOWNLOAD@,
            Operation::ChatCompletion => Endpoints::CHAT_COMPLETIONS@,
            Operation::ChatCompletionStream => Endpoints::CHAT_COMPLETIONS_STREAM@,
            Operation::DownloadStart => Endpoints::MODELS_DOWNLOAD@,
            Operation::DownloadControl(id) => "v1/models/download/"@ + id@ + "/control"@,
            Operation::DownloadModelLegacy => Endpoints::MODELS_DOWNLOAD_LEGACY@,
        }
    }

    /// Whether the answer to the operation is a stream.
    pub open spec fn is_streaming(self) -> bool {
        self is ChatCompletionStream
    }

    /// The method of the operation.
    pub fn method(&self) -> (m: Method)
        ensures
            m == self.method_model(),
    {
        match self {
            Operation::Health => Method::Get,
            Operation::ListModels => Method::Get,
            Operation::ModelStatus(_) => Method::Get,
            Operation::LoadedModels => Method::Get,
            _ => Method::Post,
        }
    }

    /// The path of the operation below the server URL.
    pub fn path(&self) -> (p: String)
        ensures
            p@ == self.path_model(),
    {
        match self {
            Operation::Health => Endpoints::HEALTH.to_owned(),
            Operation::ListModels => Endpoints::MODELS_LIST.to_owned(),
            Operation::LoadModel => Endpoints::MODELS_LOAD.to_owned(),
            Operation::UnloadModel => Endpoints::MODELS_UNLOAD.to_owned(),
            Operation::ModelStatus(id) => {
                let mut v: Vec<char> = Vec::new();
                push_str(&mut v, Endpoints::MODELS_STATUS);
                v.push('/');
                push_str(&mut v, id.as_str());
                proof {
                    assert(v@ =~= self.path_model());
                }
                string_of(&v)
            },
            Operation::LoadedModels => Endpoints::MODELS_LOADED.to_owned(),
            Operation::DownloadModel => Endpoints::MODELS_DOWNLOAD.to_owned(),
            Operation::ChatCompletion => Endpoints::CHAT_COMPLETIONS.to_owned(),
            Operation::ChatCompletionStream => Endpoints::CHAT_COMPLETIONS_STREAM.to_owned(),
            Operation::DownloadStart => Endpoints::MODELS_DOWNLOAD.to_owned(),
            Operation::DownloadControl(id) => Endpoints::download_control(id.as_str()),
            Operation::DownloadModelLegacy => Endpoints::MODELS_DOWNLOAD_LEGACY.to_owned(),
        }
    }
}

/// The headers of a streaming request.
pub fn streaming_headers() -> (headers: Vec<Header>)
    ensures
        headers@.map_values(|h: Header| (h.name@, h.value@)) == streaming_header_model(),
{
    let mut headers: Vec<Header> = Vec::new();
    headers.push(Header { name: "Accept".to_owned(), value: "text/event-stream".to_owned() });
    headers.push(Header { name: "Cache-Control".to_owned(), value: "no-cache".to_owned() });
    proof {
        assert(headers@.map_values(|h: Header| (h.name@, h.value@)) =~= streaming_header_model());
    }
    headers
}

/// What the status of the answer to a streaming request means. A status in
/// 2xx opens the stream. Any other status ends the request at once with the
/// error that it stands for: a streaming request is never retried.
pub fn accept_stream_response(status: u16, body: String) -> (r: ClientResult<()>)
    ensures
        r is Ok <==> is_success(status),
        r matches Err(e) ==> e == ClientError::of_response(status, body),
{
    if 200 <= status && status <= 299 {
        Ok(())
    } else {
        Err(ClientError::from_response(status, body))
    }
}

/// A client of one server.
#[derive(Debug, Clone)]
pub struct LmoClient {
    config: ClientConfig,
    authorization: Option<String>,
}

impl LmoClient {
    /// The configuration of the client.
    pub closed spec fn settings(self) -> ClientConfig {
        self.config
    }

    /// The value of the `Authorization` header of every request, if the
    /// client has an API key.
    pub closed spec fn bearer(self) -> Option<Seq<char>> {
        match self.authorization {
            Some(a) => Some(a@),
            None => None,
        }
    }

    /// The `Authorization` header that goes with this API key.
    pub open spec fn bearer_of(api_key: Option<String>) -> Option<Seq<char>> {
        match api_key {
            Some(k) => Some("Bearer "@ + k@),
            None => None,
        }
    }

    /// Whether a client can be made of `config`: it is valid, and its API
    /// key, if it has one, can stand in a header.
    pub open spec fn accepts(config: ClientConfig) -> bool {
        config.is_valid() && match Self::bearer_of(config.api_key) {
            Some(b) => is_header_value(b),
            None => true,
        }
    }

    /// The request that carries out `operation`.
    pub open spec fn plan_model(self, operation: Operation) -> PlanModel {
        PlanModel {
            method: operation.method_model(),
            url: self.settings().url_of(operation.path_model()),
            headers: if operation.is_streaming() {
                streaming_header_model()
            } else {
                Seq::empty()
            },
            streaming: operation.is_streaming(),
        }
    }

    /// A client of the server on this machine.
    pub fn new() -> (r: ClientResult<Self>)
        ensures
            r is Ok <==> crate::config::url_is_valid("http://localhost:3000"@),
            r matches Ok(c) ==> c.settings().server_url@ == "http://localhost:3000"@
                && c.settings().is_valid() && c.settings().api_key is None
                && c.settings().max_retries == 3 && c.bearer() is None,
            r matches Err(e) ==> e matches ClientError::ConfigError(m) && crate::text::has_prefix(
                m@,
                "Invalid server URL: "@,
            ),
    {
        Self::with_config(ClientConfig::default())
    }

    /// A client of the server at `server_url`, otherwise configured as by
    /// default.
    pub fn with_url(server_url: &str) -> (r: ClientResult<Self>)
        ensures
            r is Ok <==> crate::config::url_is_valid(server_url@),
            r matches Ok(c) ==> c.settings().server_url@ == server_url@ && c.settings().is_valid()
                && c.settings().api_key is None && c.settings().max_retries == 3 && c.bearer()
                is None,
            r matches Err(e) ==> e matches ClientError::ConfigError(m) && crate::text::has_prefix(
                m@,
                "Invalid server URL: "@,
            ),
    {
        match ClientConfig::new(server_url) {
            Ok(config) => Self::with_config(config),
            Err(e) => Err(e),
        }
    }

    /// A client with this configuration. A configuration that is not valid,
    /// or whose API key cannot stand in a header, is refused as a
    /// configuration error.
    pub fn with_config(config: ClientConfig) -> (r: ClientResult<Self>)
        ensures
            r is Ok <==> Self::accepts(config),
            r matches Ok(c) ==> c.settings() == config && c.bearer() == Self::bearer_of(
                config.api_key,
            ),
            r matches Err(e) ==> if config.is_valid() {
                e matches ClientError::ConfigError(m) && m@
                    == "Invalid API key: failed to parse header value"@
            } else {
                config.is_refusal(e)
            },
    {
        match config.validate() {
            Ok(()) => {},
            Err(e) => { return Err(e); },
        }
        let authorization = match &config.api_key {
            Some(key) => {
                let mut v: Vec<char> = Vec::new();
                push_str(&mut v, "Bearer ");
                push_str(&mut v, key.as_str());
                let value = string_of(&v);
                match header_value(value.as_str()) {
                    Ok(_) => Some(value),
                    Err(e) => {
                        let mut m: Vec<char> = Vec::new();
                        push_str(&mut m, "Invalid API key: ");
                        push_str(&mut m, header_error_text(&e).as_str());
                        proof {
                            reveal_strlit("Invalid API key: ");
                            reveal_strlit("failed to parse header value");
                            reveal_strlit("Invalid API key: failed to parse header value");
                            assert(m@ =~= "Invalid API key: failed to parse header value"@);
                        }
                        return Err(ClientError::ConfigError(string_of(&m)));
                    },
                }
            },
            None => None,
        };
        Ok(LmoClient { config, authorization })
    }

    /// The configuration of the client.
    pub fn config(&self) -> (c: &ClientConfig)
        ensures
            *c == self.settings(),
    {
        &self.config
    }

    /// The value of the `Authorization` header of every request, if the
    /// client has an API key.
    pub fn authorization(&self) -> (a: Option<&String>)
        ensures
            match a {
                Some(v) => self.bearer() == Some(v@),
                None => self.bearer() is None,
            },
    {
        self.authorization.as_ref()
    }

    /// A builder of a chat request.
    pub fn chat(&self) -> (b: ChatRequestBuilder)
        ensures
            b@ == ChatRequestBuilder::new_model(),
    {
        ChatRequestBuilder::new()
    }

    /// The state of the retry policy before the first attempt of a request.
    pub fn retry_state(&self) -> (s: RetryState)
        ensures
            s.limit() == self.settings().max_retries,
            s.delay() == self.settings().retry_delay,
            s.used() == 0,
    {
        RetryState::new(self.config.max_retries, self.config.retry_delay.clone())
    }

    /// The request that carries out `operation`.
    pub fn request(&self, operation: &Operation) -> (r: ClientResult<RequestPlan>)
        ensures
            r matches Ok(p) && p@ == self.plan_model(*operation),
    {
        let path = operation.path();
        let url = match self.config.api_url(path.as_str()) {
            Ok(u) => u,
            Err(e) => { return Err(e); },
        };
        let streaming = match operation {
            Operation::ChatCompletionStream => true,
            _ => false,
        };
        let headers = if streaming {
            streaming_headers()
        } else {
            Vec::new()
        };
        let plan = RequestPlan { method: operation.method(), url, headers, streaming };
        proof {
            assert(plan@.headers =~= self.plan_model(*operation).headers);
        }
        Ok(plan)
    }

    /// The progress stream of the download `download_id`, with nothing
    /// received.
    pub fn download_progress_stream(&self, download_id: &str) -> (r: ClientResult<
        DownloadProgressStream,
    >)
        ensures
            r matches Ok(s) && s.id() == download_id@ && !s.ended() && s.held_back() == Seq::<
                char,
            >::empty() && s.address() == self.settings().url_of(
                "v1/models/download/"@ + download_id@ + "/progress"@,
            ),
    {
        let endpoint = Endpoints::download_progress_sse(download_id);
        let url = match self.config.api_url(endpoint.as_str()) {
            Ok(u) => u,
            Err(e) => { return Err(e); },
        };
        DownloadProgressStream::new(url, download_id.to_owned())
    }
}

} // verus!
