//! Talking to the prediction service: what is sent, and what is accepted.
//!
//! The library builds the request as plain text and judges the answer. The
//! exchange itself belongs to the caller.

use vstd::prelude::*;
use vstd::string::StringExecFns;
use crate::catalog::catalog_has_id;
use crate::error::AppError;
use crate::input_source::{has_id, source_views, InputSource, InputSourceView};
use crate::text::{text_trim, text_trim_end_matches, trimmed, without_trailing};

verus! {

/// How to reach the prediction service.
#[derive(Debug)]
pub struct LLMConfig {
    pub api_key: String,
    pub model: String,
    pub base_url: String,
}

/// The mathematical value of an [`LLMConfig`].
pub struct LLMConfigView {
    pub api_key: Seq<char>,
    pub model: Seq<char>,
    pub base_url: Seq<char>,
}

impl View for LLMConfig {
    type V = LLMConfigView;

    open spec fn view(&self) -> LLMConfigView {
        LLMConfigView { api_key: self.api_key@, model: self.model@, base_url: self.base_url@ }
    }
}

impl Clone for LLMConfig {
    fn clone(&self) -> (copy: Self)
        ensures
            copy@ == self@,
    {
        LLMConfig {
            api_key: self.api_key.clone(),
            model: self.model.clone(),
            base_url: self.base_url.clone(),
        }
    }
}

/// The model that is asked when none is configured.
pub open spec fn default_model() -> Seq<char> {
    "gpt-3.5-turbo"@
}

/// The service that is asked when none is configured.
pub open spec fn default_base_url() -> Seq<char> {
    "https://api.openai.com/v1"@
}

/// What stands in for a key that is not shown.
pub open spec fn key_mask() -> Seq<char> {
    "******"@
}

impl Default for LLMConfig {
    fn default() -> (config: Self)
        ensures
            config@ == (LLMConfigView {
                api_key: Seq::empty(),
                model: default_model(),
                base_url: default_base_url(),
            }),
    {
        LLMConfig {
            api_key: String::new(),
            model: "gpt-3.5-turbo".to_owned(),
            base_url: "https://api.openai.com/v1".to_owned(),
        }
    }
}

impl LLMConfigView {
    /// Key, model and service are all given: none is blank once trimmed.
    pub open spec fn is_complete(self) -> bool {
        &&& trimmed(self.api_key).len() > 0
        &&& trimmed(self.model).len() > 0
        &&& trimmed(self.base_url).len() > 0
    }
}

impl LLMConfig {
    /// Whether key, model and service are all given.
    pub fn is_complete(&self) -> (complete: bool)
        ensures
            complete == self@.is_complete(),
    {
        !text_trim(self.api_key.as_str()).is_empty() && !text_trim(self.model.as_str()).is_empty()
            && !text_trim(self.base_url.as_str()).is_empty()
    }

    /// The configuration as it is shown: a key that is set reads as a mask.
    pub fn masked(self) -> (shown: LLMConfig)
        ensures
            shown@.model == self@.model,
            shown@.base_url == self@.base_url,
            shown@.api_key == (if self@.api_key.len() == 0 {
                self@.api_key
            } else {
                key_mask()
            }),
    {
        if self.api_key.as_str().is_empty() {
            self
        } else {
            LLMConfig { api_key: "******".to_owned(), model: self.model, base_url: self.base_url }
        }
    }

    /// The configuration that three environment values give: none without a
    /// key; a missing model or service is the default one.
    pub fn from_environment(
        api_key: Option<String>,
        model: Option<String>,
        base_url: Option<String>,
    ) -> (config: Option<LLMConfig>)
        ensures
            config is Some <==> api_key is Some,
            config is Some ==> config->0@ == (LLMConfigView {
                api_key: api_key->0@,
                model: match model {
                    Some(m) => m@,
                    None => default_model(),
                },
                base_url: match base_url {
                    Some(u) => u@,
                    None => default_base_url(),
                },
            }),
    {
        match api_key {
            None => None,
            Some(api_key) => Some(
                LLMConfig {
                    api_key,
                    model: match model {
                        Some(m) => m,
                        None => "gpt-3.5-turbo".to_owned(),
                    },
                    base_url: match base_url {
                        Some(u) => u,
                        None => "https://api.openai.com/v1".to_owned(),
                    },
                },
            ),
        }
    }
}

/// One chat request, as plain text: where it goes, the credential header,
/// the model, and the single user message.
#[derive(Debug)]
pub struct ChatRequest {
    pub url: String,
    pub authorization: String,
    pub model: String,
    pub content: String,
}

/// The address of the chat endpoint under a service address.
pub open spec fn chat_url(base_url: Seq<char>) -> Seq<char> {
    without_trailing(base_url, '/') + "/chat/completions"@
}

/// The credential header for a key.
pub open spec fn bearer(api_key: Seq<char>) -> Seq<char> {
    "Bearer "@ + api_key
}

/// The line that describes one input source in a prompt.
pub open spec fn source_line(source: InputSourceView) -> Seq<char> {
    "- ID: "@ + source.id + ", Name: "@ + source.name
}

/// The lines that describe the input sources, joined by line breaks.
pub open spec fn sources_description(list: Seq<InputSourceView>) -> Seq<char>
    decreases list.len(),
{
    if list.len() == 0 {
        Seq::empty()
    } else if list.len() == 1 {
        source_line(list[0])
    } else {
        sources_description(list.drop_last()) + "\n"@ + source_line(list.last())
    }
}

/// The opening of a prompt, up to the application's name.
pub open spec fn prompt_opening() -> Seq<char> {
    "You are an intelligent assistant for macOS input method switching.\nTarget Application:\n- Name: "@
}

/// The part of a prompt between the application's name and its bundle id.
pub open spec fn prompt_bundle_label() -> Seq<char> {
    "\n- Bundle ID: "@
}

/// The part of a prompt between the bundle id and the input sources.
pub open spec fn prompt_sources_label() -> Seq<char> {
    "\n\nAvailable Input Sources:\n"@
}

/// The task and the answer format that end a prompt.
pub open spec fn prompt_task() -> Seq<char> {
    "\n\nTask:\nSelect the most appropriate input source ID for the target application.\n- For code editors (VS Code, IntelliJ, Terminal), English is usually preferred.\n- For chat apps (WeChat, WhatsApp), local language (Chinese) is often preferred, but depends on context.\n- For browsers, English is a safe default unless it's a specific Chinese site wrapper.\n\nResponse Format:\nJust output the ID string of the selected input source. Do not output any other text.\n"@
}

/// The prompt that asks for the input source of an application.
pub open spec fn prompt_text(
    app_name: Seq<char>,
    bundle_id: Seq<char>,
    sources: Seq<InputSourceView>,
) -> Seq<char> {
    prompt_opening() + app_name + prompt_bundle_label() + bundle_id + prompt_sources_label()
        + sources_description(sources) + prompt_task()
}

/// The address of the chat endpoint under a service address.
pub fn chat_completions_url(base_url: &str) -> (url: String)
    ensures
        url@ == chat_url(base_url@),
{
    let mut url = text_trim_end_matches(base_url, '/').to_owned();
    url.append("/chat/completions");
    url
}

/// The credential header for a key.
pub fn authorization_header(api_key: &str) -> (header: String)
    ensures
        header@ == bearer(api_key@),
{
    let mut header = "Bearer ".to_owned();
    header.append(api_key);
    header
}

/// The lines that describe the input sources in a prompt.
pub fn describe_sources(input_sources: &[InputSource]) -> (text: String)
    ensures
        text@ == sources_description(source_views(input_sources@)),
{
    let ghost views = source_views(input_sources@);
    let mut text = String::new();
    let mut i: usize = 0;
    proof {
        assert(views.take(0) =~= Seq::empty());
    }
    while i < input_sources.len()
        invariant
            i <= input_sources.len(),
            views == source_views(input_sources@),
            text@ == sources_description(views.take(i as int)),
        decreases input_sources.len() - i,
    {
        let ghost before = text@;
        proof {
            assert(views.take(i + 1).drop_last() =~= views.take(i as int));
            assert(views.take(i + 1).last() == input_sources[i as int]@);
            assert(views.take(i + 1)[0] == views[0]);
        }
        if i > 0 {
            text.append("\n");
        }
        text.append("- ID: ");
        text.append(input_sources[i].id.as_str());
        text.append(", Name: ");
        text.append(input_sources[i].name.as_str());
        proof {
            let line = source_line(input_sources[i as int]@);
            if i > 0 {
                assert(text@ =~= before + "\n"@ + line);
            } else {
                assert(before =~= Seq::empty());
                assert(text@ =~= line);
            }
        }
        i += 1;
    }
    proof {
        assert(views.take(input_sources.len() as int) =~= views);
    }
    text
}

/// The prompt that asks for the input source of an application.
pub fn build_prompt(app_name: &str, bundle_id: &str, input_sources: &[InputSource]) -> (prompt:
    String)
    ensures
        prompt@ == prompt_text(app_name@, bundle_id@, source_views(input_sources@)),
{
    let sources_desc = describe_sources(input_sources);
    let mut prompt =
        "You are an intelligent assistant for macOS input method switching.\nTarget Application:\n- Name: ".to_owned();
    prompt.append(app_name);
    prompt.append("\n- Bundle ID: ");
    prompt.append(bundle_id);
    prompt.append("\n\nAvailable Input Sources:\n");
    prompt.append(sources_desc.as_str());
    prompt.append(
        "\n\nTask:\nSelect the most appropriate input source ID for the target application.\n- For code editors (VS Code, IntelliJ, Terminal), English is usually preferred.\n- For chat apps (WeChat, WhatsApp), local language (Chinese) is often preferred, but depends on context.\n- For browsers, English is a safe default unless it's a specific Chinese site wrapper.\n\nResponse Format:\nJust output the ID string of the selected input source. Do not output any other text.\n",
    );
    prompt
}

/// The request that tests a configuration: a greeting to the configured
/// model. A configuration without a key is refused.
pub fn connection_check_request(config: &LLMConfig) -> (request: Result<ChatRequest, AppError>)
    ensures
        request is Ok <==> config@.api_key.len() > 0,
        request matches Ok(r) ==> {
            &&& r.url@ == chat_url(config@.base_url)
            &&& r.authorization@ == bearer(config@.api_key)
            &&& r.model@ == config@.model
            &&& r.content@ == "Hi"@
        },
        request matches Err(e) ==> e matches AppError::Llm(m) && m@ == "API Key cannot be empty"@,
{
    if config.api_key.as_str().is_empty() {
        return Err(AppError::Llm("API Key cannot be empty".to_owned()));
    }
    Ok(
        ChatRequest {
            url: chat_completions_url(config.base_url.as_str()),
            authorization: authorization_header(config.api_key.as_str()),
            model: config.model.clone(),
            content: "Hi".to_owned(),
        },
    )
}

/// The request that asks for the input source of an application. A
/// configuration without a key is refused.
pub fn prediction_request(
    config: &LLMConfig,
    app_name: &str,
    bundle_id: &str,
    input_sources: &[InputSource],
) -> (request: Result<ChatRequest, AppError>)
    ensures
        request is Ok <==> config@.api_key.len() > 0,
        request matches Ok(r) ==> {
            &&& r.url@ == chat_url(config@.base_url)
            &&& r.authorization@ == bearer(config@.api_key)
            &&& r.model@ == config@.model
            &&& r.content@ == prompt_text(app_name@, bundle_id@, source_views(input_sources@))
        },
        request matches Err(e) ==> e matches AppError::Llm(m) && m@ == "API Key not configured"@,
{
    if config.api_key.as_str().is_empty() {
        return Err(AppError::Llm("API Key not configured".to_owned()));
    }
    Ok(
        ChatRequest {
            url: chat_completions_url(config.base_url.as_str()),
            authorization: authorization_header(config.api_key.as_str()),
            model: config.model.clone(),
            content: build_prompt(app_name, bundle_id, input_sources),
        },
    )
}

/// The error for a request that the service answered with a failure status.
pub fn request_failed(during_check: bool, error_text: &str) -> (error: AppError)
    ensures
        error matches AppError::Llm(m) && m@ == (if during_check {
            "Connection failed: "@
        } else {
            "API request failed: "@
        }) + error_text@,
{
    let mut message = if during_check {
        "Connection failed: ".to_owned()
    } else {
        "API request failed: ".to_owned()
    };
    message.append(error_text);
    AppError::Llm(message)
}

/// Judges an id that the service named: it is accepted exactly when it is
/// the id of one of the candidates.
pub fn accept_prediction(selected_id: String, input_sources: &[InputSource]) -> (accepted: Result<
    String,
    AppError,
>)
    ensures
        accepted is Ok <==> has_id(source_views(input_sources@), selected_id@),
        accepted matches Ok(id) ==> id@ == selected_id@,
        accepted matches Err(e) ==> e matches AppError::Llm(m) && m@ == "AI returned invalid ID: "@
            + selected_id@,
{
    if catalog_has_id(input_sources, selected_id.as_str()) {
        Ok(selected_id)
    } else {
        let mut message = "AI returned invalid ID: ".to_owned();
        message.append(selected_id.as_str());
        Err(AppError::Llm(message))
    }
}

/// Judges the answer of the service. The content of its first choice,
/// trimmed, must be the id of one of the candidates; an answer without any
/// choice is an error.
pub fn select_prediction(first_choice: Option<&str>, input_sources: &[InputSource]) -> (accepted:
    Result<String, AppError>)
    ensures
        accepted is Ok <==> first_choice is Some && has_id(
            source_views(input_sources@),
            trimmed(first_choice->0@),
        ),
        accepted matches Ok(id) ==> id@ == trimmed(first_choice->0@),
        accepted matches Err(e) ==> e matches AppError::Llm(m) && m@ == (match first_choice {
            Some(content) => "AI returned invalid ID: "@ + trimmed(content@),
            None => "No response from AI"@,
        }),
{
    match first_choice {
        Some(content) => accept_prediction(text_trim(content).to_owned(), input_sources),
        None => Err(AppError::Llm("No response from AI".to_owned())),
    }
}

} // verus!
