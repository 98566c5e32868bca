//! The query pipeline as a state machine.
//!
//! One question goes through the stages embedding, normalizing, retrieving,
//! prompt building and generating, in this order, and ends as done or as
//! failed. The work of a stage is done by the caller: [`PipelineState::step`]
//! takes what has happened and says which stage comes next and what is to be
//! done for it. Any failure ends the run at once.

use crate::index::{StorageError, StorageFault};
use crate::llm::{
    is_success, reception, HttpRequest, HttpRequestView, LLMRequest, LLMRequestView, LLMError,
    LLMFault,
};
use crate::number::Temperature;
use crate::prompt::{
    contents_of, generate_prompt_msgs, join_lines, prompt_messages, TableContent,
};
use vstd::prelude::*;

verus! {

/// How many rows a question retrieves.
pub const RETRIEVED_ROWS: usize = 20;

/// The `max_tokens` of the pipeline's requests.
pub const PIPELINE_MAX_TOKENS: u32 = 800;

/// The temperature of the pipeline's requests, in thousandths: 0.5.
pub const PIPELINE_TEMPERATURE_THOUSANDTHS: u32 = 500;

/// The number of components of the deployment's embedding vectors.
pub const EMBEDDING_DIMENSION: usize = 384;

/// The status of an answer.
pub const ANSWER_STATUS: u16 = 200;

/// The status of a reported failure.
pub const FAILURE_STATUS: u16 = 500;

/// A required setting that is missing.
#[derive(Debug)]
pub enum ConfigurationError {
    MissingApiKey,
    MissingApiUrl,
}

impl ConfigurationError {
    /// The words in which the error is reported.
    pub open spec fn description(self) -> Seq<char> {
        match self {
            ConfigurationError::MissingApiKey => "OPENAI_API_KEY not set"@,
            ConfigurationError::MissingApiUrl => "OPENAI_API_URL not set"@,
        }
    }

    /// The words in which the error is reported.
    pub fn describe(&self) -> (text: String)
        ensures
            text@ == self.description(),
    {
        match self {
            ConfigurationError::MissingApiKey => String::from_str("OPENAI_API_KEY not set"),
            ConfigurationError::MissingApiUrl => String::from_str("OPENAI_API_URL not set"),
        }
    }
}

/// Where the language model is reached, and with which key.
#[derive(Debug)]
pub struct LLMConfig {
    pub api_key: String,
    pub api_url: String,
}

/// The mathematical model of an [`LLMConfig`].
pub struct LLMConfigView {
    pub api_key: Seq<char>,
    pub api_url: Seq<char>,
}

impl View for LLMConfig {
    type V = LLMConfigView;

    open spec fn view(&self) -> LLMConfigView {
        LLMConfigView { api_key: self.api_key@, api_url: self.api_url@ }
    }
}

impl LLMConfig {
    /// The configuration made of the two settings, each `None` where it is
    /// not set. The key is looked at first.
    pub fn from_settings(api_key: Option<String>, api_url: Option<String>) -> (config: Result<
        LLMConfig,
        ConfigurationError,
    >)
        ensures
            match config {
                Ok(config) => api_key == Some(config.api_key) && api_url == Some(config.api_url),
                Err(ConfigurationError::MissingApiKey) => api_key is None,
                Err(ConfigurationError::MissingApiUrl) => api_key is Some && api_url is None,
            },
    {
        match api_key {
            None => Err(ConfigurationError::MissingApiKey),
            Some(api_key) => match api_url {
                None => Err(ConfigurationError::MissingApiUrl),
                Some(api_url) => Ok(LLMConfig { api_key, api_url }),
            },
        }
    }
}

/// Why the question was not embedded.
#[derive(Debug)]
pub enum EmbeddingError {
    /// The model is unavailable or could not encode the text; its own words
    /// are kept.
    Model(String),
    /// The model returned no vector at all.
    NoVector,
}

/// The mathematical model of an [`EmbeddingError`].
pub enum EmbeddingFault {
    Model(Seq<char>),
    NoVector,
}

impl View for EmbeddingError {
    type V = EmbeddingFault;

    open spec fn view(&self) -> EmbeddingFault {
        match self {
            EmbeddingError::Model(reason) => EmbeddingFault::Model(reason@),
            EmbeddingError::NoVector => EmbeddingFault::NoVector,
        }
    }
}

impl EmbeddingFault {
    /// The words in which the fault is reported.
    pub open spec fn description(self) -> Seq<char> {
        match self {
            EmbeddingFault::Model(reason) => "embedding failed: "@ + reason,
            EmbeddingFault::NoVector => "embedding failed: the model returned no vector"@,
        }
    }
}

impl EmbeddingError {
    /// The words in which the error is reported.
    pub fn describe(&self) -> (text: String)
        ensures
            text@ == self@.description(),
    {
        match self {
            EmbeddingError::Model(reason) => {
                let mut text = String::from_str("embedding failed: ");
                text.append(reason.as_str());
                text
            },
            EmbeddingError::NoVector => String::from_str(
                "embedding failed: the model returned no vector",
            ),
        }
    }
}

/// Why a question was not answered.
#[derive(Debug)]
pub enum PipelineError {
    Embedding(EmbeddingError),
    Storage(StorageError),
    Llm(LLMError),
}

/// The mathematical model of a [`PipelineError`].
pub enum PipelineFault {
    Embedding(EmbeddingFault),
    Storage(StorageFault),
    Llm(LLMFault),
}

impl View for PipelineError {
    type V = PipelineFault;

    open spec fn view(&self) -> PipelineFault {
        match self {
            PipelineError::Embedding(error) => PipelineFault::Embedding(error@),
            PipelineError::Storage(error) => PipelineFault::Storage(error@),
            PipelineError::Llm(error) => PipelineFault::Llm(error@),
        }
    }
}

impl PipelineFault {
    /// The words in which the fault is reported.
    pub open spec fn description(self) -> Seq<char> {
        match self {
            PipelineFault::Embedding(fault) => fault.description(),
            PipelineFault::Storage(fault) => fault.description(),
            PipelineFault::Llm(fault) => fault.description(),
        }
    }
}

impl PipelineError {
    /// The words in which the error is reported.
    pub fn describe(&self) -> (text: String)
        ensures
            text@ == self@.description(),
    {
        match self {
            PipelineError::Embedding(error) => error.describe(),
            PipelineError::Storage(error) => error.describe(),
            PipelineError::Llm(error) => error.describe(),
        }
    }
}

/// What has happened since the last step.
#[derive(Debug)]
pub enum Event {
    /// The embedding model returned this many vectors, the first of them the
    /// question's.
    Embedded { vectors: usize },
    /// The embedding model failed.
    EmbeddingFailed(String),
    /// The vector was normalized.
    Normalized,
    /// The index returned these rows, the most similar first.
    Retrieved(Vec<TableContent>),
    /// The index failed.
    RetrievalFailed(StorageError),
    /// Nothing outside was asked for: the pipeline goes on by itself.
    Proceeded,
    /// The language model answered the POST.
    LlmReplied { status: u16, body: String },
    /// The POST could not be made; the transport's own words are kept.
    LlmUnreachable(String),
}

/// The mathematical model of an [`Event`].
pub enum EventView {
    Embedded { vectors: usize },
    EmbeddingFailed(Seq<char>),
    Normalized,
    Retrieved(Seq<Seq<char>>),
    RetrievalFailed(StorageFault),
    Proceeded,
    LlmReplied { status: u16, body: Seq<char> },
    LlmUnreachable(Seq<char>),
}

impl View for Event {
    type V = EventView;

    open spec fn view(&self) -> EventView {
        match self {
            Event::Embedded { vectors } => EventView::Embedded { vectors: *vectors },
            Event::EmbeddingFailed(reason) => EventView::EmbeddingFailed(reason@),
            Event::Normalized => EventView::Normalized,
            Event::Retrieved(rows) => EventView::Retrieved(contents_of(rows@)),
            Event::RetrievalFailed(error) => EventView::RetrievalFailed(error@),
            Event::Proceeded => EventView::Proceeded,
            Event::LlmReplied { status, body } => EventView::LlmReplied {
                status: *status,
                body: body@,
            },
            Event::LlmUnreachable(reason) => EventView::LlmUnreachable(reason@),
        }
    }
}

/// What the caller is to do next.
#[derive(Debug)]
pub enum Action {
    /// Ask the embedding model for the vectors of these texts.
    Embed { texts: Vec<String> },
    /// Normalize the vector.
    Normalize,
    /// Search the index, under its read lock, for the `k` most similar rows.
    Search { k: usize },
    /// Nothing outside: step again with [`Event::Proceeded`].
    Proceed,
    /// Make this POST.
    CallLlm(HttpRequest),
    /// Answer the caller of the service.
    Respond { status: u16, body: String },
    /// Nothing: the event was not the one awaited, or the run is over.
    Idle,
}

/// The mathematical model of an [`Action`].
pub enum ActionView {
    Embed { texts: Seq<Seq<char>> },
    Normalize,
    Search { k: usize },
    Proceed,
    CallLlm(HttpRequestView),
    Respond { status: u16, body: Seq<char> },
    Idle,
}

impl View for Action {
    type V = ActionView;

    open spec fn view(&self) -> ActionView {
        match self {
            Action::Embed { texts } => ActionView::Embed { texts: texts.deep_view() },
            Action::Normalize => ActionView::Normalize,
            Action::Search { k } => ActionView::Search { k: *k },
            Action::Proceed => ActionView::Proceed,
            Action::CallLlm(post) => ActionView::CallLlm(post@),
            Action::Respond { status, body } => ActionView::Respond {
                status: *status,
                body: body@,
            },
            Action::Idle => ActionView::Idle,
        }
    }
}

/// Where a question stands.
pub enum PipelineState {
    Embedding { query: String },
    Normalizing { query: String },
    Retrieving { query: String },
    PromptBuilding { query: String, rows: Vec<TableContent> },
    Generating { request: LLMRequest },
    Done { answer: String },
    Failed { error: PipelineError },
}

/// The mathematical model of a [`PipelineState`].
pub enum Stage {
    Embedding { query: Seq<char> },
    Normalizing { query: Seq<char> },
    Retrieving { query: Seq<char> },
    PromptBuilding { query: Seq<char>, rows: Seq<Seq<char>> },
    Generating { request: LLMRequestView },
    Done { answer: Seq<char> },
    Failed { error: PipelineFault },
}

impl View for PipelineState {
    type V = Stage;

    open spec fn view(&self) -> Stage {
        match self {
            PipelineState::Embedding { query } => Stage::Embedding { query: query@ },
            PipelineState::Normalizing { query } => Stage::Normalizing { query: query@ },
            PipelineState::Retrieving { query } => Stage::Retrieving { query: query@ },
            PipelineState::PromptBuilding { query, rows } => Stage::PromptBuilding {
                query: query@,
                rows: contents_of(rows@),
            },
            PipelineState::Generating { request } => Stage::Generating { request: request@ },
            PipelineState::Done { answer } => Stage::Done { answer: answer@ },
            PipelineState::Failed { error } => Stage::Failed { error: error@ },
        }
    }
}

/// The request that the pipeline sends for a question and its rows.
pub open spec fn pipeline_request(
    query: Seq<char>,
    rows: Seq<Seq<char>>,
    config: LLMConfigView,
) -> LLMRequestView {
    LLMRequestView {
        messages: prompt_messages(join_lines(rows), query),
        max_tokens: PIPELINE_MAX_TOKENS,
        temperature: Temperature { thousandths: PIPELINE_TEMPERATURE_THOUSANDTHS },
        api_url: config.api_url,
        api_key: config.api_key,
    }
}

/// The end of a run that failed: the stage, and the answer that reports it.
pub open spec fn failure(fault: PipelineFault) -> (Stage, ActionView) {
    (
        Stage::Failed { error: fault },
        ActionView::Respond { status: FAILURE_STATUS, body: fault.description() },
    )
}

/// The stage that follows `stage` on `event`, and what is to be done for it.
/// An event that the stage does not await changes nothing.
pub open spec fn transition(stage: Stage, event: EventView, config: LLMConfigView) -> (
    Stage,
    ActionView,
) {
    match (stage, event) {
        (Stage::Embedding { query }, EventView::Embedded { vectors }) => if vectors == 0 {
            failure(PipelineFault::Embedding(EmbeddingFault::NoVector))
        } else {
            (Stage::Normalizing { query }, ActionView::Normalize)
        },
        (Stage::Embedding { query }, EventView::EmbeddingFailed(reason)) => failure(
            PipelineFault::Embedding(EmbeddingFault::Model(reason)),
        ),
        (Stage::Normalizing { query }, EventView::Normalized) => (
            Stage::Retrieving { query },
            ActionView::Search { k: RETRIEVED_ROWS },
        ),
        (Stage::Retrieving { query }, EventView::Retrieved(rows)) => (
            Stage::PromptBuilding { query, rows },
            ActionView::Proceed,
        ),
        (Stage::Retrieving { query }, EventView::RetrievalFailed(fault)) => failure(
            PipelineFault::Storage(fault),
        ),
        (Stage::PromptBuilding { query, rows }, EventView::Proceeded) => {
            let request = pipeline_request(query, rows, config);
            match request.post() {
                Some(post) => (Stage::Generating { request }, ActionView::CallLlm(post)),
                None => failure(PipelineFault::Llm(LLMFault::Unencodable)),
            }
        },
        (Stage::Generating { request }, EventView::LlmReplied { status, body }) => match reception(
            status,
            body,
        ) {
            Ok(answer) => (
                Stage::Done { answer },
                ActionView::Respond { status: ANSWER_STATUS, body: answer },
            ),
            Err(fault) => failure(PipelineFault::Llm(fault)),
        },
        (Stage::Generating { request }, EventView::LlmUnreachable(reason)) => failure(
            PipelineFault::Llm(LLMFault::Network(reason)),
        ),
        _ => (stage, ActionView::Idle),
    }
}

/// The stage reached from `stage` after the events, one step for each.
pub open spec fn run(stage: Stage, events: Seq<EventView>, config: LLMConfigView) -> Stage
    decreases events.len(),
{
    if events.len() == 0 {
        stage
    } else {
        transition(run(stage, events.drop_last(), config), events.last(), config).0
    }
}

/// The place of a stage in the order of the stages.
pub open spec fn stage_number(stage: Stage) -> nat {
    match stage {
        Stage::Embedding { .. } => 0,
        Stage::Normalizing { .. } => 1,
        Stage::Retrieving { .. } => 2,
        Stage::PromptBuilding { .. } => 3,
        Stage::Generating { .. } => 4,
        Stage::Done { .. } => 5,
        Stage::Failed { .. } => 6,
    }
}

/// The answer that reports a failure.
fn fail(error: PipelineError) -> (next: (PipelineState, Action))
    ensures
        (next.0@, next.1@) == failure(error@),
{
    let body = error.describe();
    (PipelineState::Failed { error }, Action::Respond { status: FAILURE_STATUS, body })
}

impl PipelineState {
    /// Takes a question in: the first stage, and the call of the embedding
    /// model with the question as a batch of one.
    pub fn start(query: String) -> (first: (PipelineState, Action))
        ensures
            first.0@ == (Stage::Embedding { query: query@ }),
            first.1@ == (ActionView::Embed { texts: seq![query@] }),
    {
        let mut texts: Vec<String> = Vec::new();
        texts.push(query.clone());
        assert(texts.deep_view() =~= seq![query@]);
        (PipelineState::Embedding { query }, Action::Embed { texts })
    }

    /// Goes on from this stage with what has happened.
    pub fn step(self, event: Event, config: &LLMConfig) -> (next: (PipelineState, Action))
        ensures
            (next.0@, next.1@) == transition(self@, event@, config@),
    {
        match self {
            PipelineState::Embedding { query } => match event {
                Event::Embedded { vectors } => if vectors == 0 {
                    fail(PipelineError::Embedding(EmbeddingError::NoVector))
                } else {
                    (PipelineState::Normalizing { query }, Action::Normalize)
                },
                Event::EmbeddingFailed(reason) => fail(
                    PipelineError::Embedding(EmbeddingError::Model(reason)),
                ),
                _ => (PipelineState::Embedding { query }, Action::Idle),
            },
            PipelineState::Normalizing { query } => match event {
                Event::Normalized => (
                    PipelineState::Retrieving { query },
                    Action::Search { k: RETRIEVED_ROWS },
                ),
                _ => (PipelineState::Normalizing { query }, Action::Idle),
            },
            PipelineState::Retrieving { query } => match event {
                Event::Retrieved(rows) => (
                    PipelineState::PromptBuilding { query, rows },
                    Action::Proceed,
                ),
                Event::RetrievalFailed(error) => fail(PipelineError::Storage(error)),
                _ => (PipelineState::Retrieving { query }, Action::Idle),
            },
            PipelineState::PromptBuilding { query, rows } => match event {
                Event::Proceeded => {
                    let messages = generate_prompt_msgs(query, rows);
                    let request = LLMRequest::builder().messages(messages).api_key(
                        config.api_key.clone(),
                    ).api_url(config.api_url.clone()).max_tokens(PIPELINE_MAX_TOKENS).temperature(
                        Temperature::from_thousandths(PIPELINE_TEMPERATURE_THOUSANDTHS),
                    ).build();
                    match request.prepare() {
                        Ok(post) => (PipelineState::Generating { request }, Action::CallLlm(post)),
                        Err(error) => fail(PipelineError::Llm(error)),
                    }
                },
                _ => (PipelineState::PromptBuilding { query, rows }, Action::Idle),
            },
            PipelineState::Generating { request } => match event {
                Event::LlmReplied { status, body } => match request.receive(status, body) {
                    Ok(answer) => {
                        let body = answer.clone();
                        (
                            PipelineState::Done { answer },
                            Action::Respond { status: ANSWER_STATUS, body },
                        )
                    },
                    Err(error) => fail(PipelineError::Llm(error)),
                },
                Event::LlmUnreachable(reason) => fail(
                    PipelineError::Llm(LLMError::Network(reason)),
                ),
                _ => (PipelineState::Generating { request }, Action::Idle),
            },
            PipelineState::Done { answer } => (PipelineState::Done { answer }, Action::Idle),
            PipelineState::Failed { error } => (PipelineState::Failed { error }, Action::Idle),
        }
    }
}

/// The answer of the health probe: the word that all is well where the
/// search went through, and the failure's words where it did not.
pub fn probe_reply(found: &Result<Vec<TableContent>, StorageError>) -> (reply: (u16, String))
    ensures
        match found {
            Ok(_) => reply.0 == ANSWER_STATUS && reply.1@ == "all good!"@,
            Err(error) => reply.0 == FAILURE_STATUS && reply.1@ == error@.description(),
        },
{
    match found {
        Ok(_) => (ANSWER_STATUS, String::from_str("all good!")),
        Err(error) => (FAILURE_STATUS, error.describe()),
    }
}

/// A run that is over stays as it is: after done or failed, no event changes
/// the stage, and nothing more is asked for.
pub proof fn lemma_end_is_final(stage: Stage, events: Seq<EventView>, config: LLMConfigView)
    requires
        stage is Done || stage is Failed,
    ensures
        run(stage, events, config) == stage,
        events.len() > 0 ==> transition(
            run(stage, events.drop_last(), config),
            events.last(),
            config,
        ).1 == ActionView::Idle,
    decreases events.len(),
{
    if events.len() > 0 {
        lemma_end_is_final(stage, events.drop_last(), config);
    }
}

/// A step leaves the stage as it is, moves to the stage that follows it in
/// the order of the stages, or fails: no stage is skipped and none comes
/// twice.
pub proof fn lemma_stages_in_order(stage: Stage, event: EventView, config: LLMConfigView)
    ensures
        ({
            let next = transition(stage, event, config).0;
            ||| next == stage
            ||| next is Failed
            ||| stage_number(next) == stage_number(stage) + 1
        }),
{
}

/// Every failure of a stage ends the run as failed, with the failure's words
/// as the answer and the status of a failure: nothing is retrieved and the
/// language model is not called after it.
pub proof fn lemma_failure_ends_run(stage: Stage, event: EventView, config: LLMConfigView)
    ensures
        stage is Embedding && event is EmbeddingFailed ==> transition(stage, event, config)
            == failure(PipelineFault::Embedding(EmbeddingFault::Model(event->EmbeddingFailed_0))),
        stage is Embedding && event == (EventView::Embedded { vectors: 0 }) ==> transition(
            stage,
            event,
            config,
        ) == failure(PipelineFault::Embedding(EmbeddingFault::NoVector)),
        stage is Retrieving && event is RetrievalFailed ==> transition(stage, event, config)
            == failure(PipelineFault::Storage(event->RetrievalFailed_0)),
        stage is Generating && event is LlmUnreachable ==> transition(stage, event, config)
            == failure(PipelineFault::Llm(LLMFault::Network(event->LlmUnreachable_0))),
        stage is Generating && event is LlmReplied && !is_success(event->status) ==> transition(
            stage,
            event,
            config,
        ) == failure(PipelineFault::Llm(LLMFault::Status(event->status))),
        transition(stage, event, config).0 is Failed ==> !(transition(stage, event, config).1
            is CallLlm) && !(transition(stage, event, config).1 is Search),
{
}

/// The answer of a run is the text that was read from the language model's
/// reply, unchanged, with the status of an answer.
pub proof fn lemma_answer_is_the_reply(
    request: LLMRequestView,
    status: u16,
    body: Seq<char>,
    config: LLMConfigView,
)
    requires
        reception(status, body) is Ok,
    ensures
        transition(
            Stage::Generating { request },
            EventView::LlmReplied { status, body },
            config,
        ) == (
            Stage::Done { answer: reception(status, body)->Ok_0 },
            ActionView::Respond { status: ANSWER_STATUS, body: reception(status, body)->Ok_0 },
        ),
{
}

/// The pipeline always asks the index for the same number of rows, and sends
/// the language model two messages with its own `max_tokens` and temperature.
pub proof fn lemma_pipeline_parameters(stage: Stage, event: EventView, config: LLMConfigView)
    ensures
        ({
            let (next, action) = transition(stage, event, config);
            &&& action is Search ==> action == (ActionView::Search { k: RETRIEVED_ROWS })
            &&& action is CallLlm ==> {
                &&& next is Generating
                &&& next->request.post() == Some(action->CallLlm_0)
                &&& next->request.messages.len() == 2
                &&& next->request.max_tokens == PIPELINE_MAX_TOKENS
                &&& next->request.temperature.thousandths == PIPELINE_TEMPERATURE_THOUSANDTHS
                &&& next->request.api_url == config.api_url
                &&& next->request.api_key == config.api_key
            }
        }),
{
}

} // verus!
