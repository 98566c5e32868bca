//! The chat-completion request and the reading of its reply.
//!
//! A request is built here as a JSON document and written out as the body of
//! one HTTP POST; the reply's body is read back and the generated text taken
//! from `choices[0].message.content`. Sending the POST is left to the caller.

use crate::codec::{json_parse, parse, render, rendered};
use crate::json::{lemma_first_with_key, Json, JsonDoc};
use crate::number::{decimal_digits, decimal_text, Temperature};
use vstd::prelude::*;

verus! {

/// The `max_tokens` of a request that sets none.
pub const DEFAULT_MAX_TOKENS: u32 = 200;

/// The temperature of a request that sets none, in thousandths: 1.0.
pub const DEFAULT_TEMPERATURE_THOUSANDTHS: u32 = 1000;

/// The least and the greatest status that count as success.
pub const FIRST_SUCCESS_STATUS: u16 = 200;

pub const LAST_SUCCESS_STATUS: u16 = 299;

/// Why a call of the language model failed.
#[derive(Debug)]
pub enum LLMError {
    /// The request could not be written as JSON.
    Unencodable,
    /// The backend could not be reached; the transport's own words are kept.
    Network(String),
    /// The backend answered with a status that is not a success.
    Status(u16),
    /// The reply's body is not JSON.
    InvalidJson,
    /// The reply holds no string at `choices[0].message.content`.
    MissingContent,
}

/// The mathematical model of an [`LLMError`].
pub enum LLMFault {
    Unencodable,
    Network(Seq<char>),
    Status(u16),
    InvalidJson,
    MissingContent,
}

impl View for LLMError {
    type V = LLMFault;

    open spec fn view(&self) -> LLMFault {
        match self {
            LLMError::Unencodable => LLMFault::Unencodable,
            LLMError::Network(reason) => LLMFault::Network(reason@),
            LLMError::Status(status) => LLMFault::Status(*status),
            LLMError::InvalidJson => LLMFault::InvalidJson,
            LLMError::MissingContent => LLMFault::MissingContent,
        }
    }
}

impl LLMFault {
    /// The words in which the fault is reported.
    pub open spec fn description(self) -> Seq<char> {
        match self {
            LLMFault::Unencodable => "LLM request cannot be written as JSON"@,
            LLMFault::Network(reason) => "LLM request failed: "@ + reason,
            LLMFault::Status(status) => "LLM backend returned status "@ + decimal_digits(
                status as nat,
            ),
            LLMFault::InvalidJson => "LLM response is not valid JSON"@,
            LLMFault::MissingContent => "LLM response holds no choices[0].message.content"@,
        }
    }
}

impl LLMError {
    /// The words in which the error is reported.
    pub fn describe(&self) -> (text: String)
        ensures
            text@ == self@.description(),
    {
        match self {
            LLMError::Unencodable => String::from_str("LLM request cannot be written as JSON"),
            LLMError::Network(reason) => {
                let mut text = String::from_str("LLM request failed: ");
                text.append(reason.as_str());
                text
            },
            LLMError::Status(status) => {
                let mut text = String::from_str("LLM backend returned status ");
                let digits = decimal_text(*status as u64);
                text.append(digits.as_str());
                text
            },
            LLMError::InvalidJson => String::from_str("LLM response is not valid JSON"),
            LLMError::MissingContent => String::from_str(
                "LLM response holds no choices[0].message.content",
            ),
        }
    }
}

/// The outcome of reading a reply, as its model.
pub open spec fn outcome_view(outcome: Result<String, LLMError>) -> Result<Seq<char>, LLMFault> {
    match outcome {
        Ok(text) => Ok(text@),
        Err(error) => Err(error@),
    }
}

/// The JSON object of one message.
pub open spec fn message_document(role: Seq<char>, content: Seq<char>) -> JsonDoc {
    JsonDoc::Object(seq![("role"@, JsonDoc::Str(role)), ("content"@, JsonDoc::Str(content))])
}

/// The JSON array of the messages, in their order.
pub open spec fn messages_document(messages: Seq<(Seq<char>, Seq<char>)>) -> JsonDoc {
    JsonDoc::Array(
        Seq::new(messages.len(), |i: int| message_document(messages[i].0, messages[i].1)),
    )
}

/// The JSON object that a request sends.
pub open spec fn request_document(
    messages: Seq<(Seq<char>, Seq<char>)>,
    max_tokens: u32,
    temperature: Temperature,
) -> JsonDoc {
    JsonDoc::Object(
        seq![
            ("messages"@, messages_document(messages)),
            ("max_tokens"@, JsonDoc::Number(decimal_digits(max_tokens as nat))),
            ("temperature"@, JsonDoc::Number(temperature.literal_spec())),
        ],
    )
}

/// The headers that a request sends.
pub open spec fn request_headers(api_key: Seq<char>) -> Seq<(Seq<char>, Seq<char>)> {
    seq![("Content-Type"@, "application/json"@), ("api-key"@, api_key)]
}

/// The generated text of a reply: the string at `choices[0].message.content`.
pub open spec fn reply_content(reply: JsonDoc) -> Option<Seq<char>> {
    match reply.member("choices"@) {
        Some(choices) => match choices.element(0) {
            Some(choice) => match choice.member("message"@) {
                Some(message) => match message.member("content"@) {
                    Some(content) => content.text(),
                    None => None,
                },
                None => None,
            },
            None => None,
        },
        None => None,
    }
}

/// What reading a reply's document gives.
pub open spec fn content_or_fault(reply: JsonDoc) -> Result<Seq<char>, LLMFault> {
    match reply_content(reply) {
        Some(content) => Ok(content),
        None => Err(LLMFault::MissingContent),
    }
}

/// What reading a reply's body gives.
pub open spec fn extraction(body: Seq<char>) -> Result<Seq<char>, LLMFault> {
    match json_parse(body) {
        Some(reply) => content_or_fault(reply),
        None => Err(LLMFault::InvalidJson),
    }
}

/// The status is one of success.
pub open spec fn is_success(status: u16) -> bool {
    FIRST_SUCCESS_STATUS <= status <= LAST_SUCCESS_STATUS
}

/// What receiving a reply with this status and body gives.
pub open spec fn reception(status: u16, body: Seq<char>) -> Result<Seq<char>, LLMFault> {
    if is_success(status) {
        extraction(body)
    } else {
        Err(LLMFault::Status(status))
    }
}

/// One HTTP POST, ready to be sent.
#[derive(Debug)]
pub struct HttpRequest {
    pub url: String,
    pub headers: Vec<(String, String)>,
    pub body: String,
}

/// The mathematical model of an [`HttpRequest`].
pub struct HttpRequestView {
    pub url: Seq<char>,
    pub headers: Seq<(Seq<char>, Seq<char>)>,
    pub body: Seq<char>,
}

impl View for HttpRequest {
    type V = HttpRequestView;

    open spec fn view(&self) -> HttpRequestView {
        HttpRequestView {
            url: self.url@,
            headers: self.headers.deep_view(),
            body: self.body@,
        }
    }
}

/// The mathematical model of an [`LLMRequest`].
pub struct LLMRequestView {
    pub messages: Seq<(Seq<char>, Seq<char>)>,
    pub max_tokens: u32,
    pub temperature: Temperature,
    pub api_url: Seq<char>,
    pub api_key: Seq<char>,
}

impl LLMRequestView {
    /// The JSON object that the request sends.
    pub open spec fn document(self) -> JsonDoc {
        request_document(self.messages, self.max_tokens, self.temperature)
    }

    /// The POST that sends the request, or `None` where its JSON object
    /// cannot be written.
    pub open spec fn post(self) -> Option<HttpRequestView> {
        match rendered(self.document()) {
            Some(body) => Some(
                HttpRequestView {
                    url: self.api_url,
                    headers: request_headers(self.api_key),
                    body,
                },
            ),
            None => None,
        }
    }
}

/// A chat-completion request: the conversation so far, the two sampling
/// parameters, and where and with which key to send it.
pub struct LLMRequest {
    messages: Vec<(String, String)>,
    max_tokens: u32,
    temperature: Temperature,
    api_url: String,
    api_key: String,
}

impl View for LLMRequest {
    type V = LLMRequestView;

    closed spec fn view(&self) -> LLMRequestView {
        LLMRequestView {
            messages: self.messages.deep_view(),
            max_tokens: self.max_tokens,
            temperature: self.temperature,
            api_url: self.api_url@,
            api_key: self.api_key@,
        }
    }
}

/// Builds the JSON object of one message.
fn message_json(role: &String, content: &String) -> (doc: Json)
    ensures
        doc@ == message_document(role@, content@),
{
    let mut entries: Vec<(String, Json)> = Vec::new();
    entries.push((String::from_str("role"), Json::Str(role.clone())));
    entries.push((String::from_str("content"), Json::Str(content.clone())));
    let doc = Json::Object(entries);
    proof {
        reveal_with_fuel(Json::doc, 2);
        assert(doc@->Object_0 =~= message_document(role@, content@)->Object_0);
    }
    doc
}

/// Takes the generated text out of a reply's document.
pub fn extract_content(reply: &Json) -> (outcome: Result<String, LLMError>)
    ensures
        outcome_view(outcome) == content_or_fault(reply@),
{
    let choices = match reply.get("choices") {
        Some(choices) => choices,
        None => { return Err(LLMError::MissingContent); },
    };
    let choice = match choices.at(0) {
        Some(choice) => choice,
        None => { return Err(LLMError::MissingContent); },
    };
    let message = match choice.get("message") {
        Some(message) => message,
        None => { return Err(LLMError::MissingContent); },
    };
    let content = match message.get("content") {
        Some(content) => content,
        None => { return Err(LLMError::MissingContent); },
    };
    match content.as_str() {
        Some(text) => Ok(String::from_str(text)),
        None => Err(LLMError::MissingContent),
    }
}

impl LLMRequest {
    /// Starts a request with the default `max_tokens` and temperature.
    pub fn builder() -> (builder: LLMRequestBuilder<false, false, false>)
        ensures
            builder@.messages == Seq::<(Seq<char>, Seq<char>)>::empty(),
            builder@.max_tokens == DEFAULT_MAX_TOKENS,
            builder@.temperature.thousandths == DEFAULT_TEMPERATURE_THOUSANDTHS,
            builder@.api_url == Seq::<char>::empty(),
            builder@.api_key == Seq::<char>::empty(),
    {
        let builder = LLMRequestBuilder {
            messages: Vec::new(),
            max_tokens: DEFAULT_MAX_TOKENS,
            temperature: Temperature::from_thousandths(DEFAULT_TEMPERATURE_THOUSANDTHS),
            api_url: String::new(),
            api_key: String::new(),
        };
        assert(builder@.messages =~= Seq::<(Seq<char>, Seq<char>)>::empty());
        builder
    }

    /// The JSON object that this request sends: `messages`, `max_tokens` and
    /// `temperature`.
    pub fn get_json_request(&self) -> (doc: Json)
        ensures
            doc@ == self@.document(),
    {
        let ghost wanted = self@.messages;
        let mut items: Vec<Json> = Vec::new();
        let mut index: usize = 0;
        while index < self.messages.len()
            invariant
                index <= self.messages.len(),
                wanted == self.messages.deep_view(),
                items@.len() == index,
                forall|i: int|
                    0 <= i < index ==> (#[trigger] items@[i])@ == message_document(
                        wanted[i].0,
                        wanted[i].1,
                    ),
            decreases self.messages.len() - index,
        {
            let message = &self.messages[index];
            items.push(message_json(&message.0, &message.1));
            index += 1;
        }
        let array = Json::Array(items);
        proof {
            reveal_with_fuel(Json::doc, 2);
            assert(array@->Array_0 =~= messages_document(wanted)->Array_0);
        }
        let mut entries: Vec<(String, Json)> = Vec::new();
        entries.push((String::from_str("messages"), array));
        entries.push(
            (String::from_str("max_tokens"), Json::Number(decimal_text(self.max_tokens as u64))),
        );
        entries.push((String::from_str("temperature"), Json::Number(self.temperature.literal())));
        let doc = Json::Object(entries);
        proof {
            assert(doc@->Object_0 =~= self@.document()->Object_0);
        }
        doc
    }

    /// The POST that sends this request: to the request's URL, with the
    /// content type and the key as headers and the JSON object as body.
    /// Fails, with `Unencodable`, only where the JSON object cannot be written.
    pub fn prepare(&self) -> (outcome: Result<HttpRequest, LLMError>)
        ensures
            match outcome {
                Ok(post) => self@.post() == Some(post@),
                Err(error) => self@.post() is None && error@ == LLMFault::Unencodable,
            },
    {
        let doc = self.get_json_request();
        match render(&doc) {
            Some(body) => {
                let mut headers: Vec<(String, String)> = Vec::new();
                headers.push(
                    (String::from_str("Content-Type"), String::from_str("application/json")),
                );
                headers.push((String::from_str("api-key"), self.api_key.clone()));
                assert(headers.deep_view() =~= request_headers(self@.api_key));
                Ok(HttpRequest { url: self.api_url.clone(), headers, body })
            },
            None => Err(LLMError::Unencodable),
        }
    }

    /// Reads the body of a reply: it must be JSON and hold a string at
    /// `choices[0].message.content`, which is returned as it is.
    pub fn extract_response(&self, response: String) -> (outcome: Result<String, LLMError>)
        ensures
            outcome_view(outcome) == extraction(response@),
    {
        match parse(response.as_str()) {
            Some(reply) => extract_content(&reply),
            None => Err(LLMError::InvalidJson),
        }
    }

    /// Reads a reply: a status that is not a success fails with that status,
    /// and otherwise the body is read.
    pub fn receive(&self, status: u16, body: String) -> (outcome: Result<String, LLMError>)
        ensures
            outcome_view(outcome) == reception(status, body@),
    {
        if FIRST_SUCCESS_STATUS <= status && status <= LAST_SUCCESS_STATUS {
            self.extract_response(body)
        } else {
            Err(LLMError::Status(status))
        }
    }
}

/// Collects the parts of an [`LLMRequest`]. The three flags record whether the
/// messages, the URL and the key have been given; only with all three can the
/// request be built.
pub struct LLMRequestBuilder<const MESSAGES: bool, const URL: bool, const KEY: bool> {
    messages: Vec<(String, String)>,
    max_tokens: u32,
    temperature: Temperature,
    api_url: String,
    api_key: String,
}

impl<const MESSAGES: bool, const URL: bool, const KEY: bool> View for LLMRequestBuilder<
    MESSAGES,
    URL,
    KEY,
> {
    type V = LLMRequestView;

    closed spec fn view(&self) -> LLMRequestView {
        LLMRequestView {
            messages: self.messages.deep_view(),
            max_tokens: self.max_tokens,
            temperature: self.temperature,
            api_url: self.api_url@,
            api_key: self.api_key@,
        }
    }
}

impl<const MESSAGES: bool, const URL: bool, const KEY: bool> LLMRequestBuilder<
    MESSAGES,
    URL,
    KEY,
> {
    /// Gives the messages, each a role and a content.
    pub fn messages(self, messages: Vec<(String, String)>) -> (builder: LLMRequestBuilder<
        true,
        URL,
        KEY,
    >)
        ensures
            builder@ == (LLMRequestView { messages: messages.deep_view(), ..self@ }),
    {
        LLMRequestBuilder {
            messages,
            max_tokens: self.max_tokens,
            temperature: self.temperature,
            api_url: self.api_url,
            api_key: self.api_key,
        }
    }

    /// Gives the URL of the completion endpoint.
    pub fn api_url(self, api_url: String) -> (builder: LLMRequestBuilder<MESSAGES, true, KEY>)
        ensures
            builder@ == (LLMRequestView { api_url: api_url@, ..self@ }),
    {
        LLMRequestBuilder {
            messages: self.messages,
            max_tokens: self.max_tokens,
            temperature: self.temperature,
            api_url,
            api_key: self.api_key,
        }
    }

    /// Gives the key sent in the `api-key` header.
    pub fn api_key(self, api_key: String) -> (builder: LLMRequestBuilder<MESSAGES, URL, true>)
        ensures
            builder@ == (LLMRequestView { api_key: api_key@, ..self@ }),
    {
        LLMRequestBuilder {
            messages: self.messages,
            max_tokens: self.max_tokens,
            temperature: self.temperature,
            api_url: self.api_url,
            api_key,
        }
    }

    /// Sets `max_tokens` in place of the default.
    pub fn max_tokens(self, max_tokens: u32) -> (builder: Self)
        ensures
            builder@ == (LLMRequestView { max_tokens, ..self@ }),
    {
        LLMRequestBuilder {
            messages: self.messages,
            max_tokens,
            temperature: self.temperature,
            api_url: self.api_url,
            api_key: self.api_key,
        }
    }

    /// Sets the temperature in place of the default.
    pub fn temperature(self, temperature: Temperature) -> (builder: Self)
        ensures
            builder@ == (LLMRequestView { temperature, ..self@ }),
    {
        LLMRequestBuilder {
            messages: self.messages,
            max_tokens: self.max_tokens,
            temperature,
            api_url: self.api_url,
            api_key: self.api_key,
        }
    }
}

impl LLMRequestBuilder<true, true, true> {
    /// The request with the parts given.
    pub fn build(self) -> (request: LLMRequest)
        ensures
            request@ == self@,
    {
        LLMRequest {
            messages: self.messages,
            max_tokens: self.max_tokens,
            temperature: self.temperature,
            api_url: self.api_url,
            api_key: self.api_key,
        }
    }
}

/// A reply that carries one message under `choices[0].message`.
pub open spec fn completion_document(message: JsonDoc) -> JsonDoc {
    JsonDoc::Object(
        seq![("choices"@, JsonDoc::Array(seq![JsonDoc::Object(seq![("message"@, message)])]))],
    )
}

/// A message that is written as a request writes its messages, and then
/// stands in a reply as `choices[0].message`, is read back with exactly its
/// content.
pub proof fn lemma_reply_round_trip(role: Seq<char>, content: Seq<char>)
    ensures
        content_or_fault(completion_document(message_document(role, content))) == Ok::<
            Seq<char>,
            LLMFault,
        >(content),
{
    let message = message_document(role, content);
    let choice = JsonDoc::Object(seq![("message"@, message)]);
    let choices = JsonDoc::Array(seq![choice]);
    let reply = completion_document(message);
    reveal_strlit("role");
    reveal_strlit("content");
    lemma_first_with_key(reply->Object_0, "choices"@, 0);
    assert(choices.element(0) == Some(choice));
    lemma_first_with_key(choice->Object_0, "message"@, 0);
    assert("role"@ != "content"@) by {
        assert("role"@.len() == 4);
        assert("content"@.len() == 7);
    }
    lemma_first_with_key(message->Object_0, "content"@, 1);
}

/// The document of a request holds every message of the list at its place,
/// and each of them, once it stands in a reply as `choices[0].message`, is
/// read back with exactly its content.
pub proof fn lemma_request_round_trip(
    messages: Seq<(Seq<char>, Seq<char>)>,
    max_tokens: u32,
    temperature: Temperature,
    index: int,
)
    requires
        0 <= index < messages.len(),
    ensures
        ({
            let request = request_document(messages, max_tokens, temperature);
            let written = message_document(messages[index].0, messages[index].1);
            &&& request.member("messages"@) == Some(messages_document(messages))
            &&& messages_document(messages).element(index) == Some(written)
            &&& content_or_fault(completion_document(written)) == Ok::<Seq<char>, LLMFault>(
                messages[index].1,
            )
        }),
{
    let request = request_document(messages, max_tokens, temperature);
    lemma_first_with_key(request->Object_0, "messages"@, 0);
    lemma_reply_round_trip(messages[index].0, messages[index].1);
}

} // verus!
