use schema_pilot::index::{ScoredRow, StorageError, VectorIndexHandle};
use schema_pilot::llm::{HttpRequest, LLMError};
use schema_pilot::pipeline::{
    probe_reply, Action, ConfigurationError, EmbeddingError, Event, LLMConfig, PipelineError,
    PipelineState,
    ANSWER_STATUS, EMBEDDING_DIMENSION, FAILURE_STATUS, RETRIEVED_ROWS,
};
use schema_pilot::prompt::TableContent;

struct Stubs {
    embedding: Result<Vec<f32>, String>,
    index: VectorIndexHandle,
    rows: Vec<(String, i64)>,
    llm: Result<(u16, String), String>,
}

struct Trace {
    embedded: Vec<Vec<String>>,
    normalized: usize,
    searches: Vec<usize>,
    posts: Vec<HttpRequest>,
    status: u16,
    body: String,
    last: PipelineState,
}

fn config() -> LLMConfig {
    LLMConfig::from_settings(
        Some("test-key".to_string()),
        Some("https://llm.example/v1/chat".to_string()),
    )
    .expect("both settings are given")
}

fn completion(content: &str) -> String {
    let message = serde_json::Value::String(content.to_string());
    format!("{{\"choices\":[{{\"message\":{{\"role\":\"assistant\",\"content\":{}}}}}]}}", message)
}

fn drive(query: &str, stubs: &Stubs) -> Trace {
    let config = config();
    let mut trace = Trace {
        embedded: Vec::new(),
        normalized: 0,
        searches: Vec::new(),
        posts: Vec::new(),
        status: 0,
        body: String::new(),
        last: PipelineState::Done { answer: String::new() },
    };
    let mut vector: Vec<f32> = Vec::new();
    let (mut state, mut action) = PipelineState::start(query.to_string());
    for _ in 0..16 {
        let event = match action {
            Action::Embed { texts } => {
                trace.embedded.push(texts);
                match &stubs.embedding {
                    Ok(found) => {
                        vector = found.clone();
                        Event::Embedded { vectors: 1 }
                    }
                    Err(reason) => Event::EmbeddingFailed(reason.clone()),
                }
            }
            Action::Normalize => {
                trace.normalized += 1;
                Event::Normalized
            }
            Action::Search { k } => {
                trace.searches.push(k);
                let scored: Vec<ScoredRow> = stubs
                    .rows
                    .iter()
                    .map(|(content, similarity)| ScoredRow {
                        row: TableContent { content: content.clone() },
                        similarity: *similarity,
                    })
                    .collect();
                match stubs.index.find_similar(vector.len(), &scored, k) {
                    Ok(rows) => Event::Retrieved(rows),
                    Err(error) => Event::RetrievalFailed(error),
                }
            }
            Action::Proceed => Event::Proceeded,
            Action::CallLlm(post) => {
                trace.posts.push(post);
                match &stubs.llm {
                    Ok((status, body)) => Event::LlmReplied { status: *status, body: body.clone() },
                    Err(reason) => Event::LlmUnreachable(reason.clone()),
                }
            }
            Action::Respond { status, body } => {
                trace.status = status;
                trace.body = body;
                trace.last = state;
                return trace;
            }
            Action::Idle => panic!("the pipeline stalled"),
        };
        let next = state.step(event, &config);
        state = next.0;
        action = next.1;
    }
    panic!("the pipeline did not end");
}

fn two_rows() -> Vec<(String, i64)> {
    vec![
        ("orders: order_id, customer_id, total".to_string(), 90),
        ("customers: customer_id, name".to_string(), 70),
    ]
}

fn index() -> VectorIndexHandle {
    VectorIndexHandle::create_or_open("retail_dm".to_string(), None, EMBEDDING_DIMENSION).unwrap()
}

#[test]
fn end_to_end_answer_is_the_llm_text() {
    let stubs = Stubs {
        embedding: Ok(vec![0.25; 384]),
        index: index(),
        rows: two_rows(),
        llm: Ok((200, completion("The orders table stores order records."))),
    };
    let trace = drive("what tables store customer orders?", &stubs);
    assert_eq!(trace.status, 200);
    assert_eq!(trace.body, "The orders table stores order records.");
    assert!(matches!(&trace.last, PipelineState::Done { answer } if answer == "The orders table stores order records."));
    assert_eq!(trace.embedded, vec![vec!["what tables store customer orders?".to_string()]]);
    assert_eq!(trace.normalized, 1);
    assert_eq!(trace.searches, vec![20]);
    assert_eq!(RETRIEVED_ROWS, 20);
    assert_eq!(trace.posts.len(), 1);
    let post = &trace.posts[0];
    assert_eq!(post.url, "https://llm.example/v1/chat");
    assert_eq!(post.headers[1], ("api-key".to_string(), "test-key".to_string()));
    let body: serde_json::Value = serde_json::from_str(&post.body).unwrap();
    assert_eq!(body["max_tokens"], 800);
    assert_eq!(body["temperature"], 0.5);
    assert_eq!(body["messages"].as_array().unwrap().len(), 2);
    assert_eq!(body["messages"][0]["role"], "system");
    assert_eq!(body["messages"][1]["role"], "user");
    let user = body["messages"][1]["content"].as_str().unwrap();
    assert!(user.contains("orders: order_id, customer_id, total\ncustomers: customer_id, name"));
    assert!(user.contains("what tables store customer orders?"));
}

#[test]
fn llm_status_500_fails_the_pipeline() {
    let stubs = Stubs {
        embedding: Ok(vec![0.25; 384]),
        index: index(),
        rows: two_rows(),
        llm: Ok((500, "upstream exploded".to_string())),
    };
    let trace = drive("what tables store customer orders?", &stubs);
    assert_eq!(trace.status, 500);
    assert_eq!(trace.body, "LLM backend returned status 500");
    assert!(matches!(
        &trace.last,
        PipelineState::Failed { error: PipelineError::Llm(LLMError::Status(500)) }
    ));
    assert_eq!(trace.searches.len(), 1);
    assert_eq!(trace.posts.len(), 1);
}

#[test]
fn dimension_mismatch_fails_before_the_llm() {
    let stubs = Stubs {
        embedding: Ok(vec![0.5; 10]),
        index: index(),
        rows: two_rows(),
        llm: Ok((200, completion("never asked"))),
    };
    let trace = drive("what tables store customer orders?", &stubs);
    assert_eq!(trace.status, 500);
    assert_eq!(trace.body, "vector index expects dimension 384, got 10");
    assert!(matches!(
        &trace.last,
        PipelineState::Failed {
            error: PipelineError::Storage(StorageError::DimensionMismatch { expected: 384, found: 10 })
        }
    ));
    assert_eq!(trace.searches, vec![20]);
    assert!(trace.posts.is_empty());
}

#[test]
fn embedding_failure_fails_before_the_index() {
    let stubs = Stubs {
        embedding: Err("model not loaded".to_string()),
        index: index(),
        rows: two_rows(),
        llm: Ok((200, completion("never asked"))),
    };
    let trace = drive("q", &stubs);
    assert_eq!(trace.status, 500);
    assert_eq!(trace.body, "embedding failed: model not loaded");
    assert!(matches!(
        &trace.last,
        PipelineState::Failed { error: PipelineError::Embedding(EmbeddingError::Model(_)) }
    ));
    assert_eq!(trace.normalized, 0);
    assert!(trace.searches.is_empty());
    assert!(trace.posts.is_empty());
}

#[test]
fn unreachable_llm_fails_the_pipeline() {
    let stubs = Stubs {
        embedding: Ok(vec![1.0; 384]),
        index: index(),
        rows: two_rows(),
        llm: Err("connection refused".to_string()),
    };
    let trace = drive("q", &stubs);
    assert_eq!(trace.status, 500);
    assert_eq!(trace.body, "LLM request failed: connection refused");
    assert!(matches!(
        &trace.last,
        PipelineState::Failed { error: PipelineError::Llm(LLMError::Network(_)) }
    ));
}

#[test]
fn malformed_llm_replies_fail_the_pipeline() {
    let cases = [
        ("not json", "LLM response is not valid JSON"),
        ("{\"choices\":[]}", "LLM response holds no choices[0].message.content"),
    ];
    for (reply, words) in cases {
        let stubs = Stubs {
            embedding: Ok(vec![1.0; 384]),
            index: index(),
            rows: two_rows(),
            llm: Ok((200, reply.to_string())),
        };
        let trace = drive("q", &stubs);
        assert_eq!(trace.status, 500);
        assert_eq!(trace.body, words);
    }
}

#[test]
fn rows_reach_the_prompt_most_similar_first() {
    let stubs = Stubs {
        embedding: Ok(vec![1.0; 384]),
        index: index(),
        rows: vec![("low".to_string(), 1), ("high".to_string(), 9), ("mid".to_string(), 5)],
        llm: Ok((200, completion("ok"))),
    };
    let trace = drive("q", &stubs);
    let body: serde_json::Value = serde_json::from_str(&trace.posts[0].body).unwrap();
    let user = body["messages"][1]["content"].as_str().unwrap();
    assert!(user.contains("high\nmid\nlow"));
}

#[test]
fn an_empty_collection_still_reaches_the_llm() {
    let stubs = Stubs {
        embedding: Ok(vec![0.0; 384]),
        index: index(),
        rows: Vec::new(),
        llm: Ok((200, completion("no tables known"))),
    };
    let trace = drive("q", &stubs);
    assert_eq!(trace.status, 200);
    assert_eq!(trace.body, "no tables known");
}

#[test]
fn stages_follow_one_another() {
    let config = config();
    let (state, action) = PipelineState::start("q".to_string());
    assert!(matches!(state, PipelineState::Embedding { .. }));
    assert!(matches!(&action, Action::Embed { texts } if texts == &vec!["q".to_string()]));
    let (state, action) = state.step(Event::Embedded { vectors: 1 }, &config);
    assert!(matches!(state, PipelineState::Normalizing { .. }));
    assert!(matches!(action, Action::Normalize));
    let (state, action) = state.step(Event::Normalized, &config);
    assert!(matches!(state, PipelineState::Retrieving { .. }));
    assert!(matches!(action, Action::Search { k: 20 }));
    let rows = vec![TableContent { content: "t".to_string() }];
    let (state, action) = state.step(Event::Retrieved(rows), &config);
    assert!(matches!(state, PipelineState::PromptBuilding { .. }));
    assert!(matches!(action, Action::Proceed));
    let (state, action) = state.step(Event::Proceeded, &config);
    assert!(matches!(state, PipelineState::Generating { .. }));
    assert!(matches!(action, Action::CallLlm(_)));
    let (state, action) = state.step(Event::LlmReplied { status: 200, body: completion("a") }, &config);
    assert!(matches!(&state, PipelineState::Done { answer } if answer == "a"));
    assert!(matches!(&action, Action::Respond { status: 200, body } if body == "a"));
    let (state, action) = state.step(Event::Embedded { vectors: 1 }, &config);
    assert!(matches!(&state, PipelineState::Done { answer } if answer == "a"));
    assert!(matches!(action, Action::Idle));
}

#[test]
fn an_event_that_is_not_awaited_changes_nothing() {
    let config = config();
    let (state, _) = PipelineState::start("q".to_string());
    let (state, action) = state.step(Event::Normalized, &config);
    assert!(matches!(&state, PipelineState::Embedding { query } if query == "q"));
    assert!(matches!(action, Action::Idle));
    let (state, action) = state.step(Event::LlmReplied { status: 200, body: completion("a") }, &config);
    assert!(matches!(&state, PipelineState::Embedding { query } if query == "q"));
    assert!(matches!(action, Action::Idle));
    let (state, _) = state.step(Event::Embedded { vectors: 1 }, &config);
    let (state, action) = state.step(Event::Retrieved(Vec::new()), &config);
    assert!(matches!(state, PipelineState::Normalizing { .. }));
    assert!(matches!(action, Action::Idle));
}

#[test]
fn a_failed_run_stays_failed() {
    let config = config();
    let (state, _) = PipelineState::start("q".to_string());
    let (state, action) = state.step(Event::EmbeddingFailed("down".to_string()), &config);
    assert!(matches!(&action, Action::Respond { status: 500, body } if body == "embedding failed: down"));
    let mut state = state;
    let events = vec![
        Event::Embedded { vectors: 1 },
        Event::Normalized,
        Event::Retrieved(Vec::new()),
        Event::Proceeded,
        Event::LlmReplied { status: 200, body: completion("a") },
    ];
    for event in events {
        let next = state.step(event, &config);
        assert!(matches!(next.0, PipelineState::Failed { .. }));
        assert!(matches!(next.1, Action::Idle));
        state = next.0;
    }
}

#[test]
fn an_empty_batch_of_vectors_is_an_embedding_failure() {
    let config = config();
    let (state, _) = PipelineState::start("q".to_string());
    let (state, action) = state.step(Event::Embedded { vectors: 0 }, &config);
    assert!(matches!(
        &state,
        PipelineState::Failed { error: PipelineError::Embedding(EmbeddingError::NoVector) }
    ));
    assert!(matches!(
        &action,
        Action::Respond { status: 500, body }
            if body == "embedding failed: the model returned no vector"
    ));
    let (state, _) = PipelineState::start("q".to_string());
    let (state, _) = state.step(Event::Embedded { vectors: 3 }, &config);
    assert!(matches!(state, PipelineState::Normalizing { .. }));
}

#[test]
fn configuration_needs_key_and_url() {
    let both = LLMConfig::from_settings(Some("k".to_string()), Some("u".to_string())).unwrap();
    assert_eq!(both.api_key, "k");
    assert_eq!(both.api_url, "u");
    assert!(matches!(
        LLMConfig::from_settings(None, Some("u".to_string())),
        Err(ConfigurationError::MissingApiKey)
    ));
    assert!(matches!(
        LLMConfig::from_settings(Some("k".to_string()), None),
        Err(ConfigurationError::MissingApiUrl)
    ));
    assert!(matches!(LLMConfig::from_settings(None, None), Err(ConfigurationError::MissingApiKey)));
    assert_eq!(ConfigurationError::MissingApiKey.describe(), "OPENAI_API_KEY not set");
    assert_eq!(ConfigurationError::MissingApiUrl.describe(), "OPENAI_API_URL not set");
}

#[test]
fn pipeline_errors_describe_themselves() {
    assert_eq!(
        PipelineError::Embedding(EmbeddingError::Model("model not loaded".to_string())).describe(),
        "embedding failed: model not loaded"
    );
    assert_eq!(
        PipelineError::Storage(StorageError::Unavailable("locked".to_string())).describe(),
        "vector index unavailable: locked"
    );
    assert_eq!(
        PipelineError::Llm(LLMError::InvalidJson).describe(),
        "LLM response is not valid JSON"
    );
}

#[test]
fn probe_reports_the_search() {
    let found: Result<Vec<TableContent>, StorageError> = Ok(Vec::new());
    assert_eq!(probe_reply(&found), (ANSWER_STATUS, "all good!".to_string()));
    let failed: Result<Vec<TableContent>, StorageError> =
        Err(StorageError::DimensionMismatch { expected: 384, found: 3 });
    assert_eq!(
        probe_reply(&failed),
        (FAILURE_STATUS, "vector index expects dimension 384, got 3".to_string())
    );
    assert_eq!(ANSWER_STATUS, 200);
    assert_eq!(FAILURE_STATUS, 500);
}
