use retrieval_fanout::embedding::{
    create_embedding, embedding_purpose, finish_embedding, EmbeddingCall, EmbeddingOutput,
};
use retrieval_fanout::error::{ServiceError, Setting};
use retrieval_fanout::resolver::{Purpose, ServerDatasetConfiguration, ServiceSettings};
use retrieval_fanout::score::Binary32;

fn settings() -> ServiceSettings {
    ServiceSettings {
        api_key: Some("secret".to_string()),
        embedding_server_origin: None,
        sparse_server_origin: None,
        reranker_server_origin: None,
        gpu_server_origin: Some("http://gpu:9000".to_string()),
    }
}

fn dataset(base_url: &str, prefix: &str) -> ServerDatasetConfiguration {
    ServerDatasetConfiguration {
        embedding_base_url: base_url.to_string(),
        embedding_query_prefix: prefix.to_string(),
    }
}

fn single(value: f32) -> Binary32 {
    Binary32 { bits: value.to_bits() }
}

#[test]
fn a_query_is_sent_behind_the_prefix() {
    let call = create_embedding("what is rust", "query", dataset("", "Search for: "), &settings());
    assert_eq!(
        call,
        Ok(EmbeddingCall {
            base_url: "https://api.openai.com/v1".to_string(),
            api_key: "secret".to_string(),
            model: "text-embedding-3-small".to_string(),
            input: "Search for: what is rust".to_string(),
        })
    );
}

#[test]
fn a_query_with_an_empty_prefix_is_sent_unchanged() {
    let call = create_embedding("what is rust", "query", dataset("", ""), &settings()).unwrap();
    assert_eq!(call.input, "what is rust");
}

#[test]
fn a_document_is_sent_unchanged() {
    let call = create_embedding("a document", "doc", dataset("", "Search for: "), &settings());
    assert_eq!(call.unwrap().input, "a document");
    let call = create_embedding("", "doc", dataset("", "Search for: "), &settings());
    assert_eq!(call.unwrap().input, "");
}

#[test]
fn any_other_type_is_sent_as_a_document() {
    let call = create_embedding("a text", "Query", dataset("", "Search for: "), &settings());
    assert_eq!(call.unwrap().input, "a text");
    let call = create_embedding("a text", "", dataset("", "Search for: "), &settings());
    assert_eq!(call.unwrap().input, "a text");
    assert_eq!(embedding_purpose("query"), Purpose::Query);
    assert_eq!(embedding_purpose("doc"), Purpose::Doc);
    assert_eq!(embedding_purpose("queries"), Purpose::Doc);
}

#[test]
fn the_origin_follows_the_base_url() {
    let call =
        create_embedding("t", "doc", dataset("https://embedding.trieve.ai", ""), &settings());
    assert_eq!(call.unwrap().base_url, "http://gpu:9000");
    let call = create_embedding("t", "doc", dataset("https://example.org/v1", ""), &settings());
    assert_eq!(call.unwrap().base_url, "https://example.org/v1");
}

#[test]
fn the_credential_is_looked_at_before_the_origin() {
    let mut s = settings();
    s.api_key = None;
    s.gpu_server_origin = None;
    let call = create_embedding("t", "doc", dataset("https://embedding.trieve.ai", ""), &s);
    assert_eq!(call, Err(ServiceError::Configuration(Setting::ApiKey)));
    s.api_key = Some("secret".to_string());
    let call = create_embedding("t", "doc", dataset("https://embedding.trieve.ai", ""), &s);
    assert_eq!(call, Err(ServiceError::Configuration(Setting::GpuServerOrigin)));
}

#[test]
fn the_first_dense_vector_is_the_embedding() {
    let data = vec![
        EmbeddingOutput::Float(vec![single(0.25), single(-1.5)]),
        EmbeddingOutput::Float(vec![single(9.0)]),
    ];
    assert_eq!(finish_embedding(Ok(data)), Ok(vec![single(0.25), single(-1.5)]));
}

#[test]
fn an_embedding_that_is_no_dense_vector_counts_as_empty() {
    let data = vec![
        EmbeddingOutput::Base64("AAAA".to_string()),
        EmbeddingOutput::Float(vec![single(9.0)]),
    ];
    assert_eq!(finish_embedding(Ok(data)), Ok(vec![]));
}

#[test]
fn a_failed_call_carries_what_the_transport_said() {
    let vector = finish_embedding(Err("EndpointError(\"down\")".to_string()));
    assert_eq!(
        vector,
        Err(ServiceError::RequestFailure(
            "Failed making call to server EndpointError(\"down\")".to_string()
        ))
    );
}
