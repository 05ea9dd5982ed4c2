use retrieval_fanout::error::{ServiceError, Setting};
use retrieval_fanout::resolver::{prefer, resolve, Purpose, ServiceSettings};

fn settings() -> ServiceSettings {
    ServiceSettings {
        api_key: Some("secret".to_string()),
        embedding_server_origin: None,
        sparse_server_origin: None,
        reranker_server_origin: None,
        gpu_server_origin: Some("http://gpu:9000".to_string()),
    }
}

fn text(value: &str) -> Option<String> {
    Some(value.to_string())
}

#[test]
fn an_empty_base_url_resolves_to_the_public_origin() {
    assert_eq!(resolve(Purpose::Doc, "", &settings()), Ok("https://api.openai.com/v1".to_string()));
    assert_eq!(
        resolve(Purpose::Query, "", &settings()),
        Ok("https://api.openai.com/v1".to_string())
    );
    let mut bare = settings();
    bare.gpu_server_origin = None;
    assert_eq!(resolve(Purpose::Doc, "", &bare), Ok("https://api.openai.com/v1".to_string()));
}

#[test]
fn the_managed_marker_resolves_to_the_gpu_server_without_an_override() {
    let origin = resolve(Purpose::Doc, "https://embedding.trieve.ai", &settings());
    assert_eq!(origin, Ok("http://gpu:9000".to_string()));
    let mut s = settings();
    s.embedding_server_origin = text("");
    let origin = resolve(Purpose::Query, "https://embedding.trieve.ai", &s);
    assert_eq!(origin, Ok("http://gpu:9000".to_string()));
}

#[test]
fn the_managed_marker_prefers_the_embedding_override() {
    let mut s = settings();
    s.embedding_server_origin = text("http://embed:8000");
    let origin = resolve(Purpose::Doc, "https://embedding.trieve.ai", &s);
    assert_eq!(origin, Ok("http://embed:8000".to_string()));
    s.gpu_server_origin = None;
    let origin = resolve(Purpose::Doc, "https://embedding.trieve.ai", &s);
    assert_eq!(origin, Ok("http://embed:8000".to_string()));
}

#[test]
fn the_managed_marker_is_found_inside_a_longer_url() {
    let origin = resolve(Purpose::Doc, "https://embedding.trieve.ai/v1", &settings());
    assert_eq!(origin, Ok("http://gpu:9000".to_string()));
    let origin = resolve(Purpose::Doc, "see https://embedding.trieve.ai", &settings());
    assert_eq!(origin, Ok("http://gpu:9000".to_string()));
}

#[test]
fn the_managed_marker_without_any_server_is_a_configuration_error() {
    let mut s = settings();
    s.gpu_server_origin = None;
    let origin = resolve(Purpose::Doc, "https://embedding.trieve.ai", &s);
    assert_eq!(origin, Err(ServiceError::Configuration(Setting::GpuServerOrigin)));
    s.embedding_server_origin = text("");
    let origin = resolve(Purpose::Doc, "https://embedding.trieve.ai", &s);
    assert_eq!(origin, Err(ServiceError::Configuration(Setting::GpuServerOrigin)));
}

#[test]
fn another_base_url_is_used_as_it_is() {
    let origin = resolve(Purpose::Doc, "https://example.org/embed", &settings());
    assert_eq!(origin, Ok("https://example.org/embed".to_string()));
    let origin = resolve(Purpose::Doc, "https://embedding.trieve.a", &settings());
    assert_eq!(origin, Ok("https://embedding.trieve.a".to_string()));
    let mut s = settings();
    s.gpu_server_origin = None;
    s.embedding_server_origin = text("http://embed:8000");
    let origin = resolve(Purpose::Query, "http://localhost:1234", &s);
    assert_eq!(origin, Ok("http://localhost:1234".to_string()));
}

#[test]
fn sparse_and_rerank_prefer_their_own_override() {
    let mut s = settings();
    s.sparse_server_origin = text("http://sparse:1");
    s.reranker_server_origin = text("http://rerank:2");
    assert_eq!(resolve(Purpose::Sparse, "", &s), Ok("http://sparse:1".to_string()));
    assert_eq!(resolve(Purpose::Rerank, "", &s), Ok("http://rerank:2".to_string()));
    assert_eq!(resolve(Purpose::Sparse, "https://example.org", &s), Ok("http://sparse:1".to_string()));
}

#[test]
fn sparse_and_rerank_fall_back_to_the_gpu_server() {
    let mut s = settings();
    assert_eq!(resolve(Purpose::Sparse, "", &s), Ok("http://gpu:9000".to_string()));
    assert_eq!(resolve(Purpose::Rerank, "", &s), Ok("http://gpu:9000".to_string()));
    s.sparse_server_origin = text("");
    s.reranker_server_origin = text("");
    assert_eq!(resolve(Purpose::Sparse, "", &s), Ok("http://gpu:9000".to_string()));
    assert_eq!(resolve(Purpose::Rerank, "", &s), Ok("http://gpu:9000".to_string()));
    s.gpu_server_origin = None;
    assert_eq!(
        resolve(Purpose::Sparse, "", &s),
        Err(ServiceError::Configuration(Setting::GpuServerOrigin))
    );
    assert_eq!(
        resolve(Purpose::Rerank, "", &s),
        Err(ServiceError::Configuration(Setting::GpuServerOrigin))
    );
}

#[test]
fn prefer_takes_an_empty_gpu_origin_as_given() {
    assert_eq!(prefer(&None, &text("")), Ok(String::new()));
    assert_eq!(prefer(&text(""), &text("")), Ok(String::new()));
    assert_eq!(prefer(&text("a"), &None), Ok("a".to_string()));
    assert_eq!(prefer(&None, &None), Err(ServiceError::Configuration(Setting::GpuServerOrigin)));
}
