//! Provider capabilities: readiness, request building, catalog parsing, and
//! the registry.

use llm_repl::decode::WireFormat;
use llm_repl::provider::{status_success, Provider, ProviderError, ProviderRegistry};

fn ollama_like() -> Provider {
    Provider::new(
        b"ollama".to_vec(),
        WireFormat::NewlineJson,
        b"http://localhost:11434".to_vec(),
        None,
        false,
    )
}

fn groq_like(key: Option<&[u8]>) -> Provider {
    Provider::new(
        b"groq".to_vec(),
        WireFormat::Sse,
        b"https://api.groq.com/openai/v1/".to_vec(),
        key.map(|k| k.to_vec()),
        true,
    )
}

fn gemini_like(key: Option<&[u8]>) -> Provider {
    Provider::new(
        b"gemini".to_vec(),
        WireFormat::FragmentedArray,
        b"https://generativelanguage.googleapis.com/v1beta/".to_vec(),
        key.map(|k| k.to_vec()),
        true,
    )
}

#[test]
fn readiness_requires_credential() {
    assert!(ollama_like().check_readiness().is_ok());
    assert!(matches!(groq_like(None).check_readiness(), Err(ProviderError::NotReady)));
    assert!(groq_like(Some(b"k")).check_readiness().is_ok());
    assert!(matches!(gemini_like(None).check_readiness(), Err(ProviderError::NotReady)));
    assert!(gemini_like(Some(b"k")).check_readiness().is_ok());
}

#[test]
fn newline_query_request() {
    let p = ollama_like();
    let url = p.query_url(&b"llama3:latest".to_vec()).unwrap();
    assert_eq!(url, b"http://localhost:11434/api/generate".to_vec());
    let body = p.query_body(&b"llama3:latest".to_vec(), &b"hi \"there\"\n".to_vec());
    assert_eq!(
        body,
        b"{\"model\":\"llama3:latest\",\"prompt\":\"hi \\\"there\\\"\\n\",\"stream\":true}"
            .to_vec(),
    );
}

#[test]
fn sse_query_request() {
    let p = groq_like(Some(b"sk"));
    let url = p.query_url(&b"mixtral".to_vec()).unwrap();
    assert_eq!(url, b"https://api.groq.com/openai/v1/chat/completions".to_vec());
    let body = p.query_body(&b"mixtral".to_vec(), &b"ask".to_vec());
    assert_eq!(
        body,
        b"{\"model\":\"mixtral\",\"messages\":[{\"role\":\"user\",\"content\":\"ask\"}],\"stream\":true}"
            .to_vec(),
    );
    assert_eq!(p.bearer_token(), Some(&b"sk".to_vec()));
}

#[test]
fn fragmented_query_request() {
    let p = gemini_like(Some(b"a b/c"));
    let url = p.query_url(&b"models/gemini-pro".to_vec()).unwrap();
    assert_eq!(
        url,
        b"https://generativelanguage.googleapis.com/v1beta/models/gemini-pro:streamGenerateContent?key=a%20b%2Fc"
            .to_vec(),
    );
    let body = p.query_body(&b"gemini-pro".to_vec(), &b"ask".to_vec());
    assert_eq!(
        body,
        b"{\"contents\":[{\"role\":\"user\",\"parts\":[{\"text\":\"ask\"}]}]}".to_vec(),
    );
}

#[test]
fn query_url_needs_credential() {
    assert!(matches!(
        gemini_like(None).query_url(&b"m".to_vec()),
        Err(ProviderError::NotReady)
    ));
}

#[test]
fn models_urls() {
    assert_eq!(
        ollama_like().models_url().unwrap(),
        b"http://localhost:11434/api/tags".to_vec(),
    );
    assert_eq!(
        groq_like(Some(b"k")).models_url().unwrap(),
        b"https://api.groq.com/openai/v1/models".to_vec(),
    );
    assert_eq!(
        gemini_like(Some(b"k")).models_url().unwrap(),
        b"https://generativelanguage.googleapis.com/v1beta/models?key=k".to_vec(),
    );
}

#[test]
fn parse_newline_catalog() {
    let p = ollama_like();
    let names = p
        .parse_models(&b"{\"models\":[{\"name\":\"llama3:latest\"},{\"name\":\"phi\"}]}".to_vec())
        .unwrap();
    assert_eq!(names, vec![b"llama3:latest".to_vec(), b"phi".to_vec()]);
    assert!(matches!(
        p.parse_models(&b"{\"models\":[{\"nope\":1}]}".to_vec()),
        Err(ProviderError::Decode)
    ));
}

#[test]
fn parse_sse_catalog() {
    let p = groq_like(Some(b"k"));
    let names = p
        .parse_models(
            &b"{\"object\":\"list\",\"data\":[{\"id\":\"mixtral\",\"active\":true},{\"id\":\"llama2\"}]}"
                .to_vec(),
        )
        .unwrap();
    assert_eq!(names, vec![b"mixtral".to_vec(), b"llama2".to_vec()]);
}

#[test]
fn parse_fragmented_catalog_filters_generation_models() {
    let p = gemini_like(Some(b"k"));
    let body = b"{\"models\":[\
        {\"name\":\"models/gemini-pro\",\"supportedGenerationMethods\":[\"generateContent\"]},\
        {\"name\":\"models/embed\",\"supportedGenerationMethods\":[\"embedContent\"]},\
        {\"name\":\"models/flash\",\"supportedGenerationMethods\":[\"streamGenerateContent\"]},\
        {\"name\":\"models/bare\"}\
    ]}";
    let names = p.parse_models(&body.to_vec()).unwrap();
    assert_eq!(names, vec![b"models/gemini-pro".to_vec(), b"models/flash".to_vec()]);
}

#[test]
fn registry_lookup_and_listing() {
    let mut reg = ProviderRegistry::new();
    reg.register(ollama_like());
    reg.register(groq_like(None));
    let found = reg.get_provider(&b"ollama".to_vec()).expect("registered");
    assert_eq!(found.get_name(), &b"ollama".to_vec());
    assert!(reg.get_provider(&b"nope".to_vec()).is_none());
    let names = reg.list_providers();
    assert_eq!(names, vec![b"groq".to_vec(), b"ollama".to_vec()]);
}

#[test]
fn registry_reregistration_replaces() {
    let mut reg = ProviderRegistry::new();
    reg.register(groq_like(None));
    reg.register(ollama_like());
    reg.register(groq_like(Some(b"k")));
    // The later registration replaced the earlier provider of that name...
    let found = reg.get_provider(&b"groq".to_vec()).expect("registered");
    assert!(found.check_readiness().is_ok());
    // ...and the name is listed exactly once: names are unique within a
    // registry.
    let names = reg.list_providers();
    assert_eq!(names, vec![b"groq".to_vec(), b"ollama".to_vec()]);
}

#[test]
fn default_backends_registry() {
    let reg = ProviderRegistry::with_default_backends(Some(b"gk".to_vec()), None);
    let names = reg.list_providers();
    assert_eq!(names, vec![b"gemini".to_vec(), b"groq".to_vec(), b"ollama".to_vec()]);
    assert!(reg.get_provider(&b"ollama".to_vec()).unwrap().check_readiness().is_ok());
    assert!(reg.get_provider(&b"groq".to_vec()).unwrap().check_readiness().is_ok());
    assert!(matches!(
        reg.get_provider(&b"gemini".to_vec()).unwrap().check_readiness(),
        Err(ProviderError::NotReady)
    ));
    assert_eq!(
        reg.get_provider(&b"ollama".to_vec()).unwrap().models_url().unwrap(),
        b"http://localhost:11434/api/tags".to_vec(),
    );
}

#[test]
fn single_shot_request_and_response() {
    let p = gemini_like(Some(b"k"));
    let url = p.single_query_url(&b"gemini-pro".to_vec()).unwrap();
    assert_eq!(
        url,
        b"https://generativelanguage.googleapis.com/v1beta/models/gemini-pro:generateContent?key=k"
            .to_vec(),
    );
    let body = b"{\"candidates\":[{\"content\":{\"role\":\"model\",\"parts\":[{\"text\":\"answer\"}]}}]}";
    assert_eq!(p.parse_single_text(&body.to_vec()).unwrap(), b"answer".to_vec());
    // A response carrying only completion metadata has no text to give.
    assert!(matches!(
        p.parse_single_text(&b"{\"candidates\":[{\"finishReason\":\"STOP\"}]}".to_vec()),
        Err(ProviderError::Decode)
    ));
    // The streaming endpoint of the newline backend serves single-shot
    // queries too.
    let o = ollama_like();
    assert_eq!(
        o.single_query_url(&b"m".to_vec()).unwrap(),
        b"http://localhost:11434/api/generate".to_vec(),
    );
}

#[test]
fn status_classification() {
    assert!(status_success(200));
    assert!(status_success(204));
    assert!(!status_success(199));
    assert!(!status_success(301));
    assert!(!status_success(404));
    assert!(!status_success(500));
}
