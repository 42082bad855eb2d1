use ollama_stream::client::{
    build_payload, check_status, health_from_status, model_names, ClientError, GenerationRequest,
    PayloadField, PayloadKey,
};
use std::collections::HashMap;

fn bare_request() -> GenerationRequest {
    GenerationRequest {
        model: "llama3".to_string(),
        prompt: "hello".to_string(),
        system: None,
        template: None,
        images: None,
        raw: None,
        format: None,
        options: None,
        context: None,
    }
}

#[test]
fn unset_fields_are_left_out_of_the_payload() {
    let p = build_payload(bare_request());
    assert_eq!(
        p,
        vec![
            PayloadField::Model("llama3".to_string()),
            PayloadField::Prompt("hello".to_string()),
            PayloadField::Stream(true),
        ]
    );
}

#[test]
fn set_fields_appear_in_fixed_order() {
    let mut opts = HashMap::new();
    opts.insert("temperature".to_string(), serde_json::Value::from(1));
    let req = GenerationRequest {
        system: Some("be brief".to_string()),
        raw: Some(false),
        options: Some(opts.clone()),
        context: Some(vec![7, 8]),
        ..bare_request()
    };
    let p = build_payload(req);
    let keys: Vec<PayloadKey> = p.iter().map(|f| f.key()).collect();
    assert_eq!(
        keys,
        vec![
            PayloadKey::Model,
            PayloadKey::Prompt,
            PayloadKey::Stream,
            PayloadKey::Context,
            PayloadKey::System,
            PayloadKey::Raw,
            PayloadKey::Options,
        ]
    );
    assert_eq!(p[3], PayloadField::Context(vec![7, 8]));
    assert_eq!(p[6], PayloadField::Options(opts));
}

#[test]
fn all_fields_set() {
    let req = GenerationRequest {
        system: Some("s".to_string()),
        template: Some("t".to_string()),
        images: Some(vec!["aGk=".to_string()]),
        raw: Some(true),
        format: Some("json".to_string()),
        options: Some(HashMap::new()),
        context: Some(vec![]),
        ..bare_request()
    };
    assert_eq!(build_payload(req).len(), 10);
}

#[test]
fn status_check() {
    assert_eq!(check_status(200), Ok(()));
    assert_eq!(check_status(299), Ok(()));
    assert_eq!(check_status(500), Err(ClientError::UpstreamError(500)));
    assert_eq!(check_status(404), Err(ClientError::UpstreamError(404)));
    assert_eq!(check_status(199), Err(ClientError::UpstreamError(199)));
}

#[test]
fn health_collapses_failures_to_false() {
    assert!(health_from_status(Some(200)));
    assert!(!health_from_status(Some(503)));
    assert!(!health_from_status(None));
}

#[test]
fn model_names_are_read_from_listing() {
    let body = b"{\"models\":[{\"name\":\"llama3:latest\",\"size\":1},{\"size\":2},{\"name\":\"phi3\"}]}";
    assert_eq!(
        model_names(body),
        Ok(vec!["llama3:latest".to_string(), "phi3".to_string()])
    );
}

#[test]
fn missing_models_array_is_empty_list() {
    assert_eq!(model_names(b"{\"other\":1}"), Ok(vec![]));
    assert_eq!(model_names(b"{\"models\":\"none\"}"), Ok(vec![]));
}

#[test]
fn malformed_listing_body() {
    assert_eq!(model_names(b"<html>"), Err(ClientError::MalformedResponse));
    assert_eq!(model_names(&[0xff, 0xfe]), Err(ClientError::MalformedResponse));
}
