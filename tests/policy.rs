use palindrome_labels::admission::{
    encode_verdict, evaluate, extract, validate, verdict_for, Extraction, PodMetadata, PolicyError,
};
use palindrome_labels::detector::{has_palindrome_label, is_palindrome_key};
use palindrome_labels::verdict::{decide, rejection_message, ResourceView, Verdict};

fn pod_request(metadata: &str) -> Vec<u8> {
    format!(
        "{{\"settings\": {{}}, \"request\": {{\"uid\": \"1299d386-525b-4032-98ae-1949f69f9cfc\", \
         \"kind\": {{\"group\": \"\", \"version\": \"v1\", \"kind\": \"Pod\"}}, \
         \"operation\": \"CREATE\", \"object\": {{\"apiVersion\": \"v1\", \"kind\": \"Pod\", \
         \"metadata\": {}, \"spec\": {{\"containers\": [{{\"name\": \"nginx\", \"image\": \"nginx:latest\"}}]}}}}}}}}",
        metadata
    )
    .into_bytes()
}

fn response(payload: &[u8]) -> serde_json::Value {
    let bytes = match validate(payload) {
        Ok(b) => b,
        Err(_) => panic!("validation failed"),
    };
    serde_json::from_slice(&bytes).unwrap()
}

fn labels(pairs: &[(&str, &str)]) -> Vec<(String, String)> {
    pairs.iter().map(|(k, v)| (k.to_string(), v.to_string())).collect()
}

fn view(name: &str, pairs: &[(&str, &str)]) -> ResourceView {
    ResourceView { name: name.to_string(), labels: labels(pairs) }
}

fn reason(v: Verdict) -> Option<String> {
    match v {
        Verdict::Accept => None,
        Verdict::Reject(m) => Some(m),
    }
}

#[test]
fn accept_pod_with_valid_labels() {
    let res = response(&pod_request(
        "{\"name\": \"nginx\", \"labels\": {\"app\": \"nginx\"}}",
    ));
    assert_eq!(res["accepted"], serde_json::Value::Bool(true));
    assert!(res["mutated_object"].is_null(), "Something mutated with test case: {}", "Valid labels");
}

#[test]
fn accept_pod_with_no_labels() {
    let res = response(&pod_request("{\"name\": \"nginx\"}"));
    assert_eq!(res["accepted"], serde_json::Value::Bool(true));
    assert!(res["mutated_object"].is_null(), "Something mutated with test case: {}", "Valid labels");
}

#[test]
fn reject_pod_with_invalid_labels() {
    let res = response(&pod_request(
        "{\"name\": \"nginx\", \"labels\": {\"level\": \"level\", \"app\": \"nginx\"}}",
    ));
    assert_eq!(res["accepted"], serde_json::Value::Bool(false));
    assert_eq!(
        res["message"],
        serde_json::Value::String("pod nginx with label level is not accepted".to_string())
    );
    assert!(res["mutated_object"].is_null(), "Something mutated with test case: {}", "Invalid labels");
}

#[test]
fn accept_other_kind_document() {
    let payload = "{\"settings\": {}, \"request\": {\"uid\": \"x\", \"operation\": \"CREATE\", \
                   \"object\": {\"apiVersion\": \"v1\", \"kind\": \"Service\", \
                   \"metadata\": {\"name\": \"level\", \"labels\": {\"a\": \"b\"}}}}}";
    let res = response(payload.as_bytes());
    assert_eq!(res["accepted"], serde_json::Value::Bool(true));
    assert!(res["message"].is_null());
    assert!(res["mutated_object"].is_null());
}

#[test]
fn malformed_payload_is_an_error() {
    assert!(matches!(validate(b"not json"), Err(PolicyError::MalformedRequest(_))));
}

#[test]
fn pod_without_name_is_an_error() {
    let r = validate(&pod_request("{\"labels\": {\"app\": \"x\"}}"));
    assert!(matches!(r, Err(PolicyError::MissingName)));
}

#[test]
fn palindrome_keys() {
    assert!(is_palindrome_key(""));
    assert!(is_palindrome_key("a"));
    assert!(is_palindrome_key("level"));
    assert!(is_palindrome_key("abba"));
    assert!(is_palindrome_key("été"));
    assert!(!is_palindrome_key("app"));
    assert!(!is_palindrome_key("ab"));
    assert!(!is_palindrome_key("abca"));
}

#[test]
fn first_palindrome_label_is_reported() {
    assert_eq!(has_palindrome_label(&labels(&[])), None);
    assert_eq!(has_palindrome_label(&labels(&[("app", "nginx")])), None);
    assert_eq!(
        has_palindrome_label(&labels(&[("app", "x"), ("level", "y"), ("x", "z")])),
        Some("level".to_string())
    );
}

#[test]
fn rejection_message_format() {
    assert_eq!(rejection_message("nginx", "level"), "pod nginx with label level is not accepted");
}

#[test]
fn scenario_valid_labels() {
    assert_eq!(reason(decide(&view("nginx", &[("app", "nginx")]))), None);
}

#[test]
fn scenario_empty_labels() {
    assert_eq!(reason(decide(&view("nginx", &[]))), None);
}

#[test]
fn scenario_palindrome_label() {
    let m = reason(decide(&view("nginx", &[("app", "nginx"), ("level", "level")]))).unwrap();
    assert!(m.contains("level"));
    assert!(m.contains("nginx"));
}

#[test]
fn short_keys_are_disqualifying() {
    assert_eq!(
        reason(decide(&view("web", &[("", "v")]))),
        Some("pod web with label  is not accepted".to_string())
    );
    assert_eq!(
        reason(decide(&view("web", &[("q", "v")]))),
        Some("pod web with label q is not accepted".to_string())
    );
}

#[test]
fn unrecognized_document_is_accepted() {
    assert!(matches!(evaluate(&Extraction::Unrecognized), Verdict::Accept));
    assert!(matches!(verdict_for(None), Ok(Verdict::Accept)));
}

#[test]
fn extraction_defaults_labels() {
    let m = PodMetadata { name: Some("nginx".to_string()), labels: None };
    match extract(Some(m)) {
        Ok(Extraction::Pod(v)) => {
            assert_eq!(v.name, "nginx");
            assert!(v.labels.is_empty());
        }
        _ => panic!("expected a Pod"),
    }
    let nameless = PodMetadata { name: None, labels: Some(labels(&[("a", "b")])) };
    assert!(matches!(extract(Some(nameless)), Err(PolicyError::MissingName)));
}

#[test]
fn encoded_verdicts() {
    let accepted: serde_json::Value =
        serde_json::from_slice(&encode_verdict(Verdict::Accept).ok().unwrap()).unwrap();
    assert_eq!(accepted["accepted"], serde_json::Value::Bool(true));
    let rejected: serde_json::Value = serde_json::from_slice(
        &encode_verdict(Verdict::Reject("no".to_string())).ok().unwrap(),
    )
    .unwrap();
    assert_eq!(rejected["accepted"], serde_json::Value::Bool(false));
    assert_eq!(rejected["message"], serde_json::Value::String("no".to_string()));
    assert!(rejected["mutated_object"].is_null());
}

#[test]
fn accept_response_bytes() {
    let bytes = encode_verdict(Verdict::Accept).ok().unwrap();
    assert_eq!(
        String::from_utf8(bytes).unwrap(),
        "{\"accepted\":true,\"message\":null,\"code\":null,\"mutated_object\":null,\"audit_annotations\":null,\"warnings\":null}"
    );
    let other = response(&pod_request("{\"name\": \"nginx\", \"labels\": {\"app\": \"nginx\"}}"));
    assert_eq!(other["accepted"], serde_json::Value::Bool(true));
}

#[test]
fn least_disqualifying_key_is_reported() {
    let res = response(&pod_request(
        "{\"name\": \"web\", \"labels\": {\"zz\": \"1\", \"app\": \"2\", \"bob\": \"3\"}}",
    ));
    assert_eq!(
        res["message"],
        serde_json::Value::String("pod web with label bob is not accepted".to_string())
    );
    let more = response(&pod_request(
        "{\"name\": \"web\", \"labels\": {\"zz\": \"1\", \"app\": \"2\", \"bob\": \"3\", \"x\": \"4\", \"aa\": \"5\"}}",
    ));
    assert_eq!(
        more["message"],
        serde_json::Value::String("pod web with label aa is not accepted".to_string())
    );
}

#[test]
fn empty_key_is_reported_first() {
    let res = response(&pod_request(
        "{\"name\": \"web\", \"labels\": {\"level\": \"1\", \"\": \"2\"}}",
    ));
    assert_eq!(
        res["message"],
        serde_json::Value::String("pod web with label  is not accepted".to_string())
    );
}

#[test]
fn deployment_with_palindrome_label_is_accepted() {
    let payload = "{\"settings\": {}, \"request\": {\"object\": {\"apiVersion\": \"apps/v1\", \
                   \"kind\": \"Deployment\", \"metadata\": {\"name\": \"nginx\", \
                   \"labels\": {\"level\": \"level\"}}}}}";
    let res = response(payload.as_bytes());
    assert_eq!(res["accepted"], serde_json::Value::Bool(true));
    assert!(res["message"].is_null());
}
