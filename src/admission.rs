use vstd::prelude::*;

use kubewarden_policy_sdk::request::ValidationRequest;

use crate::detector::{keys_of, keys_sorted};
use crate::verdict::{decide, verdict_of, ResourceView, Verdict};

verus! {

#[verifier::external_type_specification]
#[verifier::external_body]
pub struct ExJsonValue(serde_json::Value);

#[verifier::external_type_specification]
#[verifier::external_body]
pub struct ExSdkError(kubewarden_policy_sdk::Error);

/// The metadata of a document read as a Pod, as the document holds it.
pub struct PodMetadata {
    pub name: Option<String>,
    pub labels: Option<Vec<(String, String)>>,
}

/// A document read as the one kind this policy understands, or found to be
/// of another shape. Documents of another shape are out of scope and are
/// always accepted: that is a deliberate policy decision.
pub enum Extraction {
    Pod(ResourceView),
    Unrecognized,
}

/// Why an evaluation could not produce a verdict.
pub enum PolicyError {
    /// The payload is not a validation request.
    MalformedRequest(kubewarden_policy_sdk::Error),
    /// The document is a Pod without a name.
    MissingName,
    /// The verdict could not be serialised.
    Encoding(String),
}

/// What a Pod's metadata holds: its name and its label pairs, if present.
pub type MetadataView = (Option<Seq<char>>, Option<Seq<(Seq<char>, Seq<char>)>>);

/// The label pairs as character sequences, in order.
pub open spec fn pairs_view(labels: Seq<(String, String)>) -> Seq<(Seq<char>, Seq<char>)> {
    labels.map_values(|p: (String, String)| (p.0@, p.1@))
}

/// The keys of label pairs, in order.
pub open spec fn pair_keys(pairs: Seq<(Seq<char>, Seq<char>)>) -> Seq<Seq<char>> {
    pairs.map_values(|p: (Seq<char>, Seq<char>)| p.0)
}

/// What the policy reads of a document's metadata.
pub open spec fn metadata_view(m: PodMetadata) -> MetadataView {
    (
        match m.name {
            Some(n) => Some(n@),
            None => None,
        },
        match m.labels {
            Some(l) => Some(pairs_view(l@)),
            None => None,
        },
    )
}

/// What a validation request payload reads as: `None` when it is no
/// validation request, `Some(None)` when its object is not a Pod, and
/// otherwise the Pod's metadata.
pub uninterp spec fn request_pod(payload: Seq<u8>) -> Option<Option<MetadataView>>;

/// The serialised response that rejects a request with `message` as reason.
pub uninterp spec fn rejection_response(message: Seq<char>) -> Seq<u8>;

/// The serialised response that accepts a request: no reason, no code, no
/// annotations, no warnings and no mutated object.
pub open spec fn accept_response() -> Seq<u8> {
    "{\"accepted\":true,\"message\":null,\"code\":null,\"mutated_object\":null,\"audit_annotations\":null,\"warnings\":null}"@.map_values(
        |c: char| c as u8,
    )
}

/// The bytes handed back to the host: a rejecting response when there is a
/// reason, the accepting one when there is none.
pub open spec fn response_of(verdict: Option<Seq<char>>) -> Seq<u8> {
    match verdict {
        Some(m) => rejection_response(m),
        None => accept_response(),
    }
}

/// Relies on kubewarden_policy_sdk's ValidationRequest::new to parse the
/// payload, and on serde_json::from_value to read the request's object as a
/// k8s_openapi Pod, which fails unless the object is a Pod. Both depend on
/// the payload alone. The settings carry no fields, so any JSON object is
/// taken for them. The labels of a Pod are a BTreeMap, which yields its keys
/// once each and in increasing order.
#[verifier::external_body]
fn read_request(payload: &[u8]) -> (r: Result<Option<PodMetadata>, kubewarden_policy_sdk::Error>)
    ensures
        match r {
            Err(_) => request_pod(payload@) is None,
            Ok(None) => request_pod(payload@) == Some(None::<MetadataView>),
            Ok(Some(m)) => request_pod(payload@) == Some(Some(metadata_view(m))),
        },
        r matches Ok(Some(m)) ==> (m.labels matches Some(l) ==> keys_of(l@).no_duplicates()
            && keys_sorted(keys_of(l@))),
{
    let req = ValidationRequest::<serde_json::Map<String, serde_json::Value>>::new(payload)?;
    Ok(serde_json::from_value::<k8s_openapi::api::core::v1::Pod>(req.request.object).ok().map(
        |pod| PodMetadata {
            name: pod.metadata.name,
            labels: pod.metadata.labels.map(|l| l.into_iter().collect()),
        },
    ))
}

/// Relies on kubewarden_policy_sdk::accept_request, which serialises a
/// response that accepts the request. The response holds no map, so its
/// serialisation does not fail.
#[verifier::external_body]
fn acceptance() -> (r: Result<Vec<u8>, String>)
    ensures
        r is Ok,
        r->Ok_0@ == accept_response(),
{
    kubewarden_policy_sdk::accept_request().map_err(|e| e.to_string())
}

/// Relies on kubewarden_policy_sdk::reject_request to serialise a response
/// that rejects the request with `message` as its reason and nothing else:
/// no code, no annotations, no warnings and no mutated object. The response
/// holds no map entries, so its serialisation does not fail.
#[verifier::external_body]
fn rejection(message: String) -> (r: Result<Vec<u8>, String>)
    ensures
        r is Ok,
        r->Ok_0@ == rejection_response(message@),
{
    kubewarden_policy_sdk::reject_request(Some(message), None, None, None).map_err(|e| e.to_string())
}

/// The labels a Pod is evaluated with: those it declares, or none.
pub open spec fn labels_or_empty(labels: Option<Vec<(String, String)>>) -> Seq<(String, String)> {
    match labels {
        Some(l) => l@,
        None => Seq::empty(),
    }
}

/// Turns what was read of a document into the view the policy decides on.
/// A document that is not a Pod is out of scope; a Pod without a name is an
/// error; a Pod without labels has an empty label mapping.
pub fn extract(parsed: Option<PodMetadata>) -> (r: Result<Extraction, PolicyError>)
    ensures
        match parsed {
            None => r matches Ok(Extraction::Unrecognized),
            Some(m) => match m.name {
                None => r matches Err(PolicyError::MissingName),
                Some(n) => r matches Ok(Extraction::Pod(v)) && v.name@ == n@ && v.labels@
                    == labels_or_empty(m.labels) && (keys_of(labels_or_empty(m.labels)).no_duplicates()
                    && keys_sorted(keys_of(labels_or_empty(m.labels))) ==> v.wf()),
            },
        },
{
    match parsed {
        None => Ok(Extraction::Unrecognized),
        Some(m) => match m.name {
            None => Err(PolicyError::MissingName),
            Some(name) => {
                let labels = match m.labels {
                    Some(l) => l,
                    None => Vec::new(),
                };
                Ok(Extraction::Pod(ResourceView { name, labels }))
            },
        },
    }
}

/// The verdict on an extracted document: a Pod is decided on its labels,
/// anything else is accepted.
pub fn evaluate(extraction: &Extraction) -> (r: Verdict)
    ensures
        match extraction {
            Extraction::Pod(v) => r@ == verdict_of(v.name@, keys_of(v.labels@)),
            Extraction::Unrecognized => r is Accept,
        },
{
    match extraction {
        Extraction::Pod(view) => decide(view),
        Extraction::Unrecognized => Verdict::Accept,
    }
}

/// The verdict on what was read of a document, or the error that stops the
/// evaluation.
pub fn verdict_for(parsed: Option<PodMetadata>) -> (r: Result<Verdict, PolicyError>)
    ensures
        match parsed {
            None => r matches Ok(Verdict::Accept),
            Some(m) => match m.name {
                None => r matches Err(PolicyError::MissingName),
                Some(n) => r matches Ok(v) && v@ == verdict_of(n@, keys_of(labels_or_empty(m.labels))),
            },
        },
{
    match extract(parsed) {
        Ok(extraction) => Ok(evaluate(&extraction)),
        Err(e) => Err(e),
    }
}

/// Serialises a verdict into the response handed back to the host.
pub fn encode_verdict(verdict: Verdict) -> (r: Result<Vec<u8>, PolicyError>)
    ensures
        r matches Ok(b) && b@ == response_of(verdict@),
{
    let encoded = match verdict {
        Verdict::Accept => acceptance(),
        Verdict::Reject(message) => rejection(message),
    };
    match encoded {
        Ok(b) => Ok(b),
        Err(e) => Err(PolicyError::Encoding(e)),
    }
}

/// Evaluates one validation request: parses the payload, reads its object as
/// a Pod and serialises the verdict. A payload that is not a validation
/// request is an error; so is a Pod without a name. A document that is not a
/// Pod is accepted.
pub fn validate(payload: &[u8]) -> (r: Result<Vec<u8>, PolicyError>)
    ensures
        match request_pod(payload@) {
            None => r matches Err(PolicyError::MalformedRequest(_)),
            Some(None) => r matches Ok(b) && b@ == accept_response(),
            Some(Some(m)) => match m.0 {
                None => r matches Err(PolicyError::MissingName),
                Some(n) => r matches Ok(b) && b@ == response_of(
                    verdict_of(n, pair_keys(pairs_or_empty(m.1))),
                ),
            },
        },
{
    let parsed = match read_request(payload) {
        Ok(p) => p,
        Err(e) => {
            return Err(PolicyError::MalformedRequest(e));
        },
    };
    proof {
        if parsed is Some {
            let m = parsed->0;
            let l = labels_or_empty(m.labels);
            assert(keys_of(l) =~= pair_keys(pairs_or_empty(metadata_view(m).1)));
        }
    }
    let verdict = verdict_for(parsed)?;
    encode_verdict(verdict)
}

/// The label pairs a Pod is evaluated with: those it declares, or none.
pub open spec fn pairs_or_empty(labels: Option<Seq<(Seq<char>, Seq<char>)>>) -> Seq<(Seq<char>, Seq<char>)> {
    match labels {
        Some(l) => l,
        None => Seq::empty(),
    }
}

} // verus!
