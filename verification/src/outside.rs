//! Declarations of the outside types that the library carries through its
//! logic without looking inside them.

use reqwest::Error as HttpError;
use serde_json::Error as JsonError;
use serde_json::Value;
use reqwest::Client as HttpClient;
use reqwest::ClientBuilder as HttpClientBuilder;

use vstd::prelude::*;

verus! {

/// The transport error type of the HTTP client.
#[verifier::external_type_specification]
#[verifier::external_body]
pub struct ExHttpError(HttpError);

/// The error type of the JSON library.
#[verifier::external_type_specification]
#[verifier::external_body]
pub struct ExJsonError(JsonError);

/// The HTTP client: a connection pool with its TLS backend.
#[verifier::external_type_specification]
#[verifier::external_body]
pub struct ExHttpClient(HttpClient);

/// The builder of an HTTP client.
#[verifier::external_type_specification]
#[verifier::external_body]
pub struct ExHttpClientBuilder(HttpClientBuilder);

/// A JSON value: the instructions of a question and the request state.
#[verifier::external_type_specification]
#[verifier::external_body]
pub struct ExJsonValue(Value);

/// A JSON object's entries, ordered by key.
#[verifier::external_type_specification]
#[verifier::external_body]
#[verifier::reject_recursive_types(K)]
#[verifier::reject_recursive_types(V)]
pub struct ExJsonObject<K, V>(serde_json::Map<K, V>);

/// `Clone` of a JSON value: an equal value.
pub assume_specification[ <serde_json::Value as core::clone::Clone>::clone ](v: &Value) -> (r: Value)
    ensures
        r == *v,
;

} // verus!
