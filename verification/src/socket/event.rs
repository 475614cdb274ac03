//! What travels between the gateway and its clients.

use vstd::prelude::*;

verus! {

/// serde_json's map, as the data of an event carries it. The core hands it
/// through unread.
#[verifier::external_type_specification]
#[verifier::external_body]
#[verifier::reject_recursive_types(K)]
#[verifier::reject_recursive_types(V)]
pub struct ExJsonMap<K, V>(serde_json::Map<K, V>);

/// serde_json's value, of which the data of an event is made. The core hands
/// it through unread.
#[verifier::external_type_specification]
#[verifier::external_body]
pub struct ExJsonValue(serde_json::Value);

/// The data of an event: a JSON object.
pub type Data = serde_json::Map<String, serde_json::Value>;

/// A frame of a client, read as JSON: the name of an event and its data.
pub struct WsEvent {
    pub event: String,
    pub data: Data,
}

/// What the gateway answers where an event cannot be served.
#[derive(Debug)]
pub struct ErrorResponse {
    pub error_code: u16,
    pub msg: String,
}

} // verus!
