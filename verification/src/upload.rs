//! The request that carries one chunk of records to the API.
//!
//! The body is a JSON object of strings: the API key, the profile the records go to
//! where one is configured, the tag that says the records are ADIF text, and the
//! records themselves.

use vstd::prelude::*;
use vstd::utf8::encode_utf8;

verus! {

/// The compact JSON text that `serde_json` writes for an object whose members are the
/// given pairs of a name and a string.
pub uninterp spec fn json_object_text(members: Seq<(Seq<char>, Seq<char>)>) -> Seq<char>;

/// `serde_json`: collects the pairs into a `Map`, each value as a `Value::String`, and
/// writes the `Value::Object` of it with `Display`. The text depends on the pairs
/// alone; what it is, is left to `serde_json`.
#[verifier::external_body]
fn json_object(members: &Vec<(String, String)>) -> (text: String)
    ensures
        text@ == json_object_text(members.deep_view()),
{
    let map: serde_json::Map<String, serde_json::Value> = members.iter().map(
        |m| (m.0.clone(), serde_json::Value::String(m.1.clone())),
    ).collect();
    serde_json::Value::Object(map).to_string()
}

/// One request to the API.
#[derive(Debug)]
pub struct UploadRequest {
    /// The JSON text to send.
    pub body: String,
    /// Number of bytes of log data that the request carries.
    pub len: usize,
}

/// The members of the object that carries `chunk`, in the order in which they are
/// handed to the encoder.
pub open spec fn payload_members(
    key: Seq<char>,
    profile: Option<Seq<char>>,
    chunk: Seq<char>,
) -> Seq<(Seq<char>, Seq<char>)> {
    let tail = seq![("type"@, "adif"@), ("string"@, chunk)];
    match profile {
        Some(id) => seq![("key"@, key), ("station_profile_id"@, id)] + tail,
        None => seq![("key"@, key)] + tail,
    }
}

/// Builds the request for one chunk of records. The profile is a member of the body only
/// where one is given.
pub fn upload_request(key: &str, profile: Option<&str>, chunk: &str) -> (request: UploadRequest)
    ensures
        request.body@ == json_object_text(
            payload_members(
                key@,
                match profile {
                    Some(id) => Some(id@),
                    None => None,
                },
                chunk@,
            ),
        ),
        request.len == encode_utf8(chunk@).len(),
{
    let mut members: Vec<(String, String)> = Vec::new();
    members.push(("key".to_owned(), key.to_owned()));
    match profile {
        Some(id) => {
            members.push(("station_profile_id".to_owned(), id.to_owned()));
        },
        None => {},
    }
    members.push(("type".to_owned(), "adif".to_owned()));
    members.push(("string".to_owned(), chunk.to_owned()));
    proof {
        let wanted = payload_members(
            key@,
            match profile {
                Some(id) => Some(id@),
                None => None,
            },
            chunk@,
        );
        assert(members.deep_view() =~= wanted);
    }
    UploadRequest { body: json_object(&members), len: chunk.as_bytes().len() }
}

} // verus!
