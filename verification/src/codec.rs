//! The payload encoding shared with the guest: requests and responses are
//! JSON text in UTF-8, and a response ends with one zero byte.

use crate::action::Record;
use vstd::prelude::*;
use vstd::string::StrSliceExecFns;
use vstd::utf8::{
    decode_utf8, encode_utf8, encode_utf8_decode_utf8, encode_utf8_valid_utf8, valid_utf8,
};

verus! {

/// The text of the string member `field` of the JSON object that `text`
/// holds; `None` where `text` is not JSON, is not an object, or has no string
/// under `field`.
pub uninterp spec fn json_text_field(text: Seq<char>, field: Seq<char>) -> Option<Seq<char>>;

/// The compact JSON text of the object with the one member `field`, a string
/// that holds `value`.
pub uninterp spec fn json_text_object(field: Seq<char>, value: Seq<char>) -> Seq<char>;

/// `serde_json::from_str` at the type `serde_json::Value`, followed by
/// `Value::get` with the member's name: parses `text` and hands out the
/// member `field` where it is a string. Every failure of the outside parser,
/// and every other shape of value, gives `None`. The result depends on the
/// two texts alone.
#[verifier::external_body]
fn parse_text_field(text: &str, field: &str) -> (value: Option<String>)
    ensures
        value is Some <==> json_text_field(text@, field@) is Some,
        value matches Some(found) ==> json_text_field(text@, field@) == Some(found@),
{
    let parsed: Result<serde_json::Value, serde_json::Error> = serde_json::from_str(text);
    match parsed {
        Ok(value) => match value.get(field) {
            Some(serde_json::Value::String(found)) => Some(found.clone()),
            _ => None,
        },
        Err(_) => None,
    }
}

/// `serde_json::Value`'s `Display`, on an object built with
/// `serde_json::Map::insert`: the compact JSON text of `{field: value}`. The
/// result depends on the two texts alone.
#[verifier::external_body]
fn render_text_object(field: &str, value: &str) -> (text: String)
    ensures
        text@ == json_text_object(field@, value@),
{
    let mut members = serde_json::Map::new();
    members.insert(field.to_string(), serde_json::Value::String(value.to_string()));
    serde_json::Value::Object(members).to_string()
}

/// `String::from_utf8`: the text that `bytes` encode, or `None` where they
/// are not valid UTF-8.
#[verifier::external_body]
fn text_from_utf8(bytes: Vec<u8>) -> (text: Option<String>)
    ensures
        text is Some <==> valid_utf8(bytes@),
        text matches Some(decoded) ==> decoded@ == decode_utf8(bytes@),
{
    String::from_utf8(bytes).ok()
}

/// The name of the request's member that holds the key.
pub open spec fn key_field() -> Seq<char> {
    "key"@
}

/// The name of the response's member that holds the record's content.
pub open spec fn content_field() -> Seq<char> {
    "content"@
}

/// The text that `bytes` hold, where they are valid UTF-8.
pub open spec fn text_of(bytes: Seq<u8>) -> Option<Seq<char>> {
    if valid_utf8(bytes) {
        Some(decode_utf8(bytes))
    } else {
        None
    }
}

/// The key that a request payload asks for; `None` for a payload that does
/// not decode.
pub open spec fn request_key(bytes: Seq<u8>) -> Option<Seq<char>> {
    match text_of(bytes) {
        Some(text) => json_text_field(text, key_field()),
        None => None,
    }
}

/// The payload of a request for `key`.
pub open spec fn request_bytes(key: Seq<char>) -> Seq<u8> {
    encode_utf8(json_text_object(key_field(), key))
}

/// The text of a response: empty where nothing was found.
pub open spec fn response_text(found: Option<Seq<char>>) -> Seq<char> {
    match found {
        Some(content) => json_text_object(content_field(), content),
        None => Seq::empty(),
    }
}

/// The bytes of a response: its text in UTF-8, then the terminator.
pub open spec fn response_bytes(found: Option<Seq<char>>) -> Seq<u8> {
    encode_utf8(response_text(found)).push(0u8)
}

/// `at` is the place of the first zero byte of `bytes`.
pub open spec fn terminator_at(bytes: Seq<u8>, at: int) -> bool {
    &&& 0 <= at < bytes.len()
    &&& bytes[at] == 0
    &&& forall|j: int| 0 <= j < at ==> bytes[j] != 0
}

/// What stands before the first zero byte; `None` where there is none.
pub open spec fn framed_payload(bytes: Seq<u8>) -> Option<Seq<u8>> {
    if exists|at: int| terminator_at(bytes, at) {
        Some(bytes.take(choose|at: int| terminator_at(bytes, at)))
    } else {
        None
    }
}

/// What a payload text says was found.
pub open spec fn found_in(text: Seq<char>) -> Option<Option<Seq<char>>> {
    if text.len() == 0 {
        Some(None)
    } else {
        match json_text_field(text, content_field()) {
            Some(content) => Some(Some(content)),
            None => None,
        }
    }
}

/// What a response says was found: `Some(None)` for "nothing", and `None`
/// for bytes that are no response.
pub open spec fn response_found(bytes: Seq<u8>) -> Option<Option<Seq<char>>> {
    match framed_payload(bytes) {
        Some(payload) => match text_of(payload) {
            Some(text) => found_in(text),
            None => None,
        },
        None => None,
    }
}

/// The terminator delimits a payload that holds no zero byte, whatever
/// follows it in memory.
pub proof fn lemma_terminator_delimits(payload: Seq<u8>, rest: Seq<u8>)
    requires
        forall|j: int| 0 <= j < payload.len() ==> payload[j] != 0,
    ensures
        framed_payload(payload.push(0u8) + rest) == Some(payload),
{
    let framed = payload.push(0u8) + rest;
    let end = payload.len() as int;
    assert(framed[end] == 0);
    assert forall|j: int| 0 <= j < end implies framed[j] != 0 by {
        assert(framed[j] == payload[j]);
    }
    assert(terminator_at(framed, end));
    let chosen = choose|at: int| terminator_at(framed, at);
    assert(chosen == end);
    assert(framed.take(end) =~= payload);
}

/// The response for "nothing found" is the terminator alone, and reads back
/// as "nothing found".
pub proof fn lemma_absent_response_round_trip()
    ensures
        response_bytes(None) == seq![0u8],
        response_found(response_bytes(None)) == Some(None::<Seq<char>>),
{
    let nothing = Seq::<char>::empty();
    assert(encode_utf8(nothing) =~= Seq::<u8>::empty());
    assert(response_bytes(None) =~= seq![0u8]);
    lemma_terminator_delimits(Seq::<u8>::empty(), Seq::<u8>::empty());
    assert(Seq::<u8>::empty().push(0u8) + Seq::<u8>::empty() =~= seq![0u8]);
    encode_utf8_valid_utf8(nothing);
    encode_utf8_decode_utf8(nothing);
}

/// The response for a found record reads back as that record wherever the
/// JSON coder reads back what it wrote and wrote a non-empty text without a
/// zero byte. Nothing is said here of whether the coder does so.
pub proof fn lemma_found_response_round_trip(content: Seq<char>)
    ensures
        ({
            let text = json_text_object(content_field(), content);
            &&& json_text_field(text, content_field()) == Some(content)
            &&& text.len() > 0
            &&& forall|j: int| 0 <= j < encode_utf8(text).len() ==> encode_utf8(text)[j] != 0
        }) ==> response_found(response_bytes(Some(content))) == Some(Some(content)),
{
    let text = json_text_object(content_field(), content);
    let payload = encode_utf8(text);
    if json_text_field(text, content_field()) == Some(content) && text.len() > 0 && (forall|
        j: int,
    |
        0 <= j < payload.len() ==> payload[j] != 0) {
        lemma_terminator_delimits(payload, Seq::<u8>::empty());
        assert(payload.push(0u8) + Seq::<u8>::empty() =~= payload.push(0u8));
        encode_utf8_valid_utf8(text);
        encode_utf8_decode_utf8(text);
    }
}

/// A request reads back as the key it was built from wherever the JSON coder
/// reads back what it wrote. Nothing is said here of whether the coder does
/// so.
pub proof fn lemma_request_round_trip(key: Seq<char>)
    ensures
        json_text_field(json_text_object(key_field(), key), key_field()) == Some(key)
            ==> request_key(request_bytes(key)) == Some(key),
{
    let text = json_text_object(key_field(), key);
    encode_utf8_valid_utf8(text);
    encode_utf8_decode_utf8(text);
}

/// The input of a lookup.
#[derive(Debug)]
pub struct GetRequest {
    pub key: String,
}

/// Decodes a request payload, or returns `None` where the bytes are not
/// UTF-8 or the text is not a JSON object with a string under `key`.
pub fn decode_request(bytes: Vec<u8>) -> (request: Option<GetRequest>)
    ensures
        request is Some <==> request_key(bytes@) is Some,
        request matches Some(decoded) ==> request_key(bytes@) == Some(decoded.key@),
{
    match text_from_utf8(bytes) {
        None => None,
        Some(text) => match parse_text_field(text.as_str(), "key") {
            Some(key) => Some(GetRequest { key }),
            None => None,
        },
    }
}

/// Encodes a request as the guest writes it into its memory.
pub fn encode_request(request: &GetRequest) -> (bytes: Vec<u8>)
    ensures
        bytes@ == request_bytes(request.key@),
{
    let text = render_text_object("key", request.key.as_str());
    text.as_str().as_bytes_vec()
}

/// Encodes the outcome of a lookup: the record as JSON text, or the empty
/// text where nothing was found, followed by the terminating zero byte.
pub fn encode_response(found: &Option<Record>) -> (bytes: Vec<u8>)
    ensures
        bytes@ == response_bytes(
            match *found {
                Some(record) => Some(record@),
                None => None,
            },
        ),
{
    let text = match found {
        Some(record) => render_text_object("content", record.content.as_str()),
        None => String::new(),
    };
    let mut bytes = text.as_str().as_bytes_vec();
    bytes.push(0u8);
    bytes
}

/// Decodes a response as the guest reads it back: the bytes up to the first
/// zero byte count.
pub fn decode_response(bytes: &Vec<u8>) -> (found: Option<Option<Record>>)
    ensures
        found is Some <==> response_found(bytes@) is Some,
        found matches Some(Some(record)) ==> response_found(bytes@) == Some(Some(record@)),
        found matches Some(None) ==> response_found(bytes@) == Some(None::<Seq<char>>),
{
    let mut payload: Vec<u8> = Vec::new();
    let mut at: usize = 0;
    while at < bytes.len() && bytes[at] != 0
        invariant
            at <= bytes.len(),
            payload@ == bytes@.take(at as int),
            forall|j: int| 0 <= j < at ==> bytes[j] != 0,
        decreases bytes.len() - at,
    {
        payload.push(bytes[at]);
        assert(payload@ =~= bytes@.take(at + 1));
        at = at + 1;
    }
    if at == bytes.len() {
        assert forall|k: int| !terminator_at(bytes@, k) by {}
        return None;
    }
    assert(terminator_at(bytes@, at as int));
    assert forall|k: int| terminator_at(bytes@, k) implies k == at by {}
    assert(framed_payload(bytes@) == Some(payload@));
    match text_from_utf8(payload) {
        None => None,
        Some(text) => {
            if text.as_str().is_empty() {
                Some(None)
            } else {
                match parse_text_field(text.as_str(), "content") {
                    Some(content) => Some(Some(Record { content })),
                    None => None,
                }
            }
        },
    }
}

} // verus!
