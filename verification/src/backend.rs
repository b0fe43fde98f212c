//! The REST backend's logic: the address of an endpoint, and the objects
//! that an endpoint's JSON answer holds.
use crate::definition::ApiDefinition;
use vstd::prelude::*;

verus! {

/// An object in the api backend.
pub struct ApiObject {
    /// Path to the api endpoint.
    pub path: String,
    /// Contents of the object.
    pub contents: String,
}

impl View for ApiObject {
    type V = (Seq<char>, Seq<char>);

    open spec fn view(&self) -> (Seq<char>, Seq<char>) {
        (self.path@, self.contents@)
    }
}

/// One element of a JSON array, as far as the backend reads it: a string's
/// text, or any other value.
pub enum JsonItem {
    Text(String),
    Other,
}

impl View for JsonItem {
    type V = Option<Seq<char>>;

    open spec fn view(&self) -> Option<Seq<char>> {
        match self {
            JsonItem::Text(text) => Some(text@),
            JsonItem::Other => None,
        }
    }
}

/// A JSON document, as far as the backend reads it: an array and its
/// elements, or any other value.
pub enum JsonBody {
    Array(Vec<JsonItem>),
    NotArray,
}

impl View for JsonBody {
    type V = Option<Seq<Option<Seq<char>>>>;

    open spec fn view(&self) -> Option<Seq<Option<Seq<char>>>> {
        match self {
            JsonBody::Array(items) => Some(items@.map_values(|item: JsonItem| item@)),
            JsonBody::NotArray => None,
        }
    }
}

/// Why an endpoint's answer gave no objects.
#[derive(Debug)]
pub enum BackendError {
    /// The answer is not a JSON document: the error serde_json reported,
    /// with its message.
    InvalidJson { error: serde_json::Error, message: String },
    /// The answer is a JSON document but not an array.
    NotAnArray,
}

#[verifier::external_type_specification]
#[verifier::external_body]
pub struct ExJsonError(serde_json::Error);

/// What `serde_json` reads from `body` as a `serde_json::Value`, seen as a
/// `JsonBody`: `None` where it refuses the bytes.
pub uninterp spec fn json_body_of(body: Seq<u8>) -> Option<Option<Seq<Option<Seq<char>>>>>;

/// The message of the error that `serde_json` reports where it refuses
/// `body`.
pub uninterp spec fn json_error_message(body: Seq<u8>) -> Seq<char>;

/// Parses `body` as one JSON document.
///
/// Calls `serde_json::from_slice::<serde_json::Value>` and keeps of the value
/// what the backend reads: whether it is an array, and which of its
/// elements are strings, with their text. A refusal comes back as
/// serde_json's error together with its message (its `Display` form). The
/// contract claims that the outcome, and the message of a refusal, are
/// functions of the bytes (`json_body_of`, `json_error_message`); which
/// documents serde_json accepts, what it reads from them and what its
/// messages say is not stated.
#[verifier::external_body]
fn parse_json_body(body: &[u8]) -> (result: Result<JsonBody, (serde_json::Error, String)>)
    ensures
        match result {
            Ok(parsed) => json_body_of(body@) == Some(parsed@),
            Err((_, message)) => json_body_of(body@) is None && message@ == json_error_message(
                body@,
            ),
        },
{
    match serde_json::from_slice::<serde_json::Value>(body) {
        Ok(serde_json::Value::Array(items)) => Ok(JsonBody::Array(
            items.into_iter().map(|item| match item {
                serde_json::Value::String(text) => JsonItem::Text(text),
                _ => JsonItem::Other,
            }).collect(),
        )),
        Ok(_) => Ok(JsonBody::NotArray),
        Err(error) => {
            let message = error.to_string();
            Err((error, message))
        },
    }
}

/// Every element of `items` is a string.
pub open spec fn all_text(items: Seq<Option<Seq<char>>>) -> bool {
    forall|i: int| 0 <= i < items.len() ==> #[trigger] items[i] is Some
}

/// The objects made of the strings `items` found at `path`, in order.
pub open spec fn objects_of(path: Seq<char>, items: Seq<Option<Seq<char>>>) -> Seq<
    (Seq<char>, Seq<char>),
> {
    items.map_values(|item: Option<Seq<char>>| (path, item->0))
}

/// The address of the endpoint at `path`: the API's address followed by
/// the path.
pub fn request_url(api_definition: &ApiDefinition, path: &str) -> (url: String)
    ensures
        url@ == api_definition.url@ + path@,
{
    let mut url = api_definition.url.clone();
    url.append(path);
    url
}

/// The objects of an answer at `path` that was read as `body`: one for
/// each element of the array, holding the element's text.
///
/// An array with an element that is not a string is left out.
pub fn objects_from_json(path: &str, body: &JsonBody) -> (result: Result<
    Vec<ApiObject>,
    BackendError,
>)
    requires
        body@ matches Some(items) ==> all_text(items),
    ensures
        match body@ {
            Some(items) => result matches Ok(objects) && {
                &&& objects@.map_values(|object: ApiObject| object@) == objects_of(path@, items)
                &&& objects@.len() == items.len()
                &&& forall|i: int|
                    0 <= i < items.len() ==> #[trigger] objects@[i]@ == (path@, items[i]->0)
            },
            None => result matches Err(BackendError::NotAnArray),
        },
{
    match body {
        JsonBody::Array(items) => {
            let ghost texts = body@->0;
            let mut objects: Vec<ApiObject> = Vec::new();
            let mut i: usize = 0;
            while i < items.len()
                invariant
                    i <= items@.len(),
                    texts == items@.map_values(|item: JsonItem| item@),
                    all_text(texts),
                    objects@.map_values(|object: ApiObject| object@) =~= objects_of(
                        path@,
                        texts,
                    ).take(i as int),
                decreases items@.len() - i,
            {
                assert(texts[i as int] is Some);
                match &items[i] {
                    JsonItem::Text(text) => {
                        let object = ApiObject { path: path.to_owned(), contents: text.clone() };
                        proof {
                            assert(objects_of(path@, texts).take(i + 1) =~= objects_of(
                                path@,
                                texts,
                            ).take(i as int).push(object@));
                        }
                        objects.push(object);
                    },
                    JsonItem::Other => {
                        assert(false);
                    },
                }
                i = i + 1;
            }
            assert(objects_of(path@, texts).take(i as int) =~= objects_of(path@, texts));
            proof {
                let views = objects@.map_values(|object: ApiObject| object@);
                assert(views.len() == objects@.len());
                assert forall|k: int| 0 <= k < texts.len() implies #[trigger] objects@[k]@ == (
                    path@,
                    texts[k]->0,
                ) by {
                    assert(views[k] == objects@[k]@);
                    assert(objects_of(path@, texts)[k] == (path@, texts[k]->0));
                }
            }
            Ok(objects)
        },
        JsonBody::NotArray => Err(BackendError::NotAnArray),
    }
}

/// Whether every element of an array that `body` holds is a string.
fn body_all_text(body: &JsonBody) -> (all: bool)
    ensures
        all == (body@ matches Some(items) ==> all_text(items)),
{
    match body {
        JsonBody::Array(items) => {
            let ghost texts = body@->0;
            let mut i: usize = 0;
            while i < items.len()
                invariant
                    i <= items@.len(),
                    texts == items@.map_values(|item: JsonItem| item@),
                    body@ == Some(texts),
                    forall|j: int| 0 <= j < i ==> #[trigger] texts[j] is Some,
                decreases items@.len() - i,
            {
                match &items[i] {
                    JsonItem::Text(_) => {},
                    JsonItem::Other => {
                        assert(!(texts[i as int] is Some));
                        return false;
                    },
                }
                i = i + 1;
            }
            true
        },
        JsonBody::NotArray => true,
    }
}

/// The objects of the answer `body` from the endpoint at `path`.
///
/// `Some` holds the objects, or why there are none: bytes that are not
/// JSON, with the error that serde_json reported for them, or a document
/// that is not an array. `None` stands for an array
/// with an element that is not a string, of which no object can be made.
pub fn objects_from_body(path: &str, body: &[u8]) -> (result: Option<
    Result<Vec<ApiObject>, BackendError>,
>)
    ensures
        match json_body_of(body@) {
            None => result matches Some(Err(BackendError::InvalidJson { message, .. }))
                && message@ == json_error_message(body@),
            Some(None) => result matches Some(Err(BackendError::NotAnArray)),
            Some(Some(items)) => if all_text(items) {
                result matches Some(Ok(objects)) && {
                    &&& objects@.map_values(|object: ApiObject| object@) == objects_of(
                        path@,
                        items,
                    )
                    &&& objects@.len() == items.len()
                    &&& forall|i: int|
                        0 <= i < items.len() ==> #[trigger] objects@[i]@ == (path@, items[i]->0)
                }
            } else {
                result is None
            },
        },
{
    match parse_json_body(body) {
        Ok(parsed) => {
            if body_all_text(&parsed) {
                Some(objects_from_json(path, &parsed))
            } else {
                None
            }
        },
        Err((error, message)) => Some(Err(BackendError::InvalidJson { error, message })),
    }
}

} // verus!
