//! The API surface: four HTTP operations mapped onto store calls.
//!
//! [`handle`] is the whole request-to-operation translation: it picks the
//! store call that the method names, runs it, and renders the resulting
//! list as the JSON response body. The transport around it only parses the
//! request line, reads the body and writes the response back out.

use vstd::prelude::*;

use crate::codec::json_array_spec;
use crate::codec::to_json;
use crate::store::Store;
use crate::store::strip_quotes_spec;

verus! {

/// The four HTTP methods the API answers on its one path.
#[derive(Clone, Copy, Debug, PartialEq, Eq, Structural)]
pub enum Method {
    Get,
    Post,
    Delete,
    Patch,
}

/// What goes back over the wire: a status code and a response body.
pub struct Response {
    pub status: u16,
    pub body: String,
}

/// The body sent with a failed removal.
pub open spec fn not_found_body() -> Seq<char> {
    "value not found"@
}

/// Runs the store operation bound to `method` and renders the result.
///
/// GET reads, POST appends the request body, DELETE removes the first item
/// equal to the request body, PATCH clears; each answers 200 with the full
/// list as a JSON array, except a DELETE whose value is absent, which
/// leaves the list unchanged and answers 404 with an error body.
pub fn handle(store: &mut Store, method: Method, body: &str) -> (resp: Response)
    ensures
        match method {
            Method::Get => {
                &&& final(store)@ == old(store)@
                &&& resp.status == 200
                &&& resp.body@ == json_array_spec(old(store)@)
            },
            Method::Post => {
                &&& final(store)@ == old(store)@.push(strip_quotes_spec(body@))
                &&& resp.status == 200
                &&& resp.body@ == json_array_spec(final(store)@)
            },
            Method::Delete => {
                &&& final(store)@ == old(store)@.remove_value(strip_quotes_spec(body@))
                &&& old(store)@.contains(strip_quotes_spec(body@)) ==> resp.status == 200
                    && resp.body@ == json_array_spec(final(store)@)
                &&& !old(store)@.contains(strip_quotes_spec(body@)) ==> resp.status == 404
                    && resp.body@ == not_found_body() && final(store)@ == old(store)@
            },
            Method::Patch => {
                &&& final(store)@ == Seq::<Seq<char>>::empty()
                &&& resp.status == 200
                &&& resp.body@ == json_array_spec(Seq::<Seq<char>>::empty())
            },
        },
{
    match method {
        Method::Get => {
            let items = store.read_all();
            Response { status: 200, body: to_json(&items) }
        },
        Method::Post => {
            let items = store.append(body);
            Response { status: 200, body: to_json(&items) }
        },
        Method::Delete => {
            match store.remove_first(body) {
                Ok(items) => Response { status: 200, body: to_json(&items) },
                Err(_) => Response { status: 404, body: String::from_str("value not found") },
            }
        },
        Method::Patch => {
            let items = store.clear();
            Response { status: 200, body: to_json(&items) }
        },
    }
}

} // verus!
