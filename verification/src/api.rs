//! The keys of an account.

use crate::json::{entries_view, lemma_object_view, Json, JsonView};
use crate::signature::{request_body, Operation, RequestError};
use crate::Client;
use vstd::prelude::*;

verus! {

/// The path on which the keys of an account are listed.
pub const LIST_API_KEYS: &'static str = "account/api_keys";

/// The payload of a request that carries no data: an object without entries.
pub open spec fn empty_payload() -> JsonView {
    JsonView::Object(Seq::empty())
}

impl Client {
    /// The signed body of the request that lists the account's keys, to be
    /// posted on [`LIST_API_KEYS`].
    pub fn list_api_keys(&mut self) -> (r: Result<Json, RequestError>)
        ensures
            final(self)@ == old(self)@,
            exists|timestamp: u128|
                match r {
                    Ok(body) => #[trigger] request_body(
                        old(self)@,
                        Operation::ListApiKeys,
                        empty_payload(),
                        timestamp,
                    ) == Ok::<JsonView, RequestError>(body@),
                    Err(e) => request_body(
                        old(self)@,
                        Operation::ListApiKeys,
                        empty_payload(),
                        timestamp,
                    ) == Err::<JsonView, RequestError>(e),
                },
    {
        let entries: Vec<(String, Json)> = Vec::new();
        proof {
            lemma_object_view(entries);
            assert(entries_view(entries@) =~= Seq::empty());
        }
        let payload = Json::Object(entries);
        self.get_request_header(Operation::ListApiKeys, &payload)
    }
}

} // verus!
