use vstd::prelude::*;

verus! {

/// The error type of the search backend; the library only carries it through.
#[verifier::external_type_specification]
#[verifier::external_body]
pub struct ExMeiliSearchError(meilisearch_sdk::errors::Error);

} // verus!
