use vstd::prelude::*;
use crate::manifest::{updates_view, Update};

verus! {

#[verifier::external_type_specification]
#[verifier::external_body]
pub struct ExJsonError(serde_json::Error);

/// The entries of a JSON object whose values are strings or null, in
/// ascending key order, or `None` where the bytes are no such object.
pub uninterp spec fn config_updates_of(bytes: Seq<u8>) -> Option<Seq<Update>>;

/// Relies on serde_json::from_slice into a `BTreeMap<String, Option<String>>`:
/// the outcome depends on the bytes alone.
#[verifier::external_body]
pub(crate) fn decode_updates(bytes: &[u8]) -> (r: Result<
    Vec<(String, Option<String>)>,
    serde_json::Error,
>)
    ensures
        r is Ok <==> config_updates_of(bytes@) is Some,
        r matches Ok(v) ==> updates_view(v@) == config_updates_of(bytes@)->Some_0,
{
    serde_json::from_slice::<std::collections::BTreeMap<String, Option<String>>>(bytes).map(
        |m| m.into_iter().collect(),
    )
}

/// Relies on serde_json::Error's `Display`: the message of a decode error.
#[verifier::external_body]
pub(crate) fn json_error_text(e: &serde_json::Error) -> String {
    e.to_string()
}

} // verus!
