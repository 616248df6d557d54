//! The result sanitizer: strips the envelope fields from a store response.

use vstd::prelude::*;
use serde_json::Value;
use crate::json::{members_of, remove_member};

verus! {

/// `members` without the envelope fields `meta`, `rows` and `statistics`.
pub open spec fn without_envelope(members: Map<Seq<char>, Value>) -> Map<Seq<char>, Value> {
    members.remove("meta"@).remove("rows"@).remove("statistics"@)
}

/// Removes the top-level `meta`, `rows` and `statistics` members from a JSON
/// object unless `include_meta` is set. Anything that is not an object passes
/// through unchanged.
pub fn sanitize(raw: Value, include_meta: bool) -> (clean: Value)
    ensures
        include_meta ==> clean == raw,
        !include_meta ==> match members_of(raw) {
            Some(members) => members_of(clean) == Some(without_envelope(members)),
            None => clean == raw,
        },
{
    let mut data = raw;
    if !include_meta {
        match data.as_object_mut() {
            Some(object) => {
                remove_member(object, "meta");
                remove_member(object, "rows");
                remove_member(object, "statistics");
            },
            None => {},
        }
    }
    data
}

/// With the envelope stripped, none of the three envelope fields is left and
/// every other member is exactly as it was.
pub proof fn lemma_envelope_stripped(members: Map<Seq<char>, Value>)
    ensures
        !without_envelope(members).contains_key("meta"@),
        !without_envelope(members).contains_key("rows"@),
        !without_envelope(members).contains_key("statistics"@),
        forall|key: Seq<char>|
            key != "meta"@ && key != "rows"@ && key != "statistics"@ ==> (without_envelope(
                members,
            ).contains_key(key) <==> members.contains_key(key)),
        forall|key: Seq<char>|
            #[trigger] without_envelope(members).contains_key(key) ==> without_envelope(
                members,
            )[key] == members[key],
{
}

} // verus!
