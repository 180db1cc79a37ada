//! The validator an application has until it is given one that reads
//! schemas: it asks of a body only that it is well-formed JSON.

use vstd::prelude::*;
use vstd::slice::slice_to_vec;
use crate::error::{CoreError, ErrorView};
use crate::json::{json_from_slice, json_parsed};
use crate::registry::{asked, checked_by, settled, verdict_view};
use crate::router::RouteId;

verus! {

/// What [`validate_json`] makes of a body: the body itself where it reads
/// as JSON, else a validation error with the text of the reading error.
pub open spec fn well_formed(body: Seq<u8>) -> Result<Seq<u8>, ErrorView> {
    match json_parsed(body) {
        Ok(_) => Ok(body),
        Err(m) => Err(ErrorView::Validation(m)),
    }
}

/// Accepts a body that is well-formed JSON, whatever the schema asks, and
/// hands back its bytes unchanged; refuses every other body with a
/// validation error that carries the text of the reading error. The schema
/// is not read.
pub fn validate_json(body: &[u8], schema: &serde_json::Value) -> (r: Result<Vec<u8>, CoreError>)
    ensures
        verdict_view(r) == well_formed(body@),
{
    match json_from_slice(body) {
        Ok(_) => Ok(slice_to_vec(body)),
        Err(m) => Err(CoreError::Validation(m)),
    }
}

/// Under a validator that answers as [`validate_json`] does, a request
/// that is checked against a schema goes through exactly when its bytes are
/// well-formed JSON, whatever the schema: the bytes become the payload,
/// unchanged, and a body that does not read as JSON is refused with the
/// text of the reading error.
pub proof fn law_well_formed_body_is_enough<
    V: Fn(&[u8], &serde_json::Value) -> Result<Vec<u8>, CoreError>,
>(
    validate: V,
    id: RouteId,
    bytes: Seq<u8>,
    schema: serde_json::Value,
    outcome: Result<(RouteId, Seq<u8>), ErrorView>,
)
    requires
        forall|body: &[u8], asked_schema: &serde_json::Value, verdict: Result<Vec<u8>, CoreError>|
            #[trigger] validate.ensures((body, asked_schema), verdict) ==> verdict_view(verdict)
                == well_formed(body@),
        checked_by(validate, id, bytes, schema, outcome),
    ensures
        outcome == settled(id, well_formed(bytes)),
{
    let verdict = choose|verdict: Result<Vec<u8>, CoreError>|
        #[trigger] asked(validate, bytes, schema, verdict) && outcome == settled(
            id,
            verdict_view(verdict),
        );
    let handed = choose|handed: &[u8]|
        handed@ == bytes && #[trigger] validate.ensures((handed, &schema), verdict);
    assert(verdict_view(verdict) == well_formed(handed@));
}

} // verus!
