//! The API description served under `/docs`.

use vstd::prelude::*;

verus! {

/// Marker of the server's OpenAPI description, tagged `BasicAPI`.
pub struct ApiDoc;

} // verus!
