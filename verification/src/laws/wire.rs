//! Members of JSON objects.

use crate::json::{member, JsonView};
use vstd::prelude::*;

verus! {

/// The items under a key, where an array stands there.
pub open spec fn array_member(value: JsonView, key: Seq<char>) -> Option<Seq<JsonView>> {
    match member(value, key) {
        Some(JsonView::Array(items)) => Some(items),
        _ => None,
    }
}

}
