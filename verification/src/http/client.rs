//! HTTP client decisions: when a request body gets the JSON content type,
//! and which statuses count as success.

use vstd::prelude::*;
use crate::string::functions::views;
use crate::text::{str_eq, str_lower, to_lowercase};

verus! {

broadcast use vstd::string::group_string_axioms;

/// None of these header names is a content type (in any letter case).
pub open spec fn no_content_type(names: Seq<Seq<char>>) -> bool {
    forall|i: int| 0 <= i < names.len() ==> str_lower(#[trigger] names[i]) != "content-type"@
}

/// Whether a request with these header names gets the JSON content type
/// with its body: when no headers were given, or none of them is a
/// content type.
pub fn needs_json_content_type(names: Option<&Vec<String>>) -> (b: bool)
    ensures
        match names {
            None => b,
            Some(v) => b == no_content_type(views(v@)),
        },
{
    match names {
        None => true,
        Some(v) => {
            let ghost ns = views(v@);
            let mut i: usize = 0;
            while i < v.len()
                invariant
                    names == Some(v),
                    i <= v.len(),
                    ns == views(v@),
                    forall|j: int| 0 <= j < i ==> str_lower(#[trigger] ns[j]) != "content-type"@,
                decreases v.len() - i,
            {
                let low = to_lowercase(v[i].as_str());
                proof {
                    assert(ns[i as int] == v@[i as int]@);
                }
                if str_eq(low.as_str(), "content-type") {
                    return false;
                }
                i = i + 1;
            }
            true
        },
    }
}

/// A status in the 2xx range.
pub fn is_success(status: u16) -> (b: bool)
    ensures
        b == (200 <= status < 300),
{
    200 <= status && status < 300
}

} // verus!
