//! String utilities.

use vstd::prelude::*;
use crate::string::functions::{split_seq, views};
use crate::text::{has_prefix, has_suffix, str_lower, str_upper, trim_seq};

verus! {

/// Convert to uppercase.
pub fn upper(s: &str) -> (r: String)
    ensures
        r@ == str_upper(s@),
{
    crate::text::to_uppercase(s)
}

/// Convert to lowercase.
pub fn lower(s: &str) -> (r: String)
    ensures
        r@ == str_lower(s@),
{
    crate::text::to_lowercase(s)
}

/// Split string by delimiter.
pub fn split(s: &str, delim: &str) -> (r: Vec<String>)
    ensures
        views(r@) == split_seq(s@, delim@),
{
    crate::string::functions::split(s, delim)
}

/// Trim whitespace.
pub fn trim(s: &str) -> (r: String)
    ensures
        r@ == trim_seq(s@),
{
    crate::string::functions::trim(s)
}

/// Check if string starts with prefix.
pub fn starts_with(s: &str, prefix: &str) -> (b: bool)
    ensures
        b == has_prefix(s@, prefix@),
{
    crate::string::functions::starts_with(s, prefix)
}

/// Check if string ends with suffix.
pub fn ends_with(s: &str, suffix: &str) -> (b: bool)
    ensures
        b == has_suffix(s@, suffix@),
{
    crate::string::functions::ends_with(s, suffix)
}

} // verus!
