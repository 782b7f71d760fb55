//! The string operations as the scripting API (`rex.string`) performs
//! them where they differ from `functions`: capitalizing lower-cases the
//! rest of the text as a whole, and slicing an empty or reversed range gives
//! nothing.

use vstd::prelude::*;
use crate::string::functions::min_int;
use crate::text::{
    ascii_lower_char, ascii_lower_seq, ascii_upper_char, chars_of, char_to_uppercase, char_upper,
    is_ascii_seq, push_char, push_str, str_lower, string_of_range, to_lowercase,
};

verus! {

broadcast use vstd::string::group_string_axioms;

/// The first character upper-cased, followed by the rest of the text
/// lower-cased as a whole.
pub open spec fn capitalize_whole_rest(s: Seq<char>) -> Seq<char> {
    if s.len() == 0 {
        Seq::empty()
    } else {
        char_upper(s[0]) + str_lower(s.drop_first())
    }
}

/// The characters from `start` up to `end`, clipped to the text; nothing
/// when `end <= start`.
pub open spec fn clamped_slice(s: Seq<char>, start: int, end: int) -> Seq<char> {
    if end <= start {
        Seq::empty()
    } else {
        s.subrange(min_int(start, s.len() as int), min_int(end, s.len() as int))
    }
}

/// The fill character named by `ch`: its first character, or a space.
pub open spec fn fill_char(ch: Seq<char>) -> char {
    if ch.len() > 0 {
        ch[0]
    } else {
        ' '
    }
}

/// ASCII text capitalized: the first character upper-cased, the rest
/// lower-cased.
pub open spec fn capitalized_ascii(s: Seq<char>) -> Seq<char> {
    if s.len() == 0 {
        Seq::empty()
    } else {
        seq![ascii_upper_char(s[0])] + ascii_lower_seq(s.drop_first())
    }
}

/// Capitalize: the first character upper-cased, the rest lower-cased.
pub fn capitalize(s: &str) -> (r: String)
    ensures
        r@ == capitalize_whole_rest(s@),
        is_ascii_seq(s@) ==> r@ == capitalized_ascii(s@),
{
    let v = chars_of(s);
    if v.len() == 0 {
        return String::new();
    }
    let mut r = char_to_uppercase(v[0]);
    let rest = string_of_range(&v, 1, v.len());
    let low = to_lowercase(rest.as_str());
    push_str(&mut r, low.as_str());
    proof {
        assert(v@.subrange(1, v@.len() as int) =~= s@.drop_first());
        if is_ascii_seq(s@) {
            assert(is_ascii_seq(rest@));
            assert(r@ =~= capitalized_ascii(s@));
        }
    }
    r
}

/// The characters from `start` up to `end`; nothing for an empty or
/// reversed range.
pub fn slice(s: &str, start: usize, end: usize) -> (r: String)
    ensures
        r@ == clamped_slice(s@, start as int, end as int),
{
    let v = chars_of(s);
    if end <= start {
        return String::new();
    }
    let lo = if start < v.len() {
        start
    } else {
        v.len()
    };
    let hi = if end < v.len() {
        end
    } else {
        v.len()
    };
    string_of_range(&v, lo, hi)
}

/// The fill character given as text: its first character, or a space.
pub fn fill_char_of(ch: &str) -> (c: char)
    ensures
        c == fill_char(ch@),
{
    let v = chars_of(ch);
    if v.len() > 0 {
        v[0]
    } else {
        ' '
    }
}

/// Capitalizing ASCII text keeps its length and its letters, only changing
/// their case: the first character is not a lower-case letter, and none of
/// the others is an upper-case letter.
pub proof fn law_capitalized_case(s: Seq<char>)
    ensures
        capitalized_ascii(s).len() == s.len(),
        forall|i: int|
            0 <= i < s.len() ==> ascii_lower_char(#[trigger] capitalized_ascii(s)[i])
                == ascii_lower_char(s[i]),
        s.len() > 0 ==> !('a' <= capitalized_ascii(s)[0] <= 'z'),
        forall|i: int|
            1 <= i < s.len() ==> !('A' <= #[trigger] capitalized_ascii(s)[i] <= 'Z'),
{
    let c = capitalized_ascii(s);
    assert forall|i: int| 0 <= i < s.len() implies ascii_lower_char(#[trigger] c[i])
        == ascii_lower_char(s[i]) by {
        if i > 0 {
            assert(c[i] == ascii_lower_char(s[i]));
        } else {
            assert(c[0] == ascii_upper_char(s[0]));
        }
    }
    assert forall|i: int| 1 <= i < s.len() implies !('A' <= #[trigger] c[i] <= 'Z') by {
        assert(c[i] == ascii_lower_char(s[i]));
    }
}

} // verus!
